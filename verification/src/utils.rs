//! Small helpers on text and lists that the rest of the library shares.

use vstd::prelude::*;
use std::collections::HashSet;
use std::hash::Hash;
use vstd::pervasive::cloned;
use vstd::std_specs::hash::obeys_key_model;
use vstd::string::{StrSliceExecFns, StringExecFns};

verus! {

pub const XK_A: u32 = 0x0061;

pub const XK_B: u32 = 0x0062;

pub const XK_C: u32 = 0x0063;

pub const XK_D: u32 = 0x0064;

pub const XK_E: u32 = 0x0065;

pub const XK_F: u32 = 0x0066;

pub const XK_G: u32 = 0x0067;

pub const XK_H: u32 = 0x0068;

pub const XK_I: u32 = 0x0069;

pub const XK_J: u32 = 0x006a;

pub const XK_K: u32 = 0x006b;

pub const XK_L: u32 = 0x006c;

pub const XK_M: u32 = 0x006d;

pub const XK_N: u32 = 0x006e;

pub const XK_O: u32 = 0x006f;

pub const XK_P: u32 = 0x0070;

pub const XK_Q: u32 = 0x0071;

pub const XK_R: u32 = 0x0072;

pub const XK_S: u32 = 0x0073;

pub const XK_T: u32 = 0x0074;

pub const XK_U: u32 = 0x0075;

pub const XK_V: u32 = 0x0076;

pub const XK_W: u32 = 0x0077;

pub const XK_X: u32 = 0x0078;

pub const XK_Y: u32 = 0x0079;

pub const XK_Z: u32 = 0x007a;

pub const XK_SPACE: u32 = 0x0020;

pub const XK_EXCLAM: u32 = 0x0021;

pub const XK_QUOTEDBL: u32 = 0x0022;

pub const XK_NUMBERSIGN: u32 = 0x0023;

pub const XK_DOLLAR: u32 = 0x0024;

pub const XK_PERCENT: u32 = 0x0025;

pub const XK_AMPERSAND: u32 = 0x0026;

pub const XK_APOSTROPHE: u32 = 0x0027;

pub const XK_PARENLEFT: u32 = 0x0028;

pub const XK_PARENRIGHT: u32 = 0x0029;

pub const XK_ASTERISK: u32 = 0x002a;

pub const XK_PLUS: u32 = 0x002b;

pub const XK_COMMA: u32 = 0x002c;

pub const XK_MINUS: u32 = 0x002d;

pub const XK_PERIOD: u32 = 0x002e;

pub const XK_SLASH: u32 = 0x002f;

pub const XK_COLON: u32 = 0x003a;

pub const XK_SEMICOLON: u32 = 0x003b;

pub const XK_LESS: u32 = 0x003c;

pub const XK_EQUAL: u32 = 0x003d;

pub const XK_GREATER: u32 = 0x003e;

pub const XK_QUESTION: u32 = 0x003f;

pub const XK_AT: u32 = 0x0040;

pub const XK_BRACKETLEFT: u32 = 0x005b;

pub const XK_BACKSLASH: u32 = 0x005c;

pub const XK_BRACKETRIGHT: u32 = 0x005d;

pub const XK_ASCIICIRCUM: u32 = 0x005e;

pub const XK_UNDERSCORE: u32 = 0x005f;

pub const XK_BRACELEFT: u32 = 0x007b;

pub const XK_BAR: u32 = 0x007c;

pub const XK_BRACERIGHT: u32 = 0x007d;

pub const XK_ASCIITILDE: u32 = 0x007e;

pub const XK_BACKSPACE: u32 = 0xff08;

pub const XK_TAB: u32 = 0xff09;

pub const XK_RETURN: u32 = 0xff0d;

pub const XK_ESCAPE: u32 = 0xff1b;

pub const XK_DELETE: u32 = 0xffff;

pub const XK_HOME: u32 = 0xff50;

pub const XK_LEFT: u32 = 0xff51;

pub const XK_UP: u32 = 0xff52;

pub const XK_RIGHT: u32 = 0xff53;

pub const XK_DOWN: u32 = 0xff54;

pub const XK_PAGE_UP: u32 = 0xff55;

pub const XK_PAGE_DOWN: u32 = 0xff56;

pub const XK_END: u32 = 0xff57;

pub const XK_INSERT: u32 = 0xff63;

pub const XK_PRINT: u32 = 0xff61;

pub const XK_GRAVE: u32 = 0x0060;

pub const XK_SHIFT_L: u32 = 0xffe1;

pub const XK_SHIFT_R: u32 = 0xffe2;

pub const XK_CONTROL_L: u32 = 0xffe3;

pub const XK_CONTROL_R: u32 = 0xffe4;

pub const XK_CAPS_LOCK: u32 = 0xffe5;

pub const XK_META_L: u32 = 0xffe7;

pub const XK_META_R: u32 = 0xffe8;

pub const XK_ALT_L: u32 = 0xffe9;

pub const XK_ALT_R: u32 = 0xffea;

pub const XK_SUPER_L: u32 = 0xffeb;

pub const XK_SUPER_R: u32 = 0xffec;

pub const XK_F1: u32 = 0xffbe;

pub const XK_F2: u32 = 0xffbf;

pub const XK_F3: u32 = 0xffc0;

pub const XK_F4: u32 = 0xffc1;

pub const XK_F5: u32 = 0xffc2;

pub const XK_F6: u32 = 0xffc3;

pub const XK_F7: u32 = 0xffc4;

pub const XK_F8: u32 = 0xffc5;

pub const XK_F9: u32 = 0xffc6;

pub const XK_F10: u32 = 0xffc7;

pub const XK_F11: u32 = 0xffc8;

pub const XK_F12: u32 = 0xffc9;

pub const XK_0: u32 = 0x0030;

pub const XK_1: u32 = 0x0031;

pub const XK_2: u32 = 0x0032;

pub const XK_3: u32 = 0x0033;

pub const XK_4: u32 = 0x0034;

pub const XK_5: u32 = 0x0035;

pub const XK_6: u32 = 0x0036;

pub const XK_7: u32 = 0x0037;

pub const XK_8: u32 = 0x0038;

pub const XK_9: u32 = 0x0039;

pub const XK_AUDIO_LOWER_VOL: u32 = 0x1008ff11;

pub const XK_AUDIO_MUTE: u32 = 0x1008ff12;

pub const XK_AUDIO_RAISE_VOL: u32 = 0x1008ff13;

pub const XK_AUDIO_PLAY: u32 = 0x1008ff14;

pub const XK_AUDIO_STOP: u32 = 0x1008ff15;

pub const XK_AUDIO_PREV: u32 = 0x1008ff16;

pub const XK_AUDIO_NEXT: u32 = 0x1008ff17;

pub const XK_AUDIO_MIC_MUTE: u32 = 0x1008ffb2;

pub const XK_MON_BRIGHTNESS_UP: u32 = 0x1008ff02;

pub const XK_MON_BRIGHTNESS_DOWN: u32 = 0x1008ff03;

pub const XK_CALCULATOR: u32 = 0x1008ff1d;

pub const XK_MAIL: u32 = 0x1008ff19;

pub const XK_WWW: u32 = 0x1008ff2e;

pub const XK_TOOLS: u32 = 0x1008ff81;

/// The character of the decimal digit `d`.
pub open spec fn digit_char(d: int) -> char {
    if d == 0 {
        '0'
    } else if d == 1 {
        '1'
    } else if d == 2 {
        '2'
    } else if d == 3 {
        '3'
    } else if d == 4 {
        '4'
    } else if d == 5 {
        '5'
    } else if d == 6 {
        '6'
    } else if d == 7 {
        '7'
    } else if d == 8 {
        '8'
    } else {
        '9'
    }
}

/// The decimal numeral of `n`, without leading zeros.
pub open spec fn decimal(n: nat) -> Seq<char>
    decreases n,
{
    if n < 10 {
        seq![digit_char(n as int)]
    } else {
        decimal(n / 10).push(digit_char((n % 10) as int))
    }
}

/// The one-character text of the decimal digit `d`.
fn digit_str(d: u8) -> (s: &'static str)
    requires
        d < 10,
    ensures
        s@ == seq![digit_char(d as int)],
{
    proof {
        reveal_strlit("0");
        reveal_strlit("1");
        reveal_strlit("2");
        reveal_strlit("3");
        reveal_strlit("4");
        reveal_strlit("5");
        reveal_strlit("6");
        reveal_strlit("7");
        reveal_strlit("8");
        reveal_strlit("9");
    }
    let s = match d {
        0 => "0",
        1 => "1",
        2 => "2",
        3 => "3",
        4 => "4",
        5 => "5",
        6 => "6",
        7 => "7",
        8 => "8",
        _ => "9",
    };
    assert(s@ =~= seq![digit_char(d as int)]);
    s
}

/// Writes `n` as a decimal numeral.
pub fn decimal_string(n: u8) -> (s: String)
    ensures
        s@ == decimal(n as nat),
{
    let mut s = String::new();
    if n >= 100 {
        s.append(digit_str(n / 100));
        assert(s@ =~= decimal((n / 100) as nat));
    }
    if n >= 10 {
        s.append(digit_str((n / 10) % 10));
        assert(s@ =~= decimal((n / 10) as nat)) by {
            if n >= 100 {
                assert((n / 10) / 10 == n / 100);
            }
        }
    }
    s.append(digit_str(n % 10));
    assert(s@ =~= decimal(n as nat));
    s
}

/// Whether `c` is white space: one of the characters that Unicode gives the
/// property White_Space.
pub open spec fn is_space(c: char) -> bool {
    let v = c as u32;
    ||| 0x09 <= v <= 0x0d
    ||| v == 0x20
    ||| v == 0x85
    ||| v == 0xa0
    ||| v == 0x1680
    ||| 0x2000 <= v <= 0x200a
    ||| v == 0x2028
    ||| v == 0x2029
    ||| v == 0x202f
    ||| v == 0x205f
    ||| v == 0x3000
}

/// `s` without the white space at its start.
pub open spec fn trim_start(s: Seq<char>) -> Seq<char>
    decreases s.len(),
{
    if s.len() > 0 && is_space(s[0]) {
        trim_start(s.drop_first())
    } else {
        s
    }
}

/// `s` without the white space at its end.
pub open spec fn trim_end(s: Seq<char>) -> Seq<char>
    decreases s.len(),
{
    if s.len() > 0 && is_space(s.last()) {
        trim_end(s.drop_last())
    } else {
        s
    }
}

/// `s` without the white space at its start and at its end.
pub open spec fn trimmed(s: Seq<char>) -> Seq<char> {
    trim_end(trim_start(s))
}

/// Whether `c` is white space.
pub fn is_whitespace(c: char) -> (r: bool)
    ensures
        r == is_space(c),
{
    let v: u32 = c as u32;
    (0x09 <= v && v <= 0x0d) || v == 0x20 || v == 0x85 || v == 0xa0 || v == 0x1680 || (0x2000 <= v
        && v <= 0x200a) || v == 0x2028 || v == 0x2029 || v == 0x202f || v == 0x205f || v == 0x3000
}

/// `s` without the white space at its start and at its end.
pub fn trim(s: &str) -> (r: String)
    ensures
        r@ == trimmed(s@),
{
    let n = s.unicode_len();
    let mut i: usize = 0;
    proof {
        assert(s@.subrange(0, n as int) =~= s@);
    }
    while i < n && is_whitespace(s.get_char(i))
        invariant
            i <= n,
            n == s@.len(),
            trim_start(s@) == trim_start(s@.subrange(i as int, n as int)),
        decreases n - i,
    {
        proof {
            let t = s@.subrange(i as int, n as int);
            assert(t[0] == s@[i as int]);
            assert(t.drop_first() =~= s@.subrange(i + 1, n as int));
        }
        i = i + 1;
    }
    proof {
        let t = s@.subrange(i as int, n as int);
        if i < n {
            assert(t[0] == s@[i as int]);
        }
        assert(trim_start(s@) == t);
    }
    let mut j: usize = n;
    while j > i && is_whitespace(s.get_char(j - 1))
        invariant
            i <= j <= n,
            n == s@.len(),
            trim_end(s@.subrange(i as int, n as int)) == trim_end(s@.subrange(i as int, j as int)),
        decreases j,
    {
        proof {
            let t = s@.subrange(i as int, j as int);
            assert(t.last() == s@[j - 1]);
            assert(t.drop_last() =~= s@.subrange(i as int, j - 1));
        }
        j = j - 1;
    }
    proof {
        let t = s@.subrange(i as int, j as int);
        if j > i {
            assert(t.last() == s@[j - 1]);
        }
        assert(trim_end(t) == t);
    }
    String::from_str(s.substring_char(i, j))
}

/// The volume that the mixer reported: its answer `output` without the
/// white space around it.
pub fn get_volume(output: &str) -> (r: String)
    ensures
        r@ == trimmed(output@),
{
    trim(output)
}

/// Whether the mixer reported the sink as muted: whether its answer
/// `output`, without the white space around it, is `true`.
pub fn is_muted(output: &str) -> (r: bool)
    ensures
        r == (trimmed(output@) == "true"@),
{
    let t = trim(output);
    let yes = String::from_str("true");
    t == yes
}

/// `s` with every element that occurred before left out: the first
/// occurrence of each element, in the order of `s`.
pub open spec fn deduped<T>(s: Seq<T>) -> Seq<T>
    decreases s.len(),
{
    if s.len() == 0 {
        s
    } else {
        let d = deduped(s.drop_last());
        if d.contains(s.last()) {
            d
        } else {
            d.push(s.last())
        }
    }
}

/// What [`deduped`] yields has no element twice and holds exactly the
/// elements of the sequence.
pub proof fn lemma_deduped<T>(s: Seq<T>)
    ensures
        deduped(s).no_duplicates(),
        forall|x: T| #[trigger] deduped(s).contains(x) <==> s.contains(x),
    decreases s.len(),
{
    if s.len() > 0 {
        let t = s.drop_last();
        let d = deduped(t);
        let r = deduped(s);
        lemma_deduped(t);
        assert forall|x: T| #[trigger] r.contains(x) <==> s.contains(x) by {
            if r.contains(x) {
                let i = choose|i: int| 0 <= i < r.len() && r[i] == x;
                if i < d.len() {
                    assert(d[i] == x);
                    assert(d.contains(x));
                    assert(t.contains(x));
                    let j = choose|j: int| 0 <= j < t.len() && t[j] == x;
                    assert(s[j] == x);
                } else {
                    assert(s[s.len() - 1] == x);
                }
            }
            if s.contains(x) {
                let j = choose|j: int| 0 <= j < s.len() && s[j] == x;
                if j < t.len() {
                    assert(t[j] == x);
                    assert(t.contains(x));
                    assert(d.contains(x));
                    let i = choose|i: int| 0 <= i < d.len() && d[i] == x;
                    assert(r[i] == x);
                } else {
                    if d.contains(x) {
                    } else {
                        assert(r[d.len() as int] == x);
                    }
                }
            }
        }
        if !d.contains(s.last()) {
            assert forall|i: int, j: int| 0 <= i < r.len() && 0 <= j < r.len() && i != j implies r[i]
                != r[j] by {
                if i == d.len() {
                    assert(d[j] == r[j]);
                    assert(d.contains(d[j]));
                } else if j == d.len() {
                    assert(d[i] == r[i]);
                    assert(d.contains(d[i]));
                }
            }
        }
    }
}

/// Leaves out every element of `vec` that occurred before and keeps the
/// others in their order.
pub fn dedup_preserve_order<T>(vec: Vec<T>) -> (result: Vec<T>) where T: Hash + Eq + Clone
    requires
        obeys_key_model::<T>(),
        forall|a: T, b: T| #[trigger] cloned::<T>(a, b) ==> a == b,
    ensures
        result@ == deduped(vec@),
{
    let mut seen: HashSet<T> = HashSet::new();
    let mut result: Vec<T> = Vec::new();
    let ghost all: Seq<T> = vec@;
    let mut rest = vec;
    let total = rest.len();
    let mut i: usize = 0;
    proof {
        assert(rest@ =~= all.subrange(0, total as int));
        assert(all.take(0) =~= Seq::<T>::empty());
    }
    while i < total
        invariant
            obeys_key_model::<T>(),
            forall|a: T, b: T| #[trigger] cloned::<T>(a, b) ==> a == b,
            i <= total,
            total == all.len(),
            rest@ == all.subrange(i as int, total as int),
            result@ == deduped(all.take(i as int)),
            forall|x: T| seen@.contains(x) <==> result@.contains(x),
        decreases total - i,
    {
        let item = rest.remove(0);
        proof {
            assert(rest@ =~= all.subrange(i + 1, total as int));
            let t = all.take(i + 1);
            assert(t.drop_last() =~= all.take(i as int));
            assert(t.last() == item);
        }
        let copy = item.clone();
        let ghost before = result@;
        let ghost seen_before = seen@;
        proof {
            assert(cloned::<T>(item, copy));
            assert(copy == item);
        }
        if seen.insert(copy) {
            result.push(item);
            proof {
                assert(seen@ == seen_before.insert(item));
                assert forall|x: T| seen@.contains(x) <==> result@.contains(x) by {
                    assert(seen_before.contains(x) <==> before.contains(x));
                    if result@.contains(x) {
                        let k = choose|k: int| 0 <= k < result@.len() && result@[k] == x;
                        if k < before.len() {
                            assert(before[k] == x);
                            assert(before.contains(x));
                        }
                    }
                    if seen@.contains(x) {
                        if x == item {
                            assert(result@[before.len() as int] == item);
                        } else {
                            assert(before.contains(x));
                            let k = choose|k: int| 0 <= k < before.len() && before[k] == x;
                            assert(result@[k] == x);
                        }
                    }
                }
            }
        } else {
            proof {
                assert(seen_before.contains(item) <==> before.contains(item));
                assert(seen@ =~= seen_before);
            }
        }
        i = i + 1;
    }
    proof {
        assert(all.take(total as int) =~= all);
    }
    result
}

/// The upper-case form of `c` if it is one of the letters `a` to `z`, else
/// `c` itself.
pub open spec fn ascii_upper_char(c: char) -> char {
    if 'a' <= c <= 'z' {
        ((c as u32) - 32) as char
    } else {
        c
    }
}

/// `s` with each of the letters `a` to `z` in upper case.
pub open spec fn ascii_upper(s: Seq<char>) -> Seq<char> {
    Seq::new(s.len(), |i: int| ascii_upper_char(s[i]))
}

/// `s` with its ASCII letters in upper case, by `str::to_ascii_uppercase`:
/// that function is taken to map each of `a` to `z` to its upper-case
/// letter and to leave every other character as it is.
#[verifier::external_body]
fn to_ascii_uppercase(s: &str) -> (r: String)
    ensures
        r@ == ascii_upper(s@),
{
    s.to_ascii_uppercase()
}

/// The text that tells the user which mode was entered.
pub fn mode_alert_text(mode: &str) -> (r: String)
    ensures
        r@ == "[MODE] "@ + ascii_upper(mode@),
{
    let upper = to_ascii_uppercase(mode);
    String::from_str("[MODE] ").concat(upper.as_str())
}

/// The text `label` followed by the decimal numeral of `n`.
pub fn numbered_text(label: &str, n: u8) -> (r: String)
    ensures
        r@ == label@ + decimal(n as nat),
{
    let digits = decimal_string(n);
    String::from_str(label).concat(digits.as_str())
}

/// The text that reports the volume: in square brackets `MUTED` or `VOL`,
/// by what the mixer answered when asked whether the sink is muted, then
/// the volume it reported and a percent sign.
pub fn volume_alert_text(volume_output: &str, mute_output: &str) -> (r: String)
    ensures
        r@ == (if trimmed(mute_output@) == "true"@ {
            "[MUTED] "@
        } else {
            "[VOL] "@
        }) + trimmed(volume_output@) + "%"@,
{
    let percentage = get_volume(volume_output);
    let status = if is_muted(mute_output) {
        "[MUTED] "
    } else {
        "[VOL] "
    };
    String::from_str(status).concat(percentage.as_str()).concat("%")
}

/// The text that reports whether the microphone is muted, by what the mixer
/// answered.
pub fn mic_alert_text(mute_output: &str) -> (r: String)
    ensures
        r@ == if trimmed(mute_output@) == "true"@ {
            "[MIC] MUTED"@
        } else {
            "[MIC] LIVE"@
        },
{
    if is_muted(mute_output) {
        String::from_str("[MIC] MUTED")
    } else {
        String::from_str("[MIC] LIVE")
    }
}

/// The label for the battery state that the system reported.
pub open spec fn battery_label(status: Seq<char>) -> Seq<char> {
    if status == "Charging"@ {
        "[CHR] "@
    } else if status == "Discharging"@ {
        "[BAT] "@
    } else if status == "Full"@ {
        "[FULL] "@
    } else {
        "[UNK] "@
    }
}

/// The text that reports the battery: the label of its state, the charge
/// and a percent sign.
pub fn battery_alert_text(capacity_output: &str, status_output: &str) -> (r: String)
    ensures
        r@ == battery_label(trimmed(status_output@)) + trimmed(capacity_output@) + "%"@,
{
    let state = trim(status_output);
    let label = if state == String::from_str("Charging") {
        "[CHR] "
    } else if state == String::from_str("Discharging") {
        "[BAT] "
    } else if state == String::from_str("Full") {
        "[FULL] "
    } else {
        "[UNK] "
    };
    let percentage = trim(capacity_output);
    String::from_str(label).concat(percentage.as_str()).concat("%")
}

/// The text that reports the date and time that the system printed.
pub fn date_alert_text(date_output: &str) -> (r: String)
    ensures
        r@ == "[DATE] "@ + trimmed(date_output@),
{
    let date = trim(date_output);
    String::from_str("[DATE] ").concat(date.as_str())
}

/// The character of the hexadecimal digit `d`, in lower case.
pub open spec fn hex_digit_char(d: int) -> char {
    if d < 10 {
        digit_char(d)
    } else if d == 10 {
        'a'
    } else if d == 11 {
        'b'
    } else if d == 12 {
        'c'
    } else if d == 13 {
        'd'
    } else if d == 14 {
        'e'
    } else {
        'f'
    }
}

/// The last `width` hexadecimal digits of `n`, in lower case, with zeros in
/// front where `n` has fewer.
pub open spec fn hex_digits(n: nat, width: nat) -> Seq<char>
    decreases width,
{
    if width == 0 {
        Seq::empty()
    } else {
        hex_digits(n / 16, (width - 1) as nat).push(hex_digit_char((n % 16) as int))
    }
}

/// The one-character text of the hexadecimal digit `d`.
fn hex_digit_str(d: u32) -> (s: &'static str)
    requires
        d < 16,
    ensures
        s@ == seq![hex_digit_char(d as int)],
{
    if d < 10 {
        digit_str(d as u8)
    } else {
        proof {
            reveal_strlit("a");
            reveal_strlit("b");
            reveal_strlit("c");
            reveal_strlit("d");
            reveal_strlit("e");
            reveal_strlit("f");
        }
        let s = match d {
            10 => "a",
            11 => "b",
            12 => "c",
            13 => "d",
            14 => "e",
            _ => "f",
        };
        assert(s@ =~= seq![hex_digit_char(d as int)]);
        s
    }
}

/// Writes a colour of eight bits to each of red, green and blue as a hash
/// sign and six hexadecimal digits.
pub fn color_string(color: u32) -> (s: String)
    requires
        color <= 0xff_ffff,
    ensures
        s@ == "#"@ + hex_digits(color as nat, 6),
{
    let mut s = String::from_str("#");
    let mut shift: u32 = 24;
    let ghost mut done: nat = 0;
    proof {
        assert(hex_digits(0, 0) =~= Seq::<char>::empty());
        assert(color >> 24 == 0) by (bit_vector)
            requires
                color <= 0xff_ffff,
        ;
    }
    while shift > 0
        invariant
            shift % 4 == 0,
            shift <= 24,
            done == (24 - shift) / 4,
            s@ == "#"@ + hex_digits((color >> shift) as nat, done),
        decreases shift,
    {
        let ghost before = color >> shift;
        shift = shift - 4;
        let d: u32 = (color >> shift) & 0xf;
        proof {
            let now = color >> shift;
            assert(now / 16 == before && now % 16 == d) by (bit_vector)
                requires
                    now == color >> shift,
                    before == color >> ((shift + 4) as u32),
                    d == (color >> shift) & 0xf,
                    shift <= 20,
            ;
            done = done + 1;
        }
        s.append(hex_digit_str(d));
        proof {
            assert(s@ =~= "#"@ + hex_digits((color >> shift) as nat, done));
        }
    }
    proof {
        assert(color >> 0 == color) by (bit_vector);
    }
    s
}

} // verus!

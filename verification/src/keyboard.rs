//! From key symbols to the key codes of the keyboard at hand, and the grabs
//! that make the display server report a key to the manager.

use vstd::prelude::*;
use std::collections::HashMap;
use crate::commands::{Command, Keycode};
use crate::geometry::Window;

verus! {

/// Modifier bit of the shift keys.
pub const MOD_SHIFT: u16 = 1;

/// Modifier bit of caps lock.
pub const MOD_LOCK: u16 = 2;

/// Modifier bit of the control keys.
pub const MOD_CONTROL: u16 = 4;

/// Modifier bit that num lock usually has.
pub const MOD_2: u16 = 16;

/// Modifier bit that the super key usually has.
pub const MOD_4: u16 = 64;

/// The key symbol in column `col` of the row of key number `row` in a
/// keyboard mapping with `per` symbols to the key.
pub open spec fn cell(keysyms: Seq<u32>, per: int, row: int, col: int) -> u32 {
    keysyms[row * per + col]
}

/// The mapping holds all `per` symbols of row `row`.
pub open spec fn row_is_whole(keysyms: Seq<u32>, per: int, row: int) -> bool {
    row * per + per <= keysyms.len()
}

/// Row `row` is whole and one of its first `upto` symbols is `s`.
pub open spec fn row_holds(keysyms: Seq<u32>, per: int, row: int, upto: int, s: u32) -> bool {
    row_is_whole(keysyms, per, row) && exists|c: int|
        0 <= c < upto && c < per && #[trigger] cell(keysyms, per, row, c) == s
}

/// Row `row` is the first of the first `rows` rows that holds `s`.
pub open spec fn is_first_row(keysyms: Seq<u32>, per: int, rows: int, row: int, s: u32) -> bool {
    &&& 0 <= row < rows
    &&& row_holds(keysyms, per, row, per, s)
    &&& forall|r: int| 0 <= r < row ==> !#[trigger] row_holds(keysyms, per, r, per, s)
}

/// Number of key codes from `min` to `max`, both included.
pub open spec fn keycode_count(min: Keycode, max: Keycode) -> int {
    if max >= min {
        max - min + 1
    } else {
        0
    }
}

/// Finds the key code on which a key symbol lies.
pub struct KeySymConverter {
    keysym_map: HashMap<u32, Keycode>,
}

impl KeySymConverter {
    /// The key code of each key symbol that the converter knows.
    pub closed spec fn table(&self) -> Map<u32, Keycode> {
        self.keysym_map@
    }

    /// A converter for the keyboard mapping `keysyms`, which lists
    /// `keysyms_per_keycode` symbols for each key code from `min_keycode` to
    /// `max_keycode`. A symbol is known if it is not 0 and lies on a key
    /// whose row the mapping holds whole; its key code is the lowest it lies
    /// on.
    pub fn new(
        min_keycode: Keycode,
        max_keycode: Keycode,
        keysyms_per_keycode: u8,
        keysyms: &Vec<u32>,
    ) -> (conv: Self)
        ensures
            forall|s: u32| #[trigger]
                conv.table().contains_key(s) ==> s != 0 && conv.table()[s] >= min_keycode
                    && is_first_row(
                    keysyms@,
                    keysyms_per_keycode as int,
                    keycode_count(min_keycode, max_keycode),
                    conv.table()[s] - min_keycode,
                    s,
                ),
            forall|s: u32, r: int|
                s != 0 && 0 <= r < keycode_count(min_keycode, max_keycode) && #[trigger] row_holds(
                    keysyms@,
                    keysyms_per_keycode as int,
                    r,
                    keysyms_per_keycode as int,
                    s,
                ) ==> conv.table().contains_key(s),
    {
        let mut map: HashMap<u32, Keycode> = HashMap::new();
        let per: usize = keysyms_per_keycode as usize;
        let ghost ks = keysyms@;
        let ghost p = per as int;
        if max_keycode < min_keycode {
            return KeySymConverter { keysym_map: map };
        }
        let rows: usize = (max_keycode - min_keycode) as usize + 1;
        let mut row: usize = 0;
        while row < rows
            invariant
                row <= rows,
                rows == keycode_count(min_keycode, max_keycode),
                rows == max_keycode - min_keycode + 1,
                per == keysyms_per_keycode,
                p == per,
                ks == keysyms@,
                forall|s: u32| #[trigger]
                    map@.contains_key(s) ==> s != 0 && map@[s] >= min_keycode && is_first_row(
                        ks,
                        p,
                        row as int,
                        map@[s] - min_keycode,
                        s,
                    ),
                forall|s: u32, r: int|
                    s != 0 && 0 <= r < row && #[trigger] row_holds(ks, p, r, p, s)
                        ==> map@.contains_key(s),
            decreases rows - row,
        {
            assert(row * per <= 255 * 255) by (nonlinear_arith)
                requires
                    row <= 255,
                    per <= 255,
            ;
            let offset: usize = row * per;
            let keycode: Keycode = (min_keycode as usize + row) as u8;
            if offset + per <= keysyms.len() {
                let mut col: usize = 0;
                while col < per
                    invariant
                        col <= per,
                        row < rows,
                        rows == max_keycode - min_keycode + 1,
                        p == per,
                        ks == keysyms@,
                        offset == row * per,
                        offset <= 255 * 255,
                        per <= 255,
                        offset + per <= keysyms@.len(),
                        keycode == min_keycode + row,
                        forall|s: u32| #[trigger]
                            map@.contains_key(s) ==> s != 0 && map@[s] >= min_keycode && (
                            is_first_row(ks, p, row as int, map@[s] - min_keycode, s) || (map@[s]
                                - min_keycode == row && row_holds(ks, p, row as int, col as int, s)
                                && forall|r: int|
                                0 <= r < row ==> !#[trigger] row_holds(ks, p, r, p, s))),
                        forall|s: u32, r: int|
                            s != 0 && 0 <= r < row && #[trigger] row_holds(ks, p, r, p, s)
                                ==> map@.contains_key(s),
                        forall|s: u32|
                            s != 0 && #[trigger] row_holds(ks, p, row as int, col as int, s)
                                ==> map@.contains_key(s),
                    decreases per - col,
                {
                    let keysym = keysyms[offset + col];
                    let ghost before = map@;
                    assert(cell(ks, p, row as int, col as int) == keysym);
                    if keysym != 0 && !map.contains_key(&keysym) {
                        map.insert(keysym, keycode);
                        assert(row_holds(ks, p, row as int, col + 1, keysym));
                    }
                    proof {
                        assert forall|s: u32| #[trigger] map@.contains_key(s) implies s != 0
                            && map@[s] >= min_keycode && (is_first_row(
                            ks,
                            p,
                            row as int,
                            map@[s] - min_keycode,
                            s,
                        ) || (map@[s] - min_keycode == row && row_holds(
                            ks,
                            p,
                            row as int,
                            col + 1,
                            s,
                        ) && forall|r: int| 0 <= r < row ==> !#[trigger] row_holds(ks, p, r, p, s))) by {
                            if before.contains_key(s) {
                                assert(map@[s] == before[s]);
                                if !is_first_row(ks, p, row as int, before[s] - min_keycode, s) {
                                    let c = choose|c: int|
                                        0 <= c < col && c < p && #[trigger] cell(
                                            ks,
                                            p,
                                            row as int,
                                            c,
                                        ) == s;
                                    assert(0 <= c < col + 1 && cell(ks, p, row as int, c) == s);
                                }
                            } else {
                                assert(s == keysym);
                            }
                        }
                        assert forall|s: u32|
                            s != 0 && #[trigger] row_holds(
                                ks,
                                p,
                                row as int,
                                col + 1,
                                s,
                            ) implies map@.contains_key(s) by {
                            let c = choose|c: int|
                                0 <= c < col + 1 && c < p && #[trigger] cell(ks, p, row as int, c)
                                    == s;
                            if c < col {
                                assert(row_holds(ks, p, row as int, col as int, s));
                            } else {
                                assert(s == keysym);
                            }
                        }
                    }
                    col = col + 1;
                }
                proof {
                    assert forall|s: u32| #[trigger] map@.contains_key(s) implies is_first_row(
                        ks,
                        p,
                        row + 1,
                        map@[s] - min_keycode,
                        s,
                    ) by {}
                    assert forall|s: u32, r: int|
                        s != 0 && 0 <= r < row + 1 && #[trigger] row_holds(
                            ks,
                            p,
                            r,
                            p,
                            s,
                        ) implies map@.contains_key(s) by {}
                }
            } else {
                proof {
                    assert(!row_is_whole(ks, p, row as int));
                    assert forall|s: u32| #[trigger] map@.contains_key(s) implies is_first_row(
                        ks,
                        p,
                        row + 1,
                        map@[s] - min_keycode,
                        s,
                    ) by {}
                }
            }
            row = row + 1;
        }
        KeySymConverter { keysym_map: map }
    }

    /// The key code on which `keysym` lies, if the converter knows the
    /// symbol.
    pub fn keysym_to_keycode(&self, keysym: u32) -> (r: Option<Keycode>)
        ensures
            r == if self.table().contains_key(keysym) {
                Some(self.table()[keysym])
            } else {
                None
            },
    {
        match self.keysym_map.get(&keysym) {
            Some(k) => Some(*k),
            None => None,
        }
    }
}

/// The grabs of one binding: the key with its modifiers, and, unless the
/// modifiers hold the num-lock bit already, the same key with that bit
/// added, so that the binding works with num lock on. The server may refuse
/// the second grab.
pub open spec fn grab_commands(keycode: Keycode, modifiers: u16) -> Seq<Command> {
    if modifiers & MOD_2 == MOD_2 {
        seq![Command::GrabKey { keycode, modifiers, must_succeed: true }]
    } else {
        seq![
            Command::GrabKey { keycode, modifiers, must_succeed: true },
            Command::GrabKey { keycode, modifiers: modifiers | MOD_2, must_succeed: false },
        ]
    }
}

/// Grabs keys on the root window of a screen.
pub struct KeyboardGrabber {
    root: Window,
    converter: KeySymConverter,
}

impl KeyboardGrabber {
    /// The root window on which the keys are grabbed.
    pub closed spec fn root_window(&self) -> Window {
        self.root
    }

    /// The key code of each key symbol of the keyboard.
    pub closed spec fn table(&self) -> Map<u32, Keycode> {
        self.converter.table()
    }

    /// A grabber for the root window `root` and the keyboard that
    /// `converter` knows.
    pub fn new(root: Window, converter: KeySymConverter) -> (g: Self)
        ensures
            g.root_window() == root,
            g.table() == converter.table(),
    {
        KeyboardGrabber { root, converter }
    }

    /// The commands that grab `keycode` with `modifiers`.
    pub fn grab_key(&self, keycode: Keycode, modifiers: u16) -> (cmds: Vec<Command>)
        ensures
            cmds@ == grab_commands(keycode, modifiers),
    {
        let mut cmds: Vec<Command> = Vec::new();
        cmds.push(Command::GrabKey { keycode, modifiers, must_succeed: true });
        if modifiers & MOD_2 != MOD_2 {
            cmds.push(
                Command::GrabKey { keycode, modifiers: modifiers | MOD_2, must_succeed: false },
            );
        }
        cmds
    }

    /// The command that releases every grab.
    pub fn ungrab_all_keys(&self) -> (cmd: Command)
        ensures
            cmd == Command::UngrabAllKeys,
    {
        Command::UngrabAllKeys
    }

    /// The key code on which `keysym` lies, if the keyboard has the symbol.
    pub fn keysym_to_keycode(&self, keysym: u32) -> (r: Option<Keycode>)
        ensures
            r == if self.table().contains_key(keysym) {
                Some(self.table()[keysym])
            } else {
                None
            },
    {
        self.converter.keysym_to_keycode(keysym)
    }
}

/// The modifier bits under which a key press is looked up: the bits as the
/// server reported them.
pub fn normalize_modifiers(modifiers: u16) -> (r: u16)
    ensures
        r == modifiers,
{
    modifiers
}

} // verus!

use dxwm::atoms::{atom_names, Atoms, ATOM_TYPE};
use dxwm::config::config::{launch_dmenu, BORDER_FOCUSED, BORDER_UNFOCUSED, BORDER_WIDTH, LAUNCHER_APP};
use dxwm::config::keybinds::{layout_alert_text, report_plan, report_text};
use dxwm::keybindings::Report;
use dxwm::layout::LayoutType;
use dxwm::utils::{
    battery_alert_text, color_string, date_alert_text, decimal_string, dedup_preserve_order,
    get_volume, is_muted, is_whitespace, mic_alert_text, mode_alert_text, numbered_text, trim,
    volume_alert_text, XK_1, XK_AUDIO_MUTE, XK_RETURN,
};

#[test]
fn decimal_strings() {
    assert_eq!(decimal_string(0), "0");
    assert_eq!(decimal_string(7), "7");
    assert_eq!(decimal_string(10), "10");
    assert_eq!(decimal_string(99), "99");
    assert_eq!(decimal_string(100), "100");
    assert_eq!(decimal_string(109), "109");
    assert_eq!(decimal_string(255), "255");
    for n in 0..=255u8 {
        assert_eq!(decimal_string(n), format!("{}", n));
    }
}

#[test]
fn trim_removes_surrounding_white_space() {
    assert_eq!(trim("  42\n"), "42");
    assert_eq!(trim("42"), "42");
    assert_eq!(trim(""), "");
    assert_eq!(trim(" \t\r\n"), "");
    assert_eq!(trim("\u{a0}a b\u{3000}"), "a b");
    assert_eq!(trim(" é "), "é");
    for s in ["", " ", "a", " a", "a ", "\n a \t b \r\n", "\u{2003}x\u{85}", "\u{200b}x"] {
        assert_eq!(trim(s), s.trim());
    }
}

#[test]
fn white_space_characters() {
    for c in [' ', '\t', '\n', '\u{b}', '\u{c}', '\r', '\u{85}', '\u{a0}', '\u{1680}', '\u{2000}',
        '\u{200a}', '\u{2028}', '\u{2029}', '\u{202f}', '\u{205f}', '\u{3000}']
    {
        assert!(is_whitespace(c));
    }
    for c in ['a', '0', '\u{8}', '\u{e}', '\u{200b}', '\u{feff}', '_'] {
        assert!(!is_whitespace(c));
    }
    for v in 0..0x3100u32 {
        if let Some(c) = char::from_u32(v) {
            assert_eq!(is_whitespace(c), c.is_whitespace());
        }
    }
}

#[test]
fn volume_is_trimmed_output() {
    assert_eq!(get_volume("55\n"), "55");
    assert_eq!(get_volume("  100  "), "100");
    assert_eq!(get_volume(""), "");
}

#[test]
fn muted_only_when_output_is_true() {
    assert!(is_muted("true"));
    assert!(is_muted("true\n"));
    assert!(is_muted("  true "));
    assert!(!is_muted("false\n"));
    assert!(!is_muted("True"));
    assert!(!is_muted(""));
    assert!(!is_muted("true false"));
}

#[test]
fn dedup_keeps_first_occurrences_in_order() {
    assert_eq!(dedup_preserve_order(vec![3, 1, 3, 2, 1, 4]), vec![3, 1, 2, 4]);
    assert_eq!(dedup_preserve_order(Vec::<u32>::new()), Vec::<u32>::new());
    assert_eq!(dedup_preserve_order(vec![5, 5, 5]), vec![5]);
    assert_eq!(dedup_preserve_order(vec![1, 2, 3]), vec![1, 2, 3]);
    assert_eq!(
        dedup_preserve_order(vec![String::from("b"), String::from("a"), String::from("b")]),
        vec![String::from("b"), String::from("a")]
    );
}

#[test]
fn mode_text_is_upper_case() {
    assert_eq!(mode_alert_text("nav"), "[MODE] NAV");
    assert_eq!(mode_alert_text("Apps1-é"), "[MODE] APPS1-é");
    assert_eq!(mode_alert_text(""), "[MODE] ");
}

#[test]
fn numbered_texts() {
    assert_eq!(numbered_text("[WS] ", 3), "[WS] 3");
    assert_eq!(numbered_text("[MVWS] ", 12), "[MVWS] 12");
}

#[test]
fn volume_text() {
    assert_eq!(volume_alert_text("40\n", "false\n"), "[VOL] 40%");
    assert_eq!(volume_alert_text(" 0 ", "true\n"), "[MUTED] 0%");
}

#[test]
fn mic_text() {
    assert_eq!(mic_alert_text("true\n"), "[MIC] MUTED");
    assert_eq!(mic_alert_text("false\n"), "[MIC] LIVE");
    assert_eq!(mic_alert_text(""), "[MIC] LIVE");
}

#[test]
fn battery_text() {
    assert_eq!(battery_alert_text("80\n", "Charging\n"), "[CHR] 80%");
    assert_eq!(battery_alert_text("79\n", "Discharging\n"), "[BAT] 79%");
    assert_eq!(battery_alert_text("100\n", "Full\n"), "[FULL] 100%");
    assert_eq!(battery_alert_text("12", "Not charging"), "[UNK] 12%");
}

#[test]
fn date_text() {
    assert_eq!(date_alert_text("Mon 01 Jan 10:00\n"), "[DATE] Mon 01 Jan 10:00");
}

#[test]
fn layout_text() {
    assert_eq!(layout_alert_text(LayoutType::MasterStack), "[LAY] MasterStack");
    assert_eq!(layout_alert_text(LayoutType::Monocle), "[LAY] Monocle");
    assert_eq!(layout_alert_text(LayoutType::Floating), "[LAY] Floating");
    assert_eq!(layout_alert_text(LayoutType::Grid), "[LAY] Grid");
}

#[test]
fn colors_as_hex() {
    assert_eq!(color_string(0x222222), "#222222");
    assert_eq!(color_string(0xD7D5D1), "#d7d5d1");
    assert_eq!(color_string(0), "#000000");
    assert_eq!(color_string(0xabc), "#000abc");
    assert_eq!(color_string(0xffffff), "#ffffff");
    assert_eq!(color_string(0x10000f), "#10000f");
}

#[test]
fn launcher_arguments() {
    assert_eq!(LAUNCHER_APP, "dmenu_run");
    assert_eq!(
        launch_dmenu(),
        vec![
            "-fn",
            "Iosevka Nerd Font:size=12",
            "-nb",
            "#222222",
            "-nf",
            "#d7d5d1",
            "-sb",
            "#444444"
        ]
    );
}

#[test]
fn border_configuration() {
    assert_eq!(BORDER_WIDTH, 1);
    assert_eq!(BORDER_FOCUSED, 0xBBBBBB);
    assert_eq!(BORDER_UNFOCUSED, 0x444444);
}

#[test]
fn key_symbols() {
    assert_eq!(XK_1, 0x31);
    assert_eq!(XK_RETURN, 0xff0d);
    assert_eq!(XK_AUDIO_MUTE, 0x1008ff12);
}

#[test]
fn atoms_in_field_order() {
    assert_eq!(
        atom_names(),
        vec![
            "WM_PROTOCOLS",
            "WM_DELETE_WINDOW",
            "WM_STATE",
            "WM_TAKE_FOCUS",
            "_NET_WM_STATE",
            "_NET_WM_STATE_FULLSCREEN",
            "_NET_ACTIVE_WINDOW"
        ]
    );
    let a = Atoms::new(1, 2, 3, 4, 5, 6, 7);
    assert_eq!(a.wm_protocols, 1);
    assert_eq!(a.wm_delete_window, 2);
    assert_eq!(a.wm_state, 3);
    assert_eq!(a.wm_take_focus, 4);
    assert_eq!(a.net_wm_state, 5);
    assert_eq!(a.net_wm_state_fullscreen, 6);
    assert_eq!(a.net_active_window, 7);
    assert_eq!(ATOM_TYPE, 4);
}

#[test]
fn report_plans() {
    let up = report_plan(Report::VolumeUp);
    assert_eq!(up.run, vec!["pactl set-sink-volume @DEFAULT_SINK@ +10%"]);
    assert_eq!(up.ask, vec!["pamixer --get-volume", "pamixer --get-mute"]);
    assert!(!up.detached);
    let down = report_plan(Report::VolumeDown);
    assert_eq!(down.run, vec!["pactl set-sink-volume @DEFAULT_SINK@ -10%"]);
    let mute = report_plan(Report::VolumeMute);
    assert_eq!(mute.run, vec!["pamixer --toggle-mute"]);
    assert_eq!(mute.ask, vec!["pamixer --get-volume", "pamixer --get-mute"]);
    let mic = report_plan(Report::MicMute);
    assert_eq!(mic.run, vec!["pamixer --default-source --toggle-mute"]);
    assert_eq!(mic.ask, vec!["pamixer --default-source --get-mute"]);
    let full = report_plan(Report::ScreenshotFull);
    assert_eq!(full.run, vec!["maim | xclip -selection clipboard -t image/png -i"]);
    assert!(full.ask.is_empty());
    let area = report_plan(Report::ScreenshotArea);
    assert_eq!(area.run, vec!["maim -s | xclip -selection clipboard -t image/png -i"]);
    let editor = report_plan(Report::Editor);
    assert_eq!(editor.run, vec!["emacsclient -c"]);
    assert!(editor.detached);
    let launcher = report_plan(Report::Launcher);
    assert!(launcher.run.is_empty() && launcher.ask.is_empty() && !launcher.detached);
    let battery = report_plan(Report::Battery);
    assert_eq!(
        battery.ask,
        vec!["cat /sys/class/power_supply/BAT0/capacity", "cat /sys/class/power_supply/BAT0/status"]
    );
    assert_eq!(report_plan(Report::Volume).ask, vec!["pamixer --get-volume", "pamixer --get-mute"]);
    assert!(report_plan(Report::Volume).run.is_empty());
    assert_eq!(report_plan(Report::Date).ask, vec!["date '+%a %d %b %H:%M'"]);
}

#[test]
fn report_texts() {
    let answers = vec![String::from("30\n"), String::from("true\n")];
    assert_eq!(report_text(Report::VolumeUp, &answers), Some(String::from("[MUTED] 30%")));
    assert_eq!(report_text(Report::Volume, &answers), Some(String::from("[MUTED] 30%")));
    let answers = vec![String::from("30\n"), String::from("false\n")];
    assert_eq!(report_text(Report::VolumeDown, &answers), Some(String::from("[VOL] 30%")));
    assert_eq!(report_text(Report::VolumeMute, &answers), Some(String::from("[VOL] 30%")));
    assert_eq!(
        report_text(Report::MicMute, &vec![String::from("true")]),
        Some(String::from("[MIC] MUTED"))
    );
    assert_eq!(report_text(Report::MicMute, &vec![]), Some(String::from("[MIC] LIVE")));
    assert_eq!(report_text(Report::ScreenshotFull, &vec![]), Some(String::from("[SCR] FULL")));
    assert_eq!(report_text(Report::ScreenshotArea, &vec![]), Some(String::from("[SCR] AREA")));
    assert_eq!(report_text(Report::Editor, &vec![]), Some(String::from("[EMACS] SPAWN")));
    assert_eq!(report_text(Report::Launcher, &vec![]), None);
    assert_eq!(
        report_text(Report::Battery, &vec![String::from("55\n"), String::from("Discharging\n")]),
        Some(String::from("[BAT] 55%"))
    );
    assert_eq!(report_text(Report::Battery, &vec![]), Some(String::from("[UNK] %")));
    assert_eq!(
        report_text(Report::Date, &vec![String::from("Tue 02 Feb 08:30\n")]),
        Some(String::from("[DATE] Tue 02 Feb 08:30"))
    );
}

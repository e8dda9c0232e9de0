//! Borders, colours and the programs that keys start.

use vstd::prelude::*;
use vstd::string::StringExecFns;
use crate::utils::{color_string, hex_digits};

verus! {

pub const BORDER_WIDTH: u32 = 1;

pub const MARGIN: u32 = 5;

pub const BACKGROUND: u32 = 0x222222;

pub const FOREGROUND: u32 = 0xD7D5D1;

pub const BORDER_FOCUSED: u32 = 0xBBBBBB;

pub const BORDER_UNFOCUSED: u32 = 0x444444;

pub const FONT_NAME: &'static str = "Iosevka Nerd Font";

pub const SELECTED: u32 = 0x444444;

pub const TERMINAL_APP: &'static str = "alacritty";

pub const FILEMANAGER_APP: &'static str = "pcmanfm";

pub const EDITOR_APP: &'static str = "emacs";

pub const BROWSER_APP: &'static str = "qutebrowser";

/// The program that lets the user pick a command to start.
pub const LAUNCHER_APP: &'static str = "dmenu_run";

/// The arguments with which the launcher is started: its font, then its
/// normal background, normal foreground and selection background, each
/// colour as a hash sign and six hexadecimal digits.
pub fn launch_dmenu() -> (args: Vec<String>)
    ensures
        args@.len() == 8,
        args@[0]@ == "-fn"@,
        args@[1]@ == FONT_NAME@ + ":size=12"@,
        args@[2]@ == "-nb"@,
        args@[3]@ == "#"@ + hex_digits(BACKGROUND as nat, 6),
        args@[4]@ == "-nf"@,
        args@[5]@ == "#"@ + hex_digits(FOREGROUND as nat, 6),
        args@[6]@ == "-sb"@,
        args@[7]@ == "#"@ + hex_digits(SELECTED as nat, 6),
{
    let mut args: Vec<String> = Vec::new();
    args.push(String::from_str("-fn"));
    args.push(String::from_str(FONT_NAME).concat(":size=12"));
    args.push(String::from_str("-nb"));
    args.push(color_string(BACKGROUND));
    args.push(String::from_str("-nf"));
    args.push(color_string(FOREGROUND));
    args.push(String::from_str("-sb"));
    args.push(color_string(SELECTED));
    args
}

} // verus!

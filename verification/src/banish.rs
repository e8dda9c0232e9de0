//! Sending the pointer out of the way.

use vstd::prelude::*;
use crate::commands::Command;
use crate::geometry::{clamp_coord, to_coord};
use crate::wm::WindowManager;

verus! {

impl WindowManager {
    /// Moves the pointer to the bottom right corner of the screen.
    pub fn banish(&self) -> (cmds: Vec<Command>)
        ensures
            cmds@ == seq![
                Command::WarpPointer {
                    x: clamp_coord(self.screen_width as int),
                    y: clamp_coord(self.screen_height as int),
                },
                Command::Flush,
            ],
    {
        let mut cmds: Vec<Command> = Vec::new();
        cmds.push(
            Command::WarpPointer {
                x: to_coord(self.screen_width as i128),
                y: to_coord(self.screen_height as i128),
            },
        );
        cmds.push(Command::Flush);
        cmds
    }
}

} // verus!

//! The window manager's state and the dispatcher that turns each
//! notification of the display server into a change of that state and a
//! list of commands.

use vstd::prelude::*;
use crate::alerts::Alert;
use crate::atoms::Atoms;
use crate::config::config::{BORDER_FOCUSED, BORDER_UNFOCUSED, BORDER_WIDTH};
use crate::geometry::{Rect, Window};
use crate::keybindings::KeyBindingManager;
use crate::alerts::AlertSeed;
use crate::commands::{Command, Event};
use crate::config::keybinds::{Effect, Outcome, Request};
use crate::layout::layout_commands;
use crate::workspaces::{WorkspaceManager, WorkspaceManagerView, WorkspaceView};

verus! {

/// Number of workspaces that the manager starts with.
pub const WORKSPACE_COUNT: u8 = 9;

/// Everything the manager knows: the screen it manages, how it draws
/// borders, the key bindings, the overlays on display, the workspaces and
/// the interned atoms.
pub struct WindowManager {
    pub screen_num: usize,
    /// Width of the screen in pixels.
    pub screen_width: u16,
    /// Height of the screen in pixels.
    pub screen_height: u16,
    pub root: Window,
    pub border_width: u32,
    pub border_focused_color: u32,
    pub border_unfocused_color: u32,
    pub keybindings: KeyBindingManager,
    pub alerts: Vec<Alert>,
    pub workspaces: WorkspaceManager,
    pub atoms: Atoms,
}

/// What one operation of the manager comes to: the workspaces as it leaves
/// them and the commands it issues, in order.
pub struct Step {
    pub workspaces: WorkspaceManagerView,
    pub commands: Seq<Command>,
}

impl Step {
    /// The step with `first` issued before its own commands.
    pub open spec fn preceded_by(self, first: Seq<Command>) -> Step {
        Step { commands: first + self.commands, ..self }
    }

    /// The step with `last` issued after its own commands.
    pub open spec fn followed_by(self, last: Seq<Command>) -> Step {
        Step { commands: self.commands + last, ..self }
    }
}

impl WindowManager {
    /// The step that changes nothing and issues nothing.
    pub open spec fn idle(&self) -> Step {
        Step { workspaces: self.workspaces@, commands: Seq::empty() }
    }

    /// The step that puts `ws` in the place of the workspace on display and
    /// recomputes its layout.
    pub open spec fn relaid(&self, ws: WorkspaceView) -> Step {
        Step {
            workspaces: self.workspaces@.with_current(ws.relayout(self.screen())),
            commands: layout_commands(ws, self.screen(), self.alerts@),
        }
    }

    /// The step that puts `ws` in the place of the workspace on display and
    /// issues nothing.
    pub open spec fn replaced(&self, ws: WorkspaceView) -> Step {
        Step { workspaces: self.workspaces@.with_current(ws), commands: Seq::empty() }
    }

    /// The invariant of the manager: that of its workspace store and that
    /// of its key bindings.
    pub open spec fn wf(&self) -> bool {
        self.workspaces.wf() && self.keybindings.wf()
    }

    /// The rectangle of the whole screen.
    pub open spec fn screen(&self) -> Rect {
        Rect { x: 0, y: 0, width: self.screen_width, height: self.screen_height }
    }

    /// The picture of the workspace on display.
    pub open spec fn current(&self) -> WorkspaceView {
        self.workspaces@.current_workspace()
    }

    /// `other` differs from `self` in the workspaces at most.
    pub open spec fn same_but_workspaces(&self, other: &WindowManager) -> bool {
        &&& self.screen_num == other.screen_num
        &&& self.screen_width == other.screen_width
        &&& self.screen_height == other.screen_height
        &&& self.root == other.root
        &&& self.border_width == other.border_width
        &&& self.border_focused_color == other.border_focused_color
        &&& self.border_unfocused_color == other.border_unfocused_color
        &&& self.keybindings == other.keybindings
        &&& self.alerts == other.alerts
        &&& self.atoms == other.atoms
    }

    /// `other` differs from `self` in the key bindings at most.
    pub open spec fn same_but_keybindings(&self, other: &WindowManager) -> bool {
        &&& self.screen_num == other.screen_num
        &&& self.screen_width == other.screen_width
        &&& self.screen_height == other.screen_height
        &&& self.root == other.root
        &&& self.border_width == other.border_width
        &&& self.border_focused_color == other.border_focused_color
        &&& self.border_unfocused_color == other.border_unfocused_color
        &&& self.alerts == other.alerts
        &&& self.workspaces == other.workspaces
        &&& self.atoms == other.atoms
    }

    /// `other` differs from `self` in the overlays at most.
    pub open spec fn same_but_alerts(&self, other: &WindowManager) -> bool {
        &&& self.screen_num == other.screen_num
        &&& self.screen_width == other.screen_width
        &&& self.screen_height == other.screen_height
        &&& self.root == other.root
        &&& self.border_width == other.border_width
        &&& self.border_focused_color == other.border_focused_color
        &&& self.border_unfocused_color == other.border_unfocused_color
        &&& self.keybindings == other.keybindings
        &&& self.workspaces == other.workspaces
        &&& self.atoms == other.atoms
    }

    /// A manager for the screen number `screen_num` of the given size under
    /// the root window `root`: nine empty workspaces with the first on
    /// display, no key bindings, no overlays, and the borders of the
    /// configuration.
    pub fn new(screen_num: usize, root: Window, screen_width: u16, screen_height: u16, atoms: Atoms) -> (wm:
        Self)
        ensures
            wm.wf(),
            wm.screen_num == screen_num,
            wm.root == root,
            wm.screen_width == screen_width,
            wm.screen_height == screen_height,
            wm.atoms == atoms,
            wm.border_width == BORDER_WIDTH,
            wm.border_focused_color == BORDER_FOCUSED,
            wm.border_unfocused_color == BORDER_UNFOCUSED,
            wm.alerts@.len() == 0,
            wm.keybindings.normal_bindings@.len() == 0,
            wm.keybindings.submaps@.len() == 0,
            wm.keybindings.current_mode is None,
            wm.workspaces@.workspaces == Seq::new(
                WORKSPACE_COUNT as nat,
                |i: int| crate::workspaces::fresh_workspace((i + 1) as u8),
            ),
            wm.workspaces@.current == 1,
            wm.workspaces@.last == 1,
    {
        WindowManager {
            screen_num,
            screen_width,
            screen_height,
            root,
            border_width: BORDER_WIDTH,
            border_focused_color: BORDER_FOCUSED,
            border_unfocused_color: BORDER_UNFOCUSED,
            keybindings: KeyBindingManager::new(),
            alerts: Vec::new(),
            workspaces: WorkspaceManager::new(WORKSPACE_COUNT),
            atoms,
        }
    }

    /// The rectangle of the whole screen.
    pub fn screen_rect(&self) -> (r: Rect)
        ensures
            r == self.screen(),
    {
        Rect { x: 0, y: 0, width: self.screen_width, height: self.screen_height }
    }
}

impl WindowManager {
    /// What the notification `event` comes to. A request to be shown puts
    /// the window under management; a window hidden or destroyed is let go
    /// of; a window that the pointer enters gets the focus; an overlay that
    /// has to be drawn again is; a request to change a window's state goes
    /// to the fullscreen state machine; a key press goes to the bindings; and
    /// everything else is passed over.
    pub open spec fn event_effect(&self, event: Event, seed: AlertSeed) -> Effect {
        match event {
            Event::KeyPress { keycode, state } => self.key_press_effect(keycode, state, seed),
            Event::MapRequest { window, state } => self.quiet(
                self.manage_client_step(window, state@),
            ),
            Event::UnmapNotify { window } => self.quiet(self.unmanage_client_step(window)),
            Event::DestroyNotify { window } => self.quiet(self.unmanage_client_step(window)),
            Event::EnterNotify { window } => self.quiet(self.focus_on_enter_step(window)),
            Event::Expose { window, count } => self.quiet(
                Step { commands: self.expose_commands(window, count), ..self.idle() },
            ),
            Event::ClientMessage { window, kind, action, first, second } => if kind
                == self.atoms.net_wm_state {
                self.quiet(self.state_request_step(window, action, first, second))
            } else {
                self.quiet(self.idle())
            },
            Event::Other => self.quiet(self.idle()),
        }
    }

    /// Takes one notification of the display server through the manager and
    /// answers with what has to be sent back. `seed` is used if an overlay is
    /// drawn.
    pub fn run(&mut self, event: Event, seed: AlertSeed) -> (out: Outcome)
        requires
            old(self).wf(),
        ensures
            old(self).has_effect(final(self), &out, old(self).event_effect(event, seed)),
            final(self).wf(),
    {
        match event {
            Event::KeyPress { keycode, state } => self.handle_key_press(keycode, state, seed),
            Event::MapRequest { window, state } => Outcome {
                commands: self.manage_client(window, &state),
                request: Request::Nothing,
            },
            Event::UnmapNotify { window } => Outcome {
                commands: self.unmanage_client(window),
                request: Request::Nothing,
            },
            Event::DestroyNotify { window } => Outcome {
                commands: self.unmanage_client(window),
                request: Request::Nothing,
            },
            Event::EnterNotify { window } => Outcome {
                commands: self.focus_on_enter(window),
                request: Request::Nothing,
            },
            Event::Expose { window, count } => Outcome {
                commands: self.expose(window, count),
                request: Request::Nothing,
            },
            Event::ClientMessage { window, kind, action, first, second } => {
                if kind == self.atoms.net_wm_state {
                    Outcome {
                        commands: self.handle_state_request(window, action, first, second),
                        request: Request::Nothing,
                    }
                } else {
                    Outcome { commands: Vec::new(), request: Request::Nothing }
                }
            },
            Event::Other => Outcome { commands: Vec::new(), request: Request::Nothing },
        }
    }
}

} // verus!

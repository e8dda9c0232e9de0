//! What happens when a key is pressed: the action bound to it is looked up
//! and carried out.

use vstd::prelude::*;
use vstd::string::StringExecFns;
use crate::alerts::{alerts_view, clear_commands, AlertSeed, AlertView};
use crate::commands::{extend, Command, Keycode};
use crate::geometry::{clamp_coord, Window};
use crate::config::config::{FILEMANAGER_APP, TERMINAL_APP};
use crate::keybindings::{
    bindings_view, find_binding, KeyAction, KeyActionView, KeyBinding, KeyBindingManager,
    KeyBindingView, Report, SubMap,
};
use crate::keyboard::{KeyboardGrabber, MOD_4, MOD_SHIFT};
use crate::keyboard::normalize_modifiers;
use crate::layout::LayoutType;
use crate::utils::{
    ascii_upper, battery_alert_text, battery_label, date_alert_text, decimal, mic_alert_text,
    mode_alert_text, numbered_text, trimmed, volume_alert_text, XK_1, XK_2, XK_3, XK_4, XK_5, XK_6, XK_7,
    XK_8, XK_9, XK_A, XK_AUDIO_LOWER_VOL, XK_AUDIO_MIC_MUTE, XK_AUDIO_MUTE, XK_AUDIO_RAISE_VOL,
    XK_B, XK_C, XK_D, XK_E, XK_EQUAL, XK_ESCAPE, XK_F, XK_G, XK_H, XK_I, XK_J, XK_K, XK_L,
    XK_MINUS, XK_N, XK_PRINT, XK_RETURN, XK_S, XK_SPACE, XK_T, XK_TAB, XK_V,
};
use crate::wm::{Step, WindowManager};
use crate::workspaces::WorkspaceManagerView;

verus! {

/// What the manager asks of the process around it, which alone can start
/// programs, end itself and look things up on the system.
#[derive(Debug)]
pub enum Request {
    /// Nothing.
    Nothing,
    /// Start the shell command.
    Spawn(String),
    /// End the manager.
    Quit,
    /// Gather what the report needs and show it.
    Report(Report),
    /// Find out whether the window takes part in the close protocol, and
    /// close it accordingly.
    Close(Window),
}

/// The mathematical picture of a [`Request`].
pub enum RequestView {
    Nothing,
    Spawn(Seq<char>),
    Quit,
    Report(Report),
    Close(Window),
}

impl View for Request {
    type V = RequestView;

    open spec fn view(&self) -> RequestView {
        match self {
            Request::Nothing => RequestView::Nothing,
            Request::Spawn(s) => RequestView::Spawn(s@),
            Request::Quit => RequestView::Quit,
            Request::Report(r) => RequestView::Report(*r),
            Request::Close(w) => RequestView::Close(*w),
        }
    }
}

/// What handling a key press or a notification comes to for the outside:
/// the commands for the display server, in order, and the request to the
/// process.
#[derive(Debug)]
pub struct Outcome {
    pub commands: Vec<Command>,
    pub request: Request,
}

/// Everything that handling a key press can change or ask for.
pub struct Effect {
    pub workspaces: WorkspaceManagerView,
    pub alerts: Seq<AlertView>,
    pub keybindings: KeyBindingManager,
    pub commands: Seq<Command>,
    pub request: RequestView,
}

/// The name under which a layout policy is shown to the user.
pub open spec fn layout_name(kind: LayoutType) -> Seq<char> {
    match kind {
        LayoutType::MasterStack => "[LAY] MasterStack"@,
        LayoutType::Monocle => "[LAY] Monocle"@,
        LayoutType::Floating => "[LAY] Floating"@,
        LayoutType::Grid => "[LAY] Grid"@,
    }
}

/// The text that tells the user which layout policy is in force.
pub fn layout_alert_text(kind: LayoutType) -> (r: String)
    ensures
        r@ == layout_name(kind),
{
    match kind {
        LayoutType::MasterStack => String::from_str("[LAY] MasterStack"),
        LayoutType::Monocle => String::from_str("[LAY] Monocle"),
        LayoutType::Floating => String::from_str("[LAY] Floating"),
        LayoutType::Grid => String::from_str("[LAY] Grid"),
    }
}

impl WindowManager {
    /// The effect of a step that touches neither overlays nor bindings and
    /// asks nothing of the process.
    pub open spec fn quiet(&self, step: Step) -> Effect {
        Effect {
            workspaces: step.workspaces,
            alerts: alerts_view(self.alerts@),
            keybindings: self.keybindings,
            commands: step.commands,
            request: RequestView::Nothing,
        }
    }

    /// The effect of a step after which `text` is shown in a new overlay.
    pub open spec fn announced(&self, step: Step, text: Seq<char>, seed: AlertSeed) -> Effect {
        Effect {
            workspaces: step.workspaces,
            alerts: seq![
                AlertView {
                    window: seed.window,
                    gc: seed.gc,
                    message: text,
                    created_at: seed.now,
                },
            ],
            keybindings: self.keybindings,
            commands: step.commands + self.draw_commands(seed),
            request: RequestView::Nothing,
        }
    }

    /// The effect of only asking `request` of the process.
    pub open spec fn asking(&self, request: RequestView) -> Effect {
        Effect { request, ..self.quiet(self.idle()) }
    }

    /// `e` with the bindings replaced by `keybindings` and the key grabs
    /// brought in line with them.
    pub open spec fn regrabbed(e: Effect, keybindings: KeyBindingManager) -> Effect {
        Effect { keybindings, commands: e.commands + keybindings.grabs(), ..e }
    }

    /// `after` and `out` are what `e` says, and nothing else of the manager
    /// has changed.
    pub open spec fn has_effect(&self, after: &WindowManager, out: &Outcome, e: Effect) -> bool {
        &&& after.workspaces@ == e.workspaces
        &&& alerts_view(after.alerts@) == e.alerts
        &&& after.keybindings == e.keybindings
        &&& out.commands@ == e.commands
        &&& out.request@ == e.request
        &&& after.screen_num == self.screen_num
        &&& after.screen_width == self.screen_width
        &&& after.screen_height == self.screen_height
        &&& after.root == self.root
        &&& after.border_width == self.border_width
        &&& after.border_focused_color == self.border_focused_color
        &&& after.border_unfocused_color == self.border_unfocused_color
        &&& after.atoms == self.atoms
    }

    /// The step of `banish`.
    pub open spec fn banish_step(&self) -> Step {
        Step {
            workspaces: self.workspaces@,
            commands: seq![
                Command::WarpPointer {
                    x: clamp_coord(self.screen_width as int),
                    y: clamp_coord(self.screen_height as int),
                },
                Command::Flush,
            ],
        }
    }

    /// What carrying out `action` comes to.
    pub open spec fn action_effect(&self, action: KeyAction, seed: AlertSeed) -> Effect {
        match action {
            KeyAction::Spawn(cmd) => self.asking(RequestView::Spawn(cmd@)),
            KeyAction::EnterMode(mode) => Self::regrabbed(
                self.announced(self.idle(), "[MODE] "@ + ascii_upper(mode@), seed),
                self.keybindings.entered(mode),
            ),
            KeyAction::ExitMode => Self::regrabbed(
                self.announced(self.idle(), "[MODE] NORMAL"@, seed),
                self.keybindings.exited(),
            ),
            KeyAction::CloseWindow => match self.current().focused {
                Some(w) => self.asking(RequestView::Close(w)),
                None => self.quiet(self.idle()),
            },
            KeyAction::FocusNext => self.quiet(self.focus_next_step()),
            KeyAction::FocusPrev => self.quiet(self.focus_prev_step()),
            KeyAction::Quit => self.asking(RequestView::Quit),
            KeyAction::SwitchWorkspace(index) => if self.workspaces@.can_switch_to(index) {
                self.announced(self.switch_step(index), "[WS] "@ + decimal(index as nat), seed)
            } else {
                self.quiet(self.idle())
            },
            KeyAction::MoveToWorkspace(index) => if self.can_move_focused(index) {
                self.announced(
                    self.move_focused_step(index),
                    "[MVWS] "@ + decimal(index as nat),
                    seed,
                )
            } else {
                self.quiet(self.idle())
            },
            KeyAction::NextLayout => self.announced(
                self.next_layout_step(),
                layout_name(self.current().layout.current.spec_next()),
                seed,
            ),
            KeyAction::AdjustMasterRatio(delta) => self.quiet(
                self.adjust_master_ratio_step(delta as int),
            ),
            KeyAction::AdjustNmaster(delta) => self.quiet(self.adjust_nmaster_step(delta as int)),
            KeyAction::AdjustGap(delta) => self.quiet(self.adjust_gap_step(delta as int)),
            KeyAction::PromoteToMaster => self.quiet(self.promote_step()),
            KeyAction::RotateStack => self.quiet(self.rotate_step()),
            KeyAction::CycleLastWorkspace => self.quiet(self.switch_step(self.workspaces@.last)),
            KeyAction::ToggleFullscreen => match self.current().focused {
                Some(w) => self.quiet(self.toggle_fullscreen_step(w)),
                None => self.quiet(self.idle()),
            },
            KeyAction::ClearAlerts => Effect {
                alerts: Seq::empty(),
                commands: clear_commands(self.alerts@),
                ..self.quiet(self.idle())
            },
            KeyAction::Banish => self.quiet(self.banish_step()),
            KeyAction::Report(report) => self.asking(RequestView::Report(report)),
        }
    }

    /// The focused window of the workspace on display can move to workspace
    /// `index`: there is a focused window, there is such a workspace, and it
    /// is not the one on display.
    pub open spec fn can_move_focused(&self, index: u8) -> bool {
        match self.current().focused {
            Some(w) => self.workspaces@.can_move(w, self.workspaces@.current, index),
            None => false,
        }
    }

    /// What a press of `keycode` with the modifier bits `state` comes to:
    /// the action bound to the key in the active mode is carried out, and a
    /// one-shot mode is left after any action but the one that leaves it
    /// anyway. A key without a binding ends a named mode with a complaint
    /// and does nothing in the normal mode.
    pub open spec fn key_press_effect(&self, keycode: Keycode, state: u16, seed: AlertSeed) -> Effect {
        match find_binding(self.keybindings.active(), keycode, state) {
            Some(i) => {
                let action = self.keybindings.active()[i].action;
                let e = self.action_effect(action, seed);
                if self.keybindings.is_oneshot() && !(action is ExitMode) {
                    Self::regrabbed(e, e.keybindings.exited())
                } else {
                    e
                }
            },
            None => if self.keybindings.current_mode is Some {
                Self::regrabbed(
                    self.announced(self.idle(), "[ERR] KEY"@, seed),
                    self.keybindings.exited(),
                )
            } else {
                self.quiet(self.idle())
            },
        }
    }

    /// Brings the key grabs in line with the bindings.
    pub fn update_grabs(&self) -> (cmds: Vec<Command>)
        ensures
            cmds@ == self.keybindings.grabs(),
    {
        self.keybindings.update_grabs()
    }

    /// Enters the mode named `mode` and tells the user.
    fn enter_mode_action(&mut self, mode: String, seed: AlertSeed) -> (out: Outcome)
        requires
            old(self).wf(),
        ensures
            old(self).has_effect(
                final(self),
                &out,
                old(self).action_effect(KeyAction::EnterMode(mode), seed),
            ),
            final(self).wf(),
    {
        let mut commands = self.draw_alert(mode_alert_text(mode.as_str()), seed);
        self.keybindings.enter_mode(mode);
        extend(&mut commands, self.update_grabs());
        Outcome { commands, request: Request::Nothing }
    }

    /// Goes back to the normal mode and tells the user.
    fn exit_mode_action(&mut self, seed: AlertSeed) -> (out: Outcome)
        requires
            old(self).wf(),
        ensures
            old(self).has_effect(final(self), &out, old(self).action_effect(KeyAction::ExitMode, seed)),
            final(self).wf(),
    {
        let mut commands = self.draw_alert(String::from_str("[MODE] NORMAL"), seed);
        self.keybindings.exit_mode();
        extend(&mut commands, self.update_grabs());
        Outcome { commands, request: Request::Nothing }
    }

    /// Switches to workspace `index` and, if that was a switch, tells the
    /// user.
    fn switch_action(&mut self, index: u8, seed: AlertSeed) -> (out: Outcome)
        requires
            old(self).wf(),
        ensures
            old(self).has_effect(
                final(self),
                &out,
                old(self).action_effect(KeyAction::SwitchWorkspace(index), seed),
            ),
            final(self).wf(),
    {
        let switches = index >= 1 && index as usize <= self.workspaces.count() && index
            != self.workspaces.current_workspace;
        let mut commands = self.switch_to_workspace(index);
        if switches {
            extend(&mut commands, self.draw_alert(numbered_text("[WS] ", index), seed));
        }
        Outcome { commands, request: Request::Nothing }
    }

    /// Moves the focused window to workspace `index` and, if it moved,
    /// tells the user.
    fn move_action(&mut self, index: u8, seed: AlertSeed) -> (out: Outcome)
        requires
            old(self).wf(),
        ensures
            old(self).has_effect(
                final(self),
                &out,
                old(self).action_effect(KeyAction::MoveToWorkspace(index), seed),
            ),
            final(self).wf(),
    {
        let moves = match self.focused_client() {
            Some(_w) => index >= 1 && index as usize <= self.workspaces.count() && index
                != self.workspaces.current_workspace,
            None => false,
        };
        assert(moves == old(self).can_move_focused(index));
        let mut commands = self.move_focused_to_workspace(index);
        if moves {
            extend(&mut commands, self.draw_alert(numbered_text("[MVWS] ", index), seed));
        }
        Outcome { commands, request: Request::Nothing }
    }

    /// Moves on to the next layout policy and tells the user which it is.
    fn next_layout_action(&mut self, seed: AlertSeed) -> (out: Outcome)
        requires
            old(self).wf(),
        ensures
            old(self).has_effect(final(self), &out, old(self).action_effect(KeyAction::NextLayout, seed)),
            final(self).wf(),
    {
        let kind = self.layout_config().current.next();
        let mut commands = self.next_layout();
        extend(&mut commands, self.draw_alert(layout_alert_text(kind), seed));
        Outcome { commands, request: Request::Nothing }
    }

    /// Carries out `action`. `seed` is used if an overlay is drawn.
    pub fn execute_action(&mut self, action: KeyAction, seed: AlertSeed) -> (out: Outcome)
        requires
            old(self).wf(),
        ensures
            old(self).has_effect(final(self), &out, old(self).action_effect(action, seed)),
            final(self).wf(),
    {
        match action {
            KeyAction::Spawn(cmd) => Outcome { commands: Vec::new(), request: Request::Spawn(cmd) },
            KeyAction::EnterMode(mode) => self.enter_mode_action(mode, seed),
            KeyAction::ExitMode => self.exit_mode_action(seed),
            KeyAction::CloseWindow => {
                match self.focused_client() {
                    Some(w) => Outcome { commands: Vec::new(), request: Request::Close(w) },
                    None => Outcome { commands: Vec::new(), request: Request::Nothing },
                }
            },
            KeyAction::FocusNext => Outcome { commands: self.focus_next(), request: Request::Nothing },
            KeyAction::FocusPrev => Outcome { commands: self.focus_prev(), request: Request::Nothing },
            KeyAction::Quit => Outcome { commands: Vec::new(), request: Request::Quit },
            KeyAction::SwitchWorkspace(index) => self.switch_action(index, seed),
            KeyAction::MoveToWorkspace(index) => self.move_action(index, seed),
            KeyAction::NextLayout => self.next_layout_action(seed),
            KeyAction::AdjustMasterRatio(delta) => Outcome {
                commands: self.adjust_master_ratio(delta),
                request: Request::Nothing,
            },
            KeyAction::AdjustNmaster(delta) => Outcome {
                commands: self.adjust_nmaster(delta),
                request: Request::Nothing,
            },
            KeyAction::AdjustGap(delta) => Outcome {
                commands: self.adjust_gap(delta),
                request: Request::Nothing,
            },
            KeyAction::PromoteToMaster => Outcome {
                commands: self.promote_to_master(),
                request: Request::Nothing,
            },
            KeyAction::RotateStack => Outcome {
                commands: self.rotate_windows(),
                request: Request::Nothing,
            },
            KeyAction::CycleLastWorkspace => Outcome {
                commands: self.cycle_last_workspace(),
                request: Request::Nothing,
            },
            KeyAction::ToggleFullscreen => {
                match self.focused_client() {
                    Some(w) => Outcome {
                        commands: self.toggle_fullscreen(w),
                        request: Request::Nothing,
                    },
                    None => Outcome { commands: Vec::new(), request: Request::Nothing },
                }
            },
            KeyAction::ClearAlerts => {
                let commands = self.clear_alerts();
                assert(alerts_view(self.alerts@) =~= Seq::<AlertView>::empty());
                Outcome { commands, request: Request::Nothing }
            },
            KeyAction::Banish => Outcome { commands: self.banish(), request: Request::Nothing },
            KeyAction::Report(report) => Outcome {
                commands: Vec::new(),
                request: Request::Report(report),
            },
        }
    }

    /// Handles a press of `keycode` with the modifier bits `state`. `seed`
    /// is used if an overlay is drawn.
    pub fn handle_key_press(&mut self, keycode: Keycode, state: u16, seed: AlertSeed) -> (out:
        Outcome)
        requires
            old(self).wf(),
        ensures
            old(self).has_effect(final(self), &out, old(self).key_press_effect(keycode, state, seed)),
            final(self).wf(),
    {
        let modifiers = normalize_modifiers(state);
        match self.keybindings.find_action(keycode, modifiers) {
            Some(action) => {
                let leaves = match action {
                    KeyAction::ExitMode => true,
                    _ => false,
                };
                let should_exit = self.keybindings.should_auto_exit() && !leaves;
                let mut out = self.execute_action(action, seed);
                if should_exit {
                    self.keybindings.exit_mode();
                    extend(&mut out.commands, self.update_grabs());
                }
                out
            },
            None => {
                if self.keybindings.is_in_submap() {
                    let mut commands = self.draw_alert(String::from_str("[ERR] KEY"), seed);
                    self.keybindings.exit_mode();
                    extend(&mut commands, self.update_grabs());
                    Outcome { commands, request: Request::Nothing }
                } else {
                    Outcome { commands: Vec::new(), request: Request::Nothing }
                }
            },
        }
    }
}

/// One line of the configuration: a key symbol, the modifier bits to hold
/// with it, and the action the two stand for.
#[derive(Debug)]
pub struct Row {
    pub keysym: u32,
    pub modifiers: u16,
    pub action: KeyAction,
}

/// The mathematical picture of a [`Row`].
pub struct RowView {
    pub keysym: u32,
    pub modifiers: u16,
    pub action: KeyActionView,
}

impl View for Row {
    type V = RowView;

    open spec fn view(&self) -> RowView {
        RowView { keysym: self.keysym, modifiers: self.modifiers, action: self.action@ }
    }
}

/// The pictures of the lines of `rows`, in their order.
pub open spec fn rows_view(rows: Seq<Row>) -> Seq<RowView> {
    Seq::new(rows.len(), |i: int| rows[i]@)
}

/// The bindings that the lines `rows` give on a keyboard on which each key
/// symbol lies on the key code that `table` names: one binding for each
/// line whose key symbol the keyboard has, in the order of the lines.
pub open spec fn bound(table: Map<u32, Keycode>, rows: Seq<RowView>) -> Seq<KeyBindingView>
    decreases rows.len(),
{
    if rows.len() == 0 {
        Seq::empty()
    } else {
        let before = bound(table, rows.drop_last());
        let row = rows.last();
        if table.contains_key(row.keysym) {
            before.push(
                KeyBindingView {
                    keycode: table[row.keysym],
                    modifiers: row.modifiers,
                    action: row.action,
                },
            )
        } else {
            before
        }
    }
}

/// The lines of the normal mode.
pub open spec fn normal_table() -> Seq<RowView> {
    seq![
        RowView { keysym: XK_1, modifiers: MOD_4, action: KeyActionView::SwitchWorkspace(1) },
        RowView { keysym: XK_2, modifiers: MOD_4, action: KeyActionView::SwitchWorkspace(2) },
        RowView { keysym: XK_3, modifiers: MOD_4, action: KeyActionView::SwitchWorkspace(3) },
        RowView { keysym: XK_4, modifiers: MOD_4, action: KeyActionView::SwitchWorkspace(4) },
        RowView { keysym: XK_5, modifiers: MOD_4, action: KeyActionView::SwitchWorkspace(5) },
        RowView { keysym: XK_6, modifiers: MOD_4, action: KeyActionView::SwitchWorkspace(6) },
        RowView { keysym: XK_7, modifiers: MOD_4, action: KeyActionView::SwitchWorkspace(7) },
        RowView { keysym: XK_8, modifiers: MOD_4, action: KeyActionView::SwitchWorkspace(8) },
        RowView { keysym: XK_9, modifiers: MOD_4, action: KeyActionView::SwitchWorkspace(9) },
        RowView { keysym: XK_1, modifiers: MOD_4 | MOD_SHIFT, action: KeyActionView::MoveToWorkspace(1) },
        RowView { keysym: XK_2, modifiers: MOD_4 | MOD_SHIFT, action: KeyActionView::MoveToWorkspace(2) },
        RowView { keysym: XK_3, modifiers: MOD_4 | MOD_SHIFT, action: KeyActionView::MoveToWorkspace(3) },
        RowView { keysym: XK_4, modifiers: MOD_4 | MOD_SHIFT, action: KeyActionView::MoveToWorkspace(4) },
        RowView { keysym: XK_5, modifiers: MOD_4 | MOD_SHIFT, action: KeyActionView::MoveToWorkspace(5) },
        RowView { keysym: XK_6, modifiers: MOD_4 | MOD_SHIFT, action: KeyActionView::MoveToWorkspace(6) },
        RowView { keysym: XK_7, modifiers: MOD_4 | MOD_SHIFT, action: KeyActionView::MoveToWorkspace(7) },
        RowView { keysym: XK_8, modifiers: MOD_4 | MOD_SHIFT, action: KeyActionView::MoveToWorkspace(8) },
        RowView { keysym: XK_9, modifiers: MOD_4 | MOD_SHIFT, action: KeyActionView::MoveToWorkspace(9) },
        RowView { keysym: XK_ESCAPE, modifiers: MOD_4 | MOD_SHIFT, action: KeyActionView::Quit },
        RowView { keysym: XK_RETURN, modifiers: MOD_4, action: KeyActionView::Spawn(TERMINAL_APP@) },
        RowView { keysym: XK_C, modifiers: MOD_4 | MOD_SHIFT, action: KeyActionView::CloseWindow },
        RowView { keysym: XK_N, modifiers: MOD_4, action: KeyActionView::EnterMode("nav"@) },
        RowView { keysym: XK_A, modifiers: MOD_4, action: KeyActionView::EnterMode("apps"@) },
        RowView { keysym: XK_S, modifiers: MOD_4, action: KeyActionView::EnterMode("alerts"@) },
        RowView { keysym: XK_SPACE, modifiers: MOD_4, action: KeyActionView::NextLayout },
        RowView { keysym: XK_J, modifiers: MOD_4, action: KeyActionView::FocusNext },
        RowView { keysym: XK_K, modifiers: MOD_4, action: KeyActionView::FocusPrev },
        RowView { keysym: XK_J, modifiers: MOD_4 | MOD_SHIFT, action: KeyActionView::RotateStack },
        RowView { keysym: XK_H, modifiers: MOD_4, action: KeyActionView::AdjustMasterRatio(-5i8) },
        RowView { keysym: XK_L, modifiers: MOD_4, action: KeyActionView::AdjustMasterRatio(5) },
        RowView { keysym: XK_I, modifiers: MOD_4, action: KeyActionView::AdjustNmaster(1) },
        RowView { keysym: XK_D, modifiers: MOD_4, action: KeyActionView::AdjustNmaster(-1i8) },
        RowView { keysym: XK_B, modifiers: MOD_4, action: KeyActionView::Banish },
        RowView { keysym: XK_F, modifiers: MOD_4, action: KeyActionView::ToggleFullscreen },
        RowView { keysym: XK_G, modifiers: MOD_4, action: KeyActionView::ClearAlerts },
        RowView { keysym: XK_TAB, modifiers: MOD_4, action: KeyActionView::CycleLastWorkspace },
        RowView { keysym: XK_RETURN, modifiers: MOD_4 | MOD_SHIFT, action: KeyActionView::PromoteToMaster },
        RowView { keysym: XK_EQUAL, modifiers: MOD_4 | MOD_SHIFT, action: KeyActionView::AdjustGap(5) },
        RowView { keysym: XK_MINUS, modifiers: MOD_4, action: KeyActionView::AdjustGap(-5i16) },
        RowView { keysym: XK_AUDIO_RAISE_VOL, modifiers: 0, action: KeyActionView::Report(Report::VolumeUp) },
        RowView { keysym: XK_AUDIO_LOWER_VOL, modifiers: 0, action: KeyActionView::Report(Report::VolumeDown) },
        RowView { keysym: XK_AUDIO_MUTE, modifiers: 0, action: KeyActionView::Report(Report::VolumeMute) },
        RowView { keysym: XK_AUDIO_MIC_MUTE, modifiers: 0, action: KeyActionView::Report(Report::MicMute) },
        RowView { keysym: XK_PRINT, modifiers: 0, action: KeyActionView::Report(Report::ScreenshotFull) },
        RowView { keysym: XK_PRINT, modifiers: MOD_SHIFT, action: KeyActionView::Report(Report::ScreenshotArea) },
    ]
}

/// The lines of the mode `nav`, in which keys move the focus.
pub open spec fn nav_table() -> Seq<RowView> {
    seq![
        RowView { keysym: XK_J, modifiers: 0, action: KeyActionView::FocusNext },
        RowView { keysym: XK_K, modifiers: 0, action: KeyActionView::FocusPrev },
        RowView { keysym: XK_ESCAPE, modifiers: 0, action: KeyActionView::ExitMode },
    ]
}

/// The lines of the mode `apps`, in which a key starts a program.
pub open spec fn apps_table() -> Seq<RowView> {
    seq![
        RowView { keysym: XK_T, modifiers: 0, action: KeyActionView::Spawn(TERMINAL_APP@) },
        RowView { keysym: XK_E, modifiers: 0, action: KeyActionView::Report(Report::Editor) },
        RowView { keysym: XK_F, modifiers: 0, action: KeyActionView::Spawn(FILEMANAGER_APP@) },
        RowView { keysym: XK_ESCAPE, modifiers: 0, action: KeyActionView::ExitMode },
    ]
}

/// The lines of the mode `alerts`, in which a key shows a report.
pub open spec fn alerts_table() -> Seq<RowView> {
    seq![
        RowView { keysym: XK_L, modifiers: 0, action: KeyActionView::Report(Report::Launcher) },
        RowView { keysym: XK_B, modifiers: 0, action: KeyActionView::Report(Report::Battery) },
        RowView { keysym: XK_V, modifiers: 0, action: KeyActionView::Report(Report::Volume) },
        RowView { keysym: XK_D, modifiers: 0, action: KeyActionView::Report(Report::Date) },
        RowView { keysym: XK_ESCAPE, modifiers: 0, action: KeyActionView::ExitMode },
    ]
}

/// The lines of the normal mode.
pub fn normal_rows() -> (rows: Vec<Row>)
    ensures
        rows_view(rows@) == normal_table(),
{
    let mut rows: Vec<Row> = Vec::new();
    rows.push(Row { keysym: XK_1, modifiers: MOD_4, action: KeyAction::SwitchWorkspace(1) });
    rows.push(Row { keysym: XK_2, modifiers: MOD_4, action: KeyAction::SwitchWorkspace(2) });
    rows.push(Row { keysym: XK_3, modifiers: MOD_4, action: KeyAction::SwitchWorkspace(3) });
    rows.push(Row { keysym: XK_4, modifiers: MOD_4, action: KeyAction::SwitchWorkspace(4) });
    rows.push(Row { keysym: XK_5, modifiers: MOD_4, action: KeyAction::SwitchWorkspace(5) });
    rows.push(Row { keysym: XK_6, modifiers: MOD_4, action: KeyAction::SwitchWorkspace(6) });
    rows.push(Row { keysym: XK_7, modifiers: MOD_4, action: KeyAction::SwitchWorkspace(7) });
    rows.push(Row { keysym: XK_8, modifiers: MOD_4, action: KeyAction::SwitchWorkspace(8) });
    rows.push(Row { keysym: XK_9, modifiers: MOD_4, action: KeyAction::SwitchWorkspace(9) });
    rows.push(Row { keysym: XK_1, modifiers: MOD_4 | MOD_SHIFT, action: KeyAction::MoveToWorkspace(1) });
    rows.push(Row { keysym: XK_2, modifiers: MOD_4 | MOD_SHIFT, action: KeyAction::MoveToWorkspace(2) });
    rows.push(Row { keysym: XK_3, modifiers: MOD_4 | MOD_SHIFT, action: KeyAction::MoveToWorkspace(3) });
    rows.push(Row { keysym: XK_4, modifiers: MOD_4 | MOD_SHIFT, action: KeyAction::MoveToWorkspace(4) });
    rows.push(Row { keysym: XK_5, modifiers: MOD_4 | MOD_SHIFT, action: KeyAction::MoveToWorkspace(5) });
    rows.push(Row { keysym: XK_6, modifiers: MOD_4 | MOD_SHIFT, action: KeyAction::MoveToWorkspace(6) });
    rows.push(Row { keysym: XK_7, modifiers: MOD_4 | MOD_SHIFT, action: KeyAction::MoveToWorkspace(7) });
    rows.push(Row { keysym: XK_8, modifiers: MOD_4 | MOD_SHIFT, action: KeyAction::MoveToWorkspace(8) });
    rows.push(Row { keysym: XK_9, modifiers: MOD_4 | MOD_SHIFT, action: KeyAction::MoveToWorkspace(9) });
    rows.push(Row { keysym: XK_ESCAPE, modifiers: MOD_4 | MOD_SHIFT, action: KeyAction::Quit });
    rows.push(Row { keysym: XK_RETURN, modifiers: MOD_4, action: KeyAction::Spawn(String::from_str(TERMINAL_APP)) });
    rows.push(Row { keysym: XK_C, modifiers: MOD_4 | MOD_SHIFT, action: KeyAction::CloseWindow });
    rows.push(Row { keysym: XK_N, modifiers: MOD_4, action: KeyAction::EnterMode(String::from_str("nav")) });
    rows.push(Row { keysym: XK_A, modifiers: MOD_4, action: KeyAction::EnterMode(String::from_str("apps")) });
    rows.push(Row { keysym: XK_S, modifiers: MOD_4, action: KeyAction::EnterMode(String::from_str("alerts")) });
    rows.push(Row { keysym: XK_SPACE, modifiers: MOD_4, action: KeyAction::NextLayout });
    rows.push(Row { keysym: XK_J, modifiers: MOD_4, action: KeyAction::FocusNext });
    rows.push(Row { keysym: XK_K, modifiers: MOD_4, action: KeyAction::FocusPrev });
    rows.push(Row { keysym: XK_J, modifiers: MOD_4 | MOD_SHIFT, action: KeyAction::RotateStack });
    rows.push(Row { keysym: XK_H, modifiers: MOD_4, action: KeyAction::AdjustMasterRatio(-5) });
    rows.push(Row { keysym: XK_L, modifiers: MOD_4, action: KeyAction::AdjustMasterRatio(5) });
    rows.push(Row { keysym: XK_I, modifiers: MOD_4, action: KeyAction::AdjustNmaster(1) });
    rows.push(Row { keysym: XK_D, modifiers: MOD_4, action: KeyAction::AdjustNmaster(-1) });
    rows.push(Row { keysym: XK_B, modifiers: MOD_4, action: KeyAction::Banish });
    rows.push(Row { keysym: XK_F, modifiers: MOD_4, action: KeyAction::ToggleFullscreen });
    rows.push(Row { keysym: XK_G, modifiers: MOD_4, action: KeyAction::ClearAlerts });
    rows.push(Row { keysym: XK_TAB, modifiers: MOD_4, action: KeyAction::CycleLastWorkspace });
    rows.push(Row { keysym: XK_RETURN, modifiers: MOD_4 | MOD_SHIFT, action: KeyAction::PromoteToMaster });
    rows.push(Row { keysym: XK_EQUAL, modifiers: MOD_4 | MOD_SHIFT, action: KeyAction::AdjustGap(5) });
    rows.push(Row { keysym: XK_MINUS, modifiers: MOD_4, action: KeyAction::AdjustGap(-5) });
    rows.push(Row { keysym: XK_AUDIO_RAISE_VOL, modifiers: 0, action: KeyAction::Report(Report::VolumeUp) });
    rows.push(Row { keysym: XK_AUDIO_LOWER_VOL, modifiers: 0, action: KeyAction::Report(Report::VolumeDown) });
    rows.push(Row { keysym: XK_AUDIO_MUTE, modifiers: 0, action: KeyAction::Report(Report::VolumeMute) });
    rows.push(Row { keysym: XK_AUDIO_MIC_MUTE, modifiers: 0, action: KeyAction::Report(Report::MicMute) });
    rows.push(Row { keysym: XK_PRINT, modifiers: 0, action: KeyAction::Report(Report::ScreenshotFull) });
    rows.push(Row { keysym: XK_PRINT, modifiers: MOD_SHIFT, action: KeyAction::Report(Report::ScreenshotArea) });
    assert(rows_view(rows@) =~= normal_table());
    rows
}

/// The lines of the mode `nav`.
pub fn nav_rows() -> (rows: Vec<Row>)
    ensures
        rows_view(rows@) == nav_table(),
{
    let mut rows: Vec<Row> = Vec::new();
    rows.push(Row { keysym: XK_J, modifiers: 0, action: KeyAction::FocusNext });
    rows.push(Row { keysym: XK_K, modifiers: 0, action: KeyAction::FocusPrev });
    rows.push(Row { keysym: XK_ESCAPE, modifiers: 0, action: KeyAction::ExitMode });
    assert(rows_view(rows@) =~= nav_table());
    rows
}

/// The lines of the mode `apps`.
pub fn apps_rows() -> (rows: Vec<Row>)
    ensures
        rows_view(rows@) == apps_table(),
{
    let mut rows: Vec<Row> = Vec::new();
    rows.push(Row { keysym: XK_T, modifiers: 0, action: KeyAction::Spawn(String::from_str(TERMINAL_APP)) });
    rows.push(Row { keysym: XK_E, modifiers: 0, action: KeyAction::Report(Report::Editor) });
    rows.push(Row { keysym: XK_F, modifiers: 0, action: KeyAction::Spawn(String::from_str(FILEMANAGER_APP)) });
    rows.push(Row { keysym: XK_ESCAPE, modifiers: 0, action: KeyAction::ExitMode });
    assert(rows_view(rows@) =~= apps_table());
    rows
}

/// The lines of the mode `alerts`.
pub fn alerts_rows() -> (rows: Vec<Row>)
    ensures
        rows_view(rows@) == alerts_table(),
{
    let mut rows: Vec<Row> = Vec::new();
    rows.push(Row { keysym: XK_L, modifiers: 0, action: KeyAction::Report(Report::Launcher) });
    rows.push(Row { keysym: XK_B, modifiers: 0, action: KeyAction::Report(Report::Battery) });
    rows.push(Row { keysym: XK_V, modifiers: 0, action: KeyAction::Report(Report::Volume) });
    rows.push(Row { keysym: XK_D, modifiers: 0, action: KeyAction::Report(Report::Date) });
    rows.push(Row { keysym: XK_ESCAPE, modifiers: 0, action: KeyAction::ExitMode });
    assert(rows_view(rows@) =~= alerts_table());
    rows
}

/// The bindings that `rows` give on the keyboard of `grabber`.
pub fn bind_rows(grabber: &KeyboardGrabber, rows: Vec<Row>) -> (out: Vec<KeyBinding>)
    ensures
        bindings_view(out@) == bound(grabber.table(), rows_view(rows@)),
{
    let mut out: Vec<KeyBinding> = Vec::new();
    let ghost all: Seq<Row> = rows@;
    let mut rest = rows;
    let total = rest.len();
    let mut i: usize = 0;
    proof {
        assert(rest@ =~= all.subrange(0, total as int));
        assert(rows_view(all.take(0)) =~= Seq::<RowView>::empty());
        assert(bindings_view(out@) =~= Seq::<KeyBindingView>::empty());
    }
    while i < total
        invariant
            i <= total,
            total == all.len(),
            rest@ == all.subrange(i as int, total as int),
            bindings_view(out@) == bound(grabber.table(), rows_view(all.take(i as int))),
        decreases total - i,
    {
        let row = rest.remove(0);
        let ghost before = out@;
        proof {
            assert(rest@ =~= all.subrange(i + 1, total as int));
            let t = rows_view(all.take(i + 1));
            assert(t.drop_last() =~= rows_view(all.take(i as int)));
            assert(t.last() == row@);
        }
        match grabber.keysym_to_keycode(row.keysym) {
            Some(keycode) => {
                out.push(KeyBinding { keycode, modifiers: row.modifiers, action: row.action });
                proof {
                    assert(bindings_view(out@) =~= bindings_view(before).push(
                        KeyBindingView {
                            keycode,
                            modifiers: row@.modifiers,
                            action: row@.action,
                        },
                    ));
                }
            },
            None => {},
        }
        i = i + 1;
    }
    proof {
        assert(all.take(total as int) =~= all);
    }
    out
}

impl WindowManager {
    /// Sets the key bindings of the configuration up for the keyboard of
    /// `grabber`, in place of whatever bindings there were, and answers
    /// with the commands that grab the keys. A line whose key symbol the
    /// keyboard does not have is left out.
    pub fn setup_keybindings(&mut self, grabber: &KeyboardGrabber) -> (cmds: Vec<Command>)
        ensures
            bindings_view(final(self).keybindings.normal_bindings@) == bound(
                grabber.table(),
                normal_table(),
            ),
            final(self).keybindings.submaps@.len() == 3,
            final(self).keybindings.submaps@[0].name@ == "nav"@,
            !final(self).keybindings.submaps@[0].oneshot,
            bindings_view(final(self).keybindings.submaps@[0].bindings@) == bound(
                grabber.table(),
                nav_table(),
            ),
            final(self).keybindings.submaps@[1].name@ == "apps"@,
            final(self).keybindings.submaps@[1].oneshot,
            bindings_view(final(self).keybindings.submaps@[1].bindings@) == bound(
                grabber.table(),
                apps_table(),
            ),
            final(self).keybindings.submaps@[2].name@ == "alerts"@,
            final(self).keybindings.submaps@[2].oneshot,
            bindings_view(final(self).keybindings.submaps@[2].bindings@) == bound(
                grabber.table(),
                alerts_table(),
            ),
            final(self).keybindings.current_mode is None,
            cmds@ == final(self).keybindings.grabs(),
            old(self).same_but_keybindings(final(self)),
            final(self).keybindings.wf(),
            old(self).wf() ==> final(self).wf(),
    {
        proof {
            reveal_strlit("nav");
            reveal_strlit("apps");
            reveal_strlit("alerts");
            assert("nav"@.len() == 3 && "apps"@.len() == 4 && "alerts"@.len() == 6);
        }
        let normal_bindings = bind_rows(grabber, normal_rows());
        let mut submaps: Vec<SubMap> = Vec::new();
        submaps.push(
            SubMap {
                name: String::from_str("nav"),
                bindings: bind_rows(grabber, nav_rows()),
                oneshot: false,
            },
        );
        submaps.push(
            SubMap {
                name: String::from_str("apps"),
                bindings: bind_rows(grabber, apps_rows()),
                oneshot: true,
            },
        );
        submaps.push(
            SubMap {
                name: String::from_str("alerts"),
                bindings: bind_rows(grabber, alerts_rows()),
                oneshot: true,
            },
        );
        self.keybindings = KeyBindingManager { normal_bindings, submaps, current_mode: None };
        self.update_grabs()
    }
}

/// What the process has to do for a report before the text can be shown:
/// the shell commands to run first, whether those are left running rather
/// than waited for, and the shell commands whose output the text is made
/// of.
#[derive(Debug)]
pub struct ReportPlan {
    pub run: Vec<&'static str>,
    pub detached: bool,
    pub ask: Vec<&'static str>,
}

/// The texts of `lines`, in their order.
pub open spec fn lines_view(lines: Seq<&'static str>) -> Seq<Seq<char>> {
    Seq::new(lines.len(), |i: int| lines[i]@)
}

/// The texts of `lines`, in their order.
pub open spec fn strings_view(lines: Seq<String>) -> Seq<Seq<char>> {
    Seq::new(lines.len(), |i: int| lines[i]@)
}

/// The shell commands that `report` runs first.
pub open spec fn report_run(report: Report) -> Seq<Seq<char>> {
    match report {
        Report::VolumeUp => seq!["pactl set-sink-volume @DEFAULT_SINK@ +10%"@],
        Report::VolumeDown => seq!["pactl set-sink-volume @DEFAULT_SINK@ -10%"@],
        Report::VolumeMute => seq!["pamixer --toggle-mute"@],
        Report::MicMute => seq!["pamixer --default-source --toggle-mute"@],
        Report::ScreenshotFull => seq!["maim | xclip -selection clipboard -t image/png -i"@],
        Report::ScreenshotArea => seq!["maim -s | xclip -selection clipboard -t image/png -i"@],
        Report::Editor => seq!["emacsclient -c"@],
        Report::Launcher => Seq::empty(),
        Report::Battery => Seq::empty(),
        Report::Volume => Seq::empty(),
        Report::Date => Seq::empty(),
    }
}

/// The shell commands whose output the text of `report` is made of.
pub open spec fn report_ask(report: Report) -> Seq<Seq<char>> {
    match report {
        Report::VolumeUp | Report::VolumeDown | Report::VolumeMute | Report::Volume => seq![
            "pamixer --get-volume"@,
            "pamixer --get-mute"@,
        ],
        Report::MicMute => seq!["pamixer --default-source --get-mute"@],
        Report::Battery => seq![
            "cat /sys/class/power_supply/BAT0/capacity"@,
            "cat /sys/class/power_supply/BAT0/status"@,
        ],
        Report::Date => seq!["date '+%a %d %b %H:%M'"@],
        _ => Seq::empty(),
    }
}

/// Answer number `i` of `answers`, or the empty text where there are not
/// that many.
pub open spec fn answer(answers: Seq<Seq<char>>, i: int) -> Seq<char> {
    if 0 <= i < answers.len() {
        answers[i]
    } else {
        Seq::empty()
    }
}

/// The text that `report` shows when the commands of [`report_ask`] have
/// printed `answers`; the launcher shows none.
pub open spec fn report_message(report: Report, answers: Seq<Seq<char>>) -> Option<Seq<char>> {
    match report {
        Report::VolumeUp | Report::VolumeDown | Report::VolumeMute | Report::Volume => Some(
            (if trimmed(answer(answers, 1)) == "true"@ {
                "[MUTED] "@
            } else {
                "[VOL] "@
            }) + trimmed(answer(answers, 0)) + "%"@,
        ),
        Report::MicMute => Some(
            if trimmed(answer(answers, 0)) == "true"@ {
                "[MIC] MUTED"@
            } else {
                "[MIC] LIVE"@
            },
        ),
        Report::ScreenshotFull => Some("[SCR] FULL"@),
        Report::ScreenshotArea => Some("[SCR] AREA"@),
        Report::Editor => Some("[EMACS] SPAWN"@),
        Report::Launcher => None,
        Report::Battery => Some(
            battery_label(trimmed(answer(answers, 1))) + trimmed(answer(answers, 0)) + "%"@,
        ),
        Report::Date => Some("[DATE] "@ + trimmed(answer(answers, 0))),
    }
}

/// What the process has to do for `report`.
pub fn report_plan(report: Report) -> (plan: ReportPlan)
    ensures
        lines_view(plan.run@) == report_run(report),
        lines_view(plan.ask@) == report_ask(report),
        plan.detached == (report == Report::Editor),
{
    let mut run: Vec<&'static str> = Vec::new();
    let mut ask: Vec<&'static str> = Vec::new();
    let mut detached = false;
    match report {
        Report::VolumeUp => {
            run.push("pactl set-sink-volume @DEFAULT_SINK@ +10%");
            ask.push("pamixer --get-volume");
            ask.push("pamixer --get-mute");
        },
        Report::VolumeDown => {
            run.push("pactl set-sink-volume @DEFAULT_SINK@ -10%");
            ask.push("pamixer --get-volume");
            ask.push("pamixer --get-mute");
        },
        Report::VolumeMute => {
            run.push("pamixer --toggle-mute");
            ask.push("pamixer --get-volume");
            ask.push("pamixer --get-mute");
        },
        Report::MicMute => {
            run.push("pamixer --default-source --toggle-mute");
            ask.push("pamixer --default-source --get-mute");
        },
        Report::ScreenshotFull => {
            run.push("maim | xclip -selection clipboard -t image/png -i");
        },
        Report::ScreenshotArea => {
            run.push("maim -s | xclip -selection clipboard -t image/png -i");
        },
        Report::Editor => {
            run.push("emacsclient -c");
            detached = true;
        },
        Report::Launcher => {},
        Report::Battery => {
            ask.push("cat /sys/class/power_supply/BAT0/capacity");
            ask.push("cat /sys/class/power_supply/BAT0/status");
        },
        Report::Volume => {
            ask.push("pamixer --get-volume");
            ask.push("pamixer --get-mute");
        },
        Report::Date => {
            ask.push("date '+%a %d %b %H:%M'");
        },
    }
    proof {
        assert(lines_view(run@) =~= report_run(report));
        assert(lines_view(ask@) =~= report_ask(report));
    }
    ReportPlan { run, detached, ask }
}

/// Answer number `i` of `answers`, or the empty text.
fn nth_answer(answers: &Vec<String>, i: usize) -> (r: String)
    ensures
        r@ == answer(strings_view(answers@), i as int),
{
    if i < answers.len() {
        answers[i].clone()
    } else {
        String::new()
    }
}

/// The text that `report` shows when the commands it asks have printed
/// `answers`.
pub fn report_text(report: Report, answers: &Vec<String>) -> (r: Option<String>)
    ensures
        match report_message(report, strings_view(answers@)) {
            Some(text) => r matches Some(s) && s@ == text,
            None => r is None,
        },
{
    let first = nth_answer(answers, 0);
    let second = nth_answer(answers, 1);
    match report {
        Report::VolumeUp | Report::VolumeDown | Report::VolumeMute | Report::Volume => Some(
            volume_alert_text(first.as_str(), second.as_str()),
        ),
        Report::MicMute => Some(mic_alert_text(first.as_str())),
        Report::ScreenshotFull => Some(String::from_str("[SCR] FULL")),
        Report::ScreenshotArea => Some(String::from_str("[SCR] AREA")),
        Report::Editor => Some(String::from_str("[EMACS] SPAWN")),
        Report::Launcher => None,
        Report::Battery => Some(battery_alert_text(first.as_str(), second.as_str())),
        Report::Date => Some(date_alert_text(first.as_str())),
    }
}

} // verus!

//! Key bindings: which action a key stands for, in the normal mode and in
//! the named modes that the user can enter and leave.

use vstd::prelude::*;
use vstd::string::StringExecFns;
use crate::commands::{extend, Command, Keycode};
use crate::keyboard::{grab_commands, MOD_2};

verus! {

/// Something that has to be found out from the system, or started on it,
/// before the user can be told about it in an overlay.
#[derive(Clone, Copy, Debug, PartialEq, Eq, Structural)]
pub enum Report {
    VolumeUp,
    VolumeDown,
    VolumeMute,
    MicMute,
    ScreenshotFull,
    ScreenshotArea,
    Editor,
    Launcher,
    Battery,
    Volume,
    Date,
}

/// What a key binding stands for.
#[derive(Debug, Clone)]
pub enum KeyAction {
    Spawn(String),
    EnterMode(String),
    ExitMode,
    CloseWindow,
    FocusNext,
    FocusPrev,
    Quit,
    SwitchWorkspace(u8),
    MoveToWorkspace(u8),
    NextLayout,
    AdjustMasterRatio(i8),
    AdjustNmaster(i8),
    AdjustGap(i16),
    PromoteToMaster,
    RotateStack,
    CycleLastWorkspace,
    ToggleFullscreen,
    ClearAlerts,
    Banish,
    Report(Report),
}

impl KeyAction {
    /// A second copy of the action.
    pub fn duplicate(&self) -> (a: KeyAction)
        ensures
            a == *self,
    {
        match self {
            KeyAction::Spawn(s) => KeyAction::Spawn(s.clone()),
            KeyAction::EnterMode(s) => KeyAction::EnterMode(s.clone()),
            KeyAction::ExitMode => KeyAction::ExitMode,
            KeyAction::CloseWindow => KeyAction::CloseWindow,
            KeyAction::FocusNext => KeyAction::FocusNext,
            KeyAction::FocusPrev => KeyAction::FocusPrev,
            KeyAction::Quit => KeyAction::Quit,
            KeyAction::SwitchWorkspace(n) => KeyAction::SwitchWorkspace(*n),
            KeyAction::MoveToWorkspace(n) => KeyAction::MoveToWorkspace(*n),
            KeyAction::NextLayout => KeyAction::NextLayout,
            KeyAction::AdjustMasterRatio(d) => KeyAction::AdjustMasterRatio(*d),
            KeyAction::AdjustNmaster(d) => KeyAction::AdjustNmaster(*d),
            KeyAction::AdjustGap(d) => KeyAction::AdjustGap(*d),
            KeyAction::PromoteToMaster => KeyAction::PromoteToMaster,
            KeyAction::RotateStack => KeyAction::RotateStack,
            KeyAction::CycleLastWorkspace => KeyAction::CycleLastWorkspace,
            KeyAction::ToggleFullscreen => KeyAction::ToggleFullscreen,
            KeyAction::ClearAlerts => KeyAction::ClearAlerts,
            KeyAction::Banish => KeyAction::Banish,
            KeyAction::Report(r) => KeyAction::Report(*r),
        }
    }
}

/// The mathematical picture of a [`KeyAction`]: the same, with texts as
/// sequences of characters.
pub enum KeyActionView {
    Spawn(Seq<char>),
    EnterMode(Seq<char>),
    ExitMode,
    CloseWindow,
    FocusNext,
    FocusPrev,
    Quit,
    SwitchWorkspace(u8),
    MoveToWorkspace(u8),
    NextLayout,
    AdjustMasterRatio(i8),
    AdjustNmaster(i8),
    AdjustGap(i16),
    PromoteToMaster,
    RotateStack,
    CycleLastWorkspace,
    ToggleFullscreen,
    ClearAlerts,
    Banish,
    Report(Report),
}

impl View for KeyAction {
    type V = KeyActionView;

    open spec fn view(&self) -> KeyActionView {
        match self {
            KeyAction::Spawn(s) => KeyActionView::Spawn(s@),
            KeyAction::EnterMode(s) => KeyActionView::EnterMode(s@),
            KeyAction::ExitMode => KeyActionView::ExitMode,
            KeyAction::CloseWindow => KeyActionView::CloseWindow,
            KeyAction::FocusNext => KeyActionView::FocusNext,
            KeyAction::FocusPrev => KeyActionView::FocusPrev,
            KeyAction::Quit => KeyActionView::Quit,
            KeyAction::SwitchWorkspace(n) => KeyActionView::SwitchWorkspace(*n),
            KeyAction::MoveToWorkspace(n) => KeyActionView::MoveToWorkspace(*n),
            KeyAction::NextLayout => KeyActionView::NextLayout,
            KeyAction::AdjustMasterRatio(d) => KeyActionView::AdjustMasterRatio(*d),
            KeyAction::AdjustNmaster(d) => KeyActionView::AdjustNmaster(*d),
            KeyAction::AdjustGap(d) => KeyActionView::AdjustGap(*d),
            KeyAction::PromoteToMaster => KeyActionView::PromoteToMaster,
            KeyAction::RotateStack => KeyActionView::RotateStack,
            KeyAction::CycleLastWorkspace => KeyActionView::CycleLastWorkspace,
            KeyAction::ToggleFullscreen => KeyActionView::ToggleFullscreen,
            KeyAction::ClearAlerts => KeyActionView::ClearAlerts,
            KeyAction::Banish => KeyActionView::Banish,
            KeyAction::Report(r) => KeyActionView::Report(*r),
        }
    }
}

/// The mathematical picture of a [`KeyBinding`].
pub struct KeyBindingView {
    pub keycode: Keycode,
    pub modifiers: u16,
    pub action: KeyActionView,
}

impl View for KeyBinding {
    type V = KeyBindingView;

    open spec fn view(&self) -> KeyBindingView {
        KeyBindingView { keycode: self.keycode, modifiers: self.modifiers, action: self.action@ }
    }
}

/// The pictures of the bindings of `bindings`, in their order.
pub open spec fn bindings_view(bindings: Seq<KeyBinding>) -> Seq<KeyBindingView> {
    Seq::new(bindings.len(), |i: int| bindings[i]@)
}

/// A key, the modifier bits that have to be held with it, and what the two
/// stand for.
#[derive(Clone, Debug)]
pub struct KeyBinding {
    pub keycode: Keycode,
    pub modifiers: u16,
    pub action: KeyAction,
}

/// A named mode with bindings of its own. A one-shot mode is left after the
/// first action.
#[derive(Clone, Debug)]
pub struct SubMap {
    pub name: String,
    pub bindings: Vec<KeyBinding>,
    pub oneshot: bool,
}

/// Index of the first mode of `submaps` that is named `name`.
pub open spec fn find_submap(submaps: Seq<SubMap>, name: Seq<char>) -> Option<int>
    decreases submaps.len(),
{
    if submaps.len() == 0 {
        None
    } else {
        match find_submap(submaps.drop_last(), name) {
            Some(i) => Some(i),
            None => if submaps.last().name@ == name {
                Some(submaps.len() - 1)
            } else {
                None
            },
        }
    }
}

/// Index of the first binding of `bindings` for `keycode` with exactly
/// `modifiers`.
pub open spec fn find_binding(bindings: Seq<KeyBinding>, keycode: Keycode, modifiers: u16) -> Option<
    int,
>
    decreases bindings.len(),
{
    if bindings.len() == 0 {
        None
    } else {
        match find_binding(bindings.drop_last(), keycode, modifiers) {
            Some(i) => Some(i),
            None => if bindings.last().keycode == keycode && bindings.last().modifiers
                == modifiers {
                Some(bindings.len() - 1)
            } else {
                None
            },
        }
    }
}

/// The grabs of every binding of `bindings`, in their order.
pub open spec fn binding_grabs(bindings: Seq<KeyBinding>) -> Seq<Command>
    decreases bindings.len(),
{
    if bindings.len() == 0 {
        Seq::empty()
    } else {
        binding_grabs(bindings.drop_last()) + grab_commands(
            bindings.last().keycode,
            bindings.last().modifiers,
        )
    }
}

/// What [`find_submap`] finds is the first mode of that name.
pub proof fn lemma_find_submap(submaps: Seq<SubMap>, name: Seq<char>)
    ensures
        match find_submap(submaps, name) {
            Some(i) => 0 <= i < submaps.len() && submaps[i].name@ == name && forall|j: int|
                0 <= j < i ==> (#[trigger] submaps[j]).name@ != name,
            None => forall|j: int| 0 <= j < submaps.len() ==> (#[trigger] submaps[j]).name@ != name,
        },
    decreases submaps.len(),
{
    if submaps.len() > 0 {
        let t = submaps.drop_last();
        lemma_find_submap(t, name);
        assert forall|j: int| 0 <= j < t.len() implies t[j] == submaps[j] by {}
        match find_submap(t, name) {
            Some(i) => {
                assert(t[i] == submaps[i]);
                assert forall|j: int| 0 <= j < i implies (#[trigger] submaps[j]).name@ != name by {
                    assert(t[j] == submaps[j]);
                }
            },
            None => {
                assert forall|j: int| 0 <= j < t.len() implies (#[trigger] submaps[j]).name@
                    != name by {
                    assert(t[j] == submaps[j]);
                }
            },
        }
    }
}

/// What [`find_binding`] finds is the first binding for the key.
pub proof fn lemma_find_binding(bindings: Seq<KeyBinding>, keycode: Keycode, modifiers: u16)
    ensures
        match find_binding(bindings, keycode, modifiers) {
            Some(i) => 0 <= i < bindings.len() && bindings[i].keycode == keycode
                && bindings[i].modifiers == modifiers && forall|j: int|
                0 <= j < i ==> !((#[trigger] bindings[j]).keycode == keycode
                    && bindings[j].modifiers == modifiers),
            None => forall|j: int|
                0 <= j < bindings.len() ==> !((#[trigger] bindings[j]).keycode == keycode
                    && bindings[j].modifiers == modifiers),
        },
    decreases bindings.len(),
{
    if bindings.len() > 0 {
        let t = bindings.drop_last();
        lemma_find_binding(t, keycode, modifiers);
        assert forall|j: int| 0 <= j < t.len() implies t[j] == bindings[j] by {}
        match find_binding(t, keycode, modifiers) {
            Some(i) => {
                assert(t[i] == bindings[i]);
                assert forall|j: int| 0 <= j < i implies !((#[trigger] bindings[j]).keycode
                    == keycode && bindings[j].modifiers == modifiers) by {
                    assert(t[j] == bindings[j]);
                }
            },
            None => {
                assert forall|j: int| 0 <= j < t.len() implies !((#[trigger] bindings[j]).keycode
                    == keycode && bindings[j].modifiers == modifiers) by {
                    assert(t[j] == bindings[j]);
                }
            },
        }
    }
}

/// The bindings of the normal mode, the named modes, and the mode that is
/// active: `None` for the normal mode.
pub struct KeyBindingManager {
    pub normal_bindings: Vec<KeyBinding>,
    pub submaps: Vec<SubMap>,
    pub current_mode: Option<String>,
}

impl KeyBindingManager {
    /// Index of the active mode among the named modes; `None` in the normal
    /// mode and where the active mode's name is not that of any mode.
    pub open spec fn active_submap(&self) -> Option<int> {
        match self.current_mode {
            Some(m) => find_submap(self.submaps@, m@),
            None => None,
        }
    }

    /// The bindings in force: those of the active mode, or the normal ones.
    pub open spec fn active(&self) -> Seq<KeyBinding> {
        match self.active_submap() {
            Some(i) => self.submaps@[i].bindings@,
            None => self.normal_bindings@,
        }
    }

    /// The invariant of the bindings: no two named modes have the same
    /// name.
    pub open spec fn wf(&self) -> bool {
        forall|i: int, j: int|
            0 <= i < self.submaps@.len() && 0 <= j < self.submaps@.len() && i != j ==> (
            #[trigger] self.submaps@[i]).name@ != (#[trigger] self.submaps@[j]).name@
    }

    /// Whether the active mode is one that is left after a single action.
    pub open spec fn is_oneshot(&self) -> bool {
        match self.active_submap() {
            Some(i) => self.submaps@[i].oneshot,
            None => false,
        }
    }

    /// The bindings after an attempt to enter the mode named `mode`: that
    /// mode is active if there is one of that name.
    pub open spec fn entered(self, mode: String) -> KeyBindingManager {
        if find_submap(self.submaps@, mode@) is Some {
            KeyBindingManager { current_mode: Some(mode), ..self }
        } else {
            self
        }
    }

    /// The bindings back in normal mode.
    pub open spec fn exited(self) -> KeyBindingManager {
        KeyBindingManager { current_mode: None, ..self }
    }

    /// The commands that bring the key grabs in line with the bindings:
    /// every grab released, then every key grabbed while a named mode is
    /// active, or else the key of each normal binding, then a flush.
    pub open spec fn grabs(&self) -> Seq<Command> {
        seq![Command::UngrabAllKeys] + (if self.current_mode is Some {
            seq![Command::GrabAllKeys]
        } else {
            binding_grabs(self.active())
        }).push(Command::Flush)
    }

    /// The commands of [`KeyBindingManager::grabs`].
    pub fn update_grabs(&self) -> (cmds: Vec<Command>)
        ensures
            cmds@ == self.grabs(),
    {
        let mut cmds: Vec<Command> = Vec::new();
        cmds.push(Command::UngrabAllKeys);
        if self.is_in_submap() {
            cmds.push(Command::GrabAllKeys);
        } else {
            let bindings = self.active_bindings();
            let mut grabs: Vec<Command> = Vec::new();
            let mut i: usize = 0;
            proof {
                assert(bindings@.take(0) =~= Seq::<KeyBinding>::empty());
            }
            while i < bindings.len()
                invariant
                    i <= bindings@.len(),
                    grabs@ == binding_grabs(bindings@.take(i as int)),
                decreases bindings@.len() - i,
            {
                let keycode = bindings[i].keycode;
                let modifiers = bindings[i].modifiers;
                proof {
                    let t = bindings@.take(i + 1);
                    assert(t.drop_last() =~= bindings@.take(i as int));
                    assert(t.last() == bindings@[i as int]);
                }
                grabs.push(Command::GrabKey { keycode, modifiers, must_succeed: true });
                if modifiers & MOD_2 != MOD_2 {
                    grabs.push(
                        Command::GrabKey {
                            keycode,
                            modifiers: modifiers | MOD_2,
                            must_succeed: false,
                        },
                    );
                }
                proof {
                    assert(grabs@ =~= binding_grabs(bindings@.take(i as int)) + grab_commands(
                        keycode,
                        modifiers,
                    ));
                }
                i = i + 1;
            }
            proof {
                assert(bindings@.take(bindings@.len() as int) =~= bindings@);
            }
            extend(&mut cmds, grabs);
        }
        cmds.push(Command::Flush);
        cmds
    }

    /// No bindings, no modes, normal mode.
    pub fn new() -> (m: Self)
        ensures
            m.normal_bindings@.len() == 0,
            m.submaps@.len() == 0,
            m.current_mode is None,
            m.wf(),
    {
        KeyBindingManager { normal_bindings: Vec::new(), submaps: Vec::new(), current_mode: None }
    }

    /// Index of the first mode named `name`.
    pub fn submap_position(&self, name: &String) -> (r: Option<usize>)
        ensures
            match r {
                Some(i) => find_submap(self.submaps@, name@) == Some(i as int) && i
                    < self.submaps@.len(),
                None => find_submap(self.submaps@, name@) is None,
            },
    {
        let mut i: usize = 0;
        proof {
            assert(self.submaps@.take(0) =~= Seq::<SubMap>::empty());
        }
        while i < self.submaps.len()
            invariant
                i <= self.submaps@.len(),
                find_submap(self.submaps@.take(i as int), name@) is None,
            decreases self.submaps@.len() - i,
        {
            proof {
                let t = self.submaps@.take(i + 1);
                assert(t.drop_last() =~= self.submaps@.take(i as int));
                assert(t.last() == self.submaps@[i as int]);
                lemma_find_submap_prefix(self.submaps@, name@, i + 1);
            }
            if self.submaps[i].name == *name {
                assert(find_submap(self.submaps@.take(i + 1), name@) == Some(i as int));
                return Some(i);
            }
            i = i + 1;
        }
        proof {
            assert(self.submaps@.take(self.submaps@.len() as int) =~= self.submaps@);
        }
        None
    }

    /// Adds a binding to the normal mode, after those that are there.
    pub fn bind_normal(&mut self, keycode: Keycode, modifiers: u16, action: KeyAction)
        ensures
            final(self).normal_bindings@ == old(self).normal_bindings@.push(
                KeyBinding { keycode, modifiers, action },
            ),
            final(self).submaps == old(self).submaps,
            final(self).current_mode == old(self).current_mode,
            old(self).wf() ==> final(self).wf(),
    {
        self.normal_bindings.push(KeyBinding { keycode, modifiers, action });
    }

    /// Adds an empty mode named `name`. A mode of that name that exists
    /// already is replaced by the empty one, in its place.
    pub fn add_submap(&mut self, name: String, oneshot: bool)
        ensures
            final(self).submaps@ == match find_submap(old(self).submaps@, name@) {
                Some(i) => old(self).submaps@.update(i, final(self).submaps@[i]),
                None => old(self).submaps@.push(final(self).submaps@.last()),
            },
            ({
                let at = match find_submap(old(self).submaps@, name@) {
                    Some(i) => i,
                    None => old(self).submaps@.len() as int,
                };
                &&& final(self).submaps@[at].name@ == name@
                &&& final(self).submaps@[at].bindings@.len() == 0
                &&& final(self).submaps@[at].oneshot == oneshot
            }),
            final(self).normal_bindings == old(self).normal_bindings,
            final(self).current_mode == old(self).current_mode,
            old(self).wf() ==> final(self).wf(),
    {
        let at = self.submap_position(&name);
        proof {
            lemma_find_submap(self.submaps@, name@);
        }
        let submap = SubMap { name, bindings: Vec::new(), oneshot };
        match at {
            Some(i) => {
                self.submaps.set(i, submap);
            },
            None => {
                self.submaps.push(submap);
            },
        }
        proof {
            if old(self).wf() {
                let before = old(self).submaps@;
                let after = self.submaps@;
                assert forall|i: int, j: int|
                    0 <= i < after.len() && 0 <= j < after.len() && i != j implies (
                #[trigger] after[i]).name@ != (#[trigger] after[j]).name@ by {
                    if i < before.len() && j < before.len() {
                        assert(before[i].name@ != before[j].name@);
                    }
                }
            }
        }
    }

    /// Adds a binding to the mode named `mode`, after those that are there.
    /// Where no mode has that name nothing happens.
    pub fn bind_in_mode(&mut self, mode: &str, keycode: Keycode, modifiers: u16, action: KeyAction)
        ensures
            match find_submap(old(self).submaps@, mode@) {
                Some(i) => final(self).submaps@.len() == old(self).submaps@.len() && (forall|j: int|
                    0 <= j < old(self).submaps@.len() && j != i ==> final(self).submaps@[j] == old(
                        self,
                    ).submaps@[j]) && final(self).submaps@[i].name == old(self).submaps@[i].name
                    && final(self).submaps@[i].oneshot == old(self).submaps@[i].oneshot
                    && final(self).submaps@[i].bindings@ == old(self).submaps@[i].bindings@.push(
                    KeyBinding { keycode, modifiers, action },
                ),
                None => final(self).submaps == old(self).submaps,
            },
            final(self).normal_bindings == old(self).normal_bindings,
            final(self).current_mode == old(self).current_mode,
            old(self).wf() ==> final(self).wf(),
    {
        let name = String::from_str(mode);
        match self.submap_position(&name) {
            Some(i) => {
                self.submaps[i].bindings.push(KeyBinding { keycode, modifiers, action });
                proof {
                    if old(self).wf() {
                        let before = old(self).submaps@;
                        let after = self.submaps@;
                        assert forall|a: int, b: int|
                            0 <= a < after.len() && 0 <= b < after.len() && a != b implies (
                        #[trigger] after[a]).name@ != (#[trigger] after[b]).name@ by {
                            assert(before[a].name@ != before[b].name@);
                        }
                    }
                }
            },
            None => {},
        }
    }

    /// The bindings in force.
    pub fn active_bindings(&self) -> (r: &Vec<KeyBinding>)
        ensures
            r@ == self.active(),
    {
        match &self.current_mode {
            Some(mode_name) => {
                match self.submap_position(mode_name) {
                    Some(i) => {
                        return &self.submaps[i].bindings;
                    },
                    None => {},
                }
            },
            None => {},
        }
        &self.normal_bindings
    }

    /// The action bound to `keycode` pressed with exactly `modifiers` in the
    /// active mode: that of the first such binding.
    pub fn find_action(&self, keycode: Keycode, modifiers: u16) -> (r: Option<KeyAction>)
        ensures
            r == match find_binding(self.active(), keycode, modifiers) {
                Some(i) => Some(self.active()[i].action),
                None => None,
            },
    {
        let bindings = self.active_bindings();
        let mut i: usize = 0;
        proof {
            assert(bindings@.take(0) =~= Seq::<KeyBinding>::empty());
        }
        while i < bindings.len()
            invariant
                bindings@ == self.active(),
                i <= bindings@.len(),
                find_binding(bindings@.take(i as int), keycode, modifiers) is None,
            decreases bindings@.len() - i,
        {
            proof {
                let t = bindings@.take(i + 1);
                assert(t.drop_last() =~= bindings@.take(i as int));
                assert(t.last() == bindings@[i as int]);
                lemma_find_binding_prefix(bindings@, keycode, modifiers, i + 1);
            }
            if bindings[i].keycode == keycode && bindings[i].modifiers == modifiers {
                assert(find_binding(bindings@.take(i + 1), keycode, modifiers) == Some(i as int));
                return Some(bindings[i].action.duplicate());
            }
            i = i + 1;
        }
        proof {
            assert(bindings@.take(bindings@.len() as int) =~= bindings@);
        }
        None
    }

    /// Enters the mode named `mode`. Where no mode has that name nothing
    /// happens.
    pub fn enter_mode(&mut self, mode: String)
        ensures
            *final(self) == old(self).entered(mode),
            old(self).wf() ==> final(self).wf(),
    {
        if self.submap_position(&mode).is_some() {
            self.current_mode = Some(mode);
        }
    }

    /// Goes back to the normal mode.
    pub fn exit_mode(&mut self)
        ensures
            *final(self) == old(self).exited(),
            old(self).wf() ==> final(self).wf(),
    {
        self.current_mode = None;
    }

    /// Whether the active mode is one that is left after a single action.
    pub fn should_auto_exit(&self) -> (r: bool)
        ensures
            r == self.is_oneshot(),
    {
        match &self.current_mode {
            Some(mode_name) => {
                match self.submap_position(mode_name) {
                    Some(i) => self.submaps[i].oneshot,
                    None => false,
                }
            },
            None => false,
        }
    }

    /// Whether the normal mode is active.
    pub fn is_normal_mode(&self) -> (r: bool)
        ensures
            r == (self.current_mode is None),
    {
        self.current_mode.is_none()
    }

    /// Whether a named mode is active.
    pub fn is_in_submap(&self) -> (r: bool)
        ensures
            r == (self.current_mode is Some),
    {
        self.current_mode.is_some()
    }
}

/// If the first `n` modes hold the name, the whole list has it at the same
/// index.
pub proof fn lemma_find_submap_prefix(submaps: Seq<SubMap>, name: Seq<char>, n: int)
    requires
        0 <= n <= submaps.len(),
    ensures
        find_submap(submaps.take(n), name) is Some ==> find_submap(submaps, name) == find_submap(
            submaps.take(n),
            name,
        ),
    decreases submaps.len() - n,
{
    if n < submaps.len() {
        let t = submaps.take(n + 1);
        assert(t.drop_last() =~= submaps.take(n));
        lemma_find_submap_prefix(submaps, name, n + 1);
    } else {
        assert(submaps.take(n) =~= submaps);
    }
}

/// If the first `n` bindings hold one for the key, the whole list has it at
/// the same index.
pub proof fn lemma_find_binding_prefix(
    bindings: Seq<KeyBinding>,
    keycode: Keycode,
    modifiers: u16,
    n: int,
)
    requires
        0 <= n <= bindings.len(),
    ensures
        find_binding(bindings.take(n), keycode, modifiers) is Some ==> find_binding(
            bindings,
            keycode,
            modifiers,
        ) == find_binding(bindings.take(n), keycode, modifiers),
    decreases bindings.len() - n,
{
    if n < bindings.len() {
        let t = bindings.take(n + 1);
        assert(t.drop_last() =~= bindings.take(n));
        lemma_find_binding_prefix(bindings, keycode, modifiers, n + 1);
    } else {
        assert(bindings.take(n) =~= bindings);
    }
}

} // verus!

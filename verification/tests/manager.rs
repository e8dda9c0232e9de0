use dxwm::alerts::{AlertSeed, Position};
use dxwm::atoms::Atoms;
use dxwm::clients::ClientState;
use dxwm::commands::{Command, Event, PropertyReply};
use dxwm::config::keybinds::Request;
use dxwm::geometry::Rect;
use dxwm::keybindings::{KeyAction, Report};
use dxwm::keyboard::{KeySymConverter, KeyboardGrabber, MOD_4, MOD_SHIFT};
use dxwm::layout::LayoutType;
use dxwm::utils::{XK_1, XK_2, XK_J, XK_RETURN};
use dxwm::wm::WindowManager;

const FOCUSED: u32 = 0xBBBBBB;
const UNFOCUSED: u32 = 0x444444;
const NET_WM_STATE: u32 = 105;
const FULLSCREEN: u32 = 106;

fn atoms() -> Atoms {
    Atoms::new(101, 102, 103, 104, NET_WM_STATE, FULLSCREEN, 107)
}

fn manager() -> WindowManager {
    WindowManager::new(0, 1, 1000, 800, atoms())
}

fn manager_with(windows: &[u32]) -> WindowManager {
    let mut wm = manager();
    for w in windows {
        wm.manage_client(*w, &vec![]);
    }
    wm.set_focused_client(windows.last().copied());
    wm
}

fn seed() -> AlertSeed {
    AlertSeed { window: 500, gc: 501, now: 1000 }
}

fn rect(x: i16, y: i16, width: u16, height: u16) -> Rect {
    Rect { x, y, width, height }
}

fn mv(window: u32, x: i16, y: i16, width: u16, height: u16) -> Command {
    Command::MoveResize { window, rect: rect(x, y, width, height) }
}

fn color(window: u32, color: u32) -> Command {
    Command::SetBorderColor { window, color }
}

fn geometry(wm: &WindowManager, window: u32) -> Rect {
    wm.workspaces.current().client(window).unwrap().rect()
}

fn draw(window: u32, gc: u32) -> Vec<Command> {
    vec![
        Command::CreateAlert { window, gc, rect: rect(790, 740, 200, 50) },
        Command::MapWindow { window },
        Command::Raise { window },
        Command::DrawText { window, gc, x: 20, y: 30 },
        Command::Flush,
    ]
}

#[test]
fn new_manager() {
    let wm = manager();
    assert_eq!(wm.screen_num, 0);
    assert_eq!(wm.root, 1);
    assert_eq!((wm.screen_width, wm.screen_height), (1000, 800));
    assert_eq!(wm.screen_rect(), rect(0, 0, 1000, 800));
    assert_eq!(wm.border_width, 1);
    assert_eq!(wm.border_focused_color, FOCUSED);
    assert_eq!(wm.border_unfocused_color, UNFOCUSED);
    assert_eq!(wm.workspaces.count(), 9);
    assert_eq!(wm.workspaces.current_workspace, 1);
    assert!(wm.alerts.is_empty());
    assert!(wm.keybindings.normal_bindings.is_empty());
    assert_eq!(wm.atoms, atoms());
    assert_eq!(wm.focused_client(), None);
    assert!(wm.clients().is_empty());
}

#[test]
fn managing_the_first_window() {
    let mut wm = manager();
    let cmds = wm.manage_client(10, &vec![]);
    assert_eq!(
        cmds,
        vec![
            Command::AdoptWindow { window: 10, border_color: UNFOCUSED },
            Command::SetBorderWidth { window: 10, width: 1 },
            Command::MapWindow { window: 10 },
            Command::SetInputFocus { window: 10 },
            Command::Raise { window: 10 },
            mv(10, 10, 10, 980, 780),
            Command::Flush,
            Command::Flush,
            color(10, FOCUSED),
            Command::Flush,
            Command::Flush,
            Command::Flush,
        ]
    );
    assert_eq!(wm.focused_client(), Some(10));
    assert_eq!(geometry(&wm, 10), rect(10, 10, 980, 780));
}

#[test]
fn managing_a_second_window_tiles_both() {
    let mut wm = manager_with(&[10]);
    let cmds = wm.manage_client(20, &vec![3, 4]);
    assert_eq!(
        cmds,
        vec![
            Command::AdoptWindow { window: 20, border_color: UNFOCUSED },
            Command::SetBorderWidth { window: 20, width: 1 },
            Command::MapWindow { window: 20 },
            mv(10, 10, 10, 480, 780),
            mv(20, 500, 10, 490, 780),
            Command::Flush,
            Command::Flush,
            color(10, FOCUSED),
            color(20, UNFOCUSED),
            Command::Flush,
            Command::Flush,
            Command::Flush,
        ]
    );
    assert_eq!(wm.focused_client(), Some(10));
    assert_eq!(geometry(&wm, 10), rect(10, 10, 480, 780));
    assert_eq!(geometry(&wm, 20), rect(500, 10, 490, 780));
    assert!(!wm.workspaces.current().client(20).unwrap().is_fullscreen);
    assert_eq!(wm.clients().len(), 2);
}

#[test]
fn a_mapped_window_does_not_take_the_focus() {
    let mut wm = manager();
    for w in [30, 10, 20] {
        let cmds = wm.manage_client(w, &vec![]);
        let focus_given = cmds.iter().any(|c| matches!(c, Command::SetInputFocus { .. }));
        assert_eq!(focus_given, w == 30);
        assert_eq!(wm.focused_client(), Some(30));
    }
    wm.set_focused_client(Some(10));
    wm.manage_client(40, &vec![FULLSCREEN]);
    assert_eq!(wm.focused_client(), Some(10));
    let out = wm.run(Event::MapRequest { window: 50, state: vec![] }, seed());
    assert!(!out.commands.iter().any(|c| matches!(c, Command::SetInputFocus { .. })));
    assert_eq!(wm.focused_client(), Some(10));
    assert_eq!(wm.workspaces.current().order, vec![30, 10, 20, 40, 50]);
    for w in [30u32, 10, 20, 50] {
        let r = geometry(&wm, w);
        assert!(r.width >= 50 && r.height >= 50);
    }
}

#[test]
fn a_mapped_window_takes_the_focus_that_nothing_has() {
    let mut wm = manager_with(&[10]);
    wm.set_focused_client(None);
    let cmds = wm.manage_client(20, &vec![]);
    assert_eq!(cmds[3], Command::SetInputFocus { window: 20 });
    assert_eq!(cmds[4], Command::Raise { window: 20 });
    assert_eq!(wm.focused_client(), Some(20));
    assert!(cmds.contains(&color(20, FOCUSED)));
    assert!(cmds.contains(&color(10, UNFOCUSED)));
}

#[test]
fn managing_a_window_that_declares_fullscreen() {
    let mut wm = manager_with(&[10]);
    let cmds = wm.manage_client(20, &vec![3, FULLSCREEN]);
    assert_eq!(
        cmds,
        vec![
            Command::AdoptWindow { window: 20, border_color: UNFOCUSED },
            Command::MapWindow { window: 20 },
            Command::Fullscreen { window: 20, width: 1000, height: 800 },
            Command::SetProperty { window: 20, property: NET_WM_STATE, value: FULLSCREEN },
            Command::Flush,
        ]
    );
    let state = wm.workspaces.current().client(20).unwrap();
    assert!(state.is_fullscreen);
    assert_eq!(state.rect(), rect(0, 0, 1000, 800));
    assert_eq!((state.saved_x, state.saved_y, state.saved_width, state.saved_height), (0, 0, 100, 100));
    assert_eq!(wm.focused_client(), Some(10));
    assert_eq!(geometry(&wm, 10), rect(10, 10, 980, 780));
}

#[test]
fn unmanaging_the_focused_window() {
    let mut wm = manager_with(&[10, 20, 30]);
    assert_eq!(wm.focused_client(), Some(30));
    let cmds = wm.unmanage_client(30);
    assert_eq!(
        cmds,
        vec![
            Command::SetInputFocus { window: 10 },
            Command::Raise { window: 10 },
            mv(10, 10, 10, 480, 780),
            mv(20, 500, 10, 490, 780),
            Command::Flush,
            Command::Flush,
            color(10, FOCUSED),
            color(20, UNFOCUSED),
            Command::Flush,
            Command::Flush,
            Command::Flush,
            Command::Flush,
        ]
    );
    assert_eq!(wm.focused_client(), Some(10));
    let moves_of_10 = cmds
        .iter()
        .filter(|c| matches!(c, Command::MoveResize { window: 10, .. }))
        .count();
    assert_eq!(moves_of_10, 1);
    assert!(!wm.clients().contains_key(&30));
}

#[test]
fn unmanaging_an_unfocused_window() {
    let mut wm = manager_with(&[10, 20, 30]);
    let cmds = wm.unmanage_client(10);
    assert_eq!(
        cmds,
        vec![
            mv(20, 10, 10, 480, 780),
            mv(30, 500, 10, 490, 780),
            Command::Flush,
            Command::Flush,
            color(20, UNFOCUSED),
            color(30, FOCUSED),
            Command::Flush,
            Command::Flush,
            Command::Flush,
            Command::Flush,
        ]
    );
    assert_eq!(wm.focused_client(), Some(30));
}

#[test]
fn unmanaging_the_last_and_an_unknown_window() {
    let mut wm = manager_with(&[10]);
    assert_eq!(wm.unmanage_client(10), vec![Command::Flush, Command::Flush]);
    assert_eq!(wm.focused_client(), None);
    assert_eq!(wm.unmanage_client(99), vec![Command::Flush, Command::Flush]);
}

#[test]
fn focus_next_and_prev_commands() {
    let mut wm = manager_with(&[10, 20]);
    let cmds = wm.focus_next();
    assert_eq!(
        cmds,
        vec![
            Command::SetInputFocus { window: 10 },
            Command::Raise { window: 10 },
            color(10, FOCUSED),
            color(20, UNFOCUSED),
            Command::Flush,
            Command::Flush,
            Command::Flush,
            Command::Flush,
        ]
    );
    assert_eq!(wm.focused_client(), Some(10));
    let cmds = wm.focus_prev();
    assert_eq!(cmds[0], Command::SetInputFocus { window: 20 });
    assert_eq!(cmds[1], Command::Raise { window: 20 });
    assert_eq!(cmds[2], color(10, UNFOCUSED));
    assert_eq!(cmds[3], color(20, FOCUSED));
    assert_eq!(wm.focused_client(), Some(20));
}

#[test]
fn focus_steps_need_two_windows() {
    let mut wm = manager();
    assert!(wm.focus_next().is_empty());
    assert!(wm.focus_prev().is_empty());
    wm.manage_client(10, &vec![]);
    assert!(wm.focus_next().is_empty());
    assert!(wm.focus_prev().is_empty());
    assert_eq!(wm.focused_client(), Some(10));
}

#[test]
fn focus_follows_the_pointer() {
    let mut wm = manager_with(&[10, 20]);
    let cmds = wm.focus_on_enter(10);
    assert_eq!(
        cmds,
        vec![
            Command::SetInputFocus { window: 10 },
            Command::Raise { window: 10 },
            color(10, FOCUSED),
            color(20, UNFOCUSED),
            Command::Flush,
            Command::Flush,
            Command::Flush,
        ]
    );
    assert_eq!(wm.focused_client(), Some(10));
    assert!(wm.focus_on_enter(10).is_empty());
    assert!(wm.focus_on_enter(99).is_empty());
    assert_eq!(wm.focused_client(), Some(10));
}

#[test]
fn set_focused_client_refuses_unknown_windows() {
    let mut wm = manager_with(&[10, 20]);
    wm.set_focused_client(Some(99));
    assert_eq!(wm.focused_client(), Some(20));
    wm.set_focused_client(Some(10));
    assert_eq!(wm.focused_client(), Some(10));
    wm.set_focused_client(None);
    assert_eq!(wm.focused_client(), None);
}

#[test]
fn border_colours() {
    let wm = manager_with(&[10, 20, 30]);
    assert_eq!(
        wm.update_window_borders(),
        vec![
            color(10, UNFOCUSED),
            color(20, UNFOCUSED),
            color(30, FOCUSED),
            Command::Flush,
            Command::Flush,
        ]
    );
}

#[test]
fn fullscreen_and_back() {
    let mut wm = manager_with(&[10, 20]);
    let before = geometry(&wm, 10);
    assert_eq!(before, rect(10, 10, 480, 780));
    let cmds = wm.toggle_fullscreen(10);
    assert_eq!(
        cmds,
        vec![
            Command::Fullscreen { window: 10, width: 1000, height: 800 },
            Command::SetProperty { window: 10, property: NET_WM_STATE, value: FULLSCREEN },
            Command::Flush,
        ]
    );
    let state = wm.workspaces.current().client(10).unwrap();
    assert!(state.is_fullscreen);
    assert_eq!(state.rect(), rect(0, 0, 1000, 800));
    let cmds = wm.toggle_fullscreen(10);
    assert_eq!(
        cmds,
        vec![
            Command::Restore { window: 10, rect: before, border_width: 1 },
            Command::DeleteProperty { window: 10, property: NET_WM_STATE },
            Command::Flush,
            mv(10, 10, 10, 480, 780),
            mv(20, 500, 10, 490, 780),
            Command::Flush,
            Command::Flush,
        ]
    );
    let state = wm.workspaces.current().client(10).unwrap();
    assert!(!state.is_fullscreen);
    assert_eq!(state.rect(), before);
}

#[test]
fn fullscreen_round_trip_in_floating_layout() {
    let mut wm = manager_with(&[10]);
    let mut c = wm.layout_config();
    c.current = LayoutType::Floating;
    wm.set_layout_config(c);
    let mut state = wm.workspaces.current().client(10).unwrap();
    state.set_geometry(rect(33, 44, 555, 444));
    wm.workspaces.current_mut().set_client(10, state);
    wm.fullscreen_window(10);
    wm.fullscreen_window(10);
    let cmds = wm.unfullscreen_window(10);
    assert_eq!(cmds[0], Command::Restore { window: 10, rect: rect(33, 44, 555, 444), border_width: 1 });
    assert_eq!(geometry(&wm, 10), rect(33, 44, 555, 444));
}

#[test]
fn fullscreen_window_is_left_out_of_the_layout() {
    let mut wm = manager_with(&[10, 20, 30]);
    wm.fullscreen_window(20);
    let cmds = wm.layout();
    assert_eq!(
        cmds,
        vec![mv(10, 10, 10, 480, 780), mv(30, 500, 10, 490, 780), Command::Flush, Command::Flush]
    );
    assert_eq!(geometry(&wm, 20), rect(0, 0, 1000, 800));
}

#[test]
fn fullscreen_of_an_unknown_window() {
    let mut wm = manager_with(&[10]);
    assert_eq!(wm.fullscreen_window(99).len(), 3);
    assert!(wm.unfullscreen_window(99).is_empty());
    assert!(wm.toggle_fullscreen(99).is_empty());
    assert_eq!(wm.clients().len(), 1);
}

#[test]
fn state_requests() {
    let mut wm = manager_with(&[10]);
    assert!(wm.handle_state_request(10, 1, 5, 6).is_empty());
    assert!(wm.handle_state_request(10, 3, FULLSCREEN, 0).is_empty());
    assert!(!wm.workspaces.current().client(10).unwrap().is_fullscreen);
    let cmds = wm.handle_state_request(10, 1, FULLSCREEN, 0);
    assert_eq!(cmds[0], Command::Fullscreen { window: 10, width: 1000, height: 800 });
    assert!(wm.workspaces.current().client(10).unwrap().is_fullscreen);
    let cmds = wm.handle_state_request(10, 0, 0, FULLSCREEN);
    assert_eq!(cmds[0], Command::Restore { window: 10, rect: rect(10, 10, 980, 780), border_width: 1 });
    assert!(!wm.workspaces.current().client(10).unwrap().is_fullscreen);
    wm.handle_state_request(10, 2, FULLSCREEN, 0);
    assert!(wm.workspaces.current().client(10).unwrap().is_fullscreen);
    wm.handle_state_request(10, 2, 0, FULLSCREEN);
    assert!(!wm.workspaces.current().client(10).unwrap().is_fullscreen);
}

#[test]
fn closing_windows() {
    let wm = manager_with(&[10]);
    assert_eq!(wm.close_window(10, true), vec![Command::RequestClose { window: 10 }, Command::Flush]);
    assert_eq!(wm.close_window(10, false), vec![Command::DestroyWindow { window: 10 }, Command::Flush]);
    assert_eq!(wm.close_focused_window(true), vec![Command::RequestClose { window: 10 }, Command::Flush]);
    assert!(manager().close_focused_window(true).is_empty());
}

#[test]
fn protocol_support() {
    let wm = manager();
    let reply = PropertyReply { type_: 4, format: 32, value: vec![104, 102] };
    assert!(wm.window_supports_protocol(Some(&reply), 102));
    assert!(!wm.window_supports_protocol(Some(&reply), 103));
    assert!(!wm.window_supports_protocol(None, 102));
    let wrong_type = PropertyReply { type_: 31, format: 32, value: vec![102] };
    assert!(!wm.window_supports_protocol(Some(&wrong_type), 102));
    let wrong_format = PropertyReply { type_: 4, format: 8, value: vec![102] };
    assert!(!wm.window_supports_protocol(Some(&wrong_format), 102));
}

#[test]
fn switching_workspaces() {
    let mut wm = manager_with(&[10, 20]);
    let cmds = wm.switch_to_workspace(2);
    assert_eq!(
        cmds,
        vec![
            Command::UnmapWindow { window: 10 },
            Command::UnmapWindow { window: 20 },
            Command::Flush,
        ]
    );
    assert_eq!(wm.workspaces.current_workspace, 2);
    assert_eq!(wm.workspaces.last_workspace, 1);
    let cmds = wm.switch_to_workspace(1);
    assert_eq!(
        cmds,
        vec![
            Command::MapWindow { window: 10 },
            Command::MapWindow { window: 20 },
            Command::SetInputFocus { window: 20 },
            mv(10, 10, 10, 480, 780),
            mv(20, 500, 10, 490, 780),
            Command::Flush,
            Command::Flush,
            Command::Flush,
        ]
    );
    assert_eq!((wm.workspaces.current_workspace, wm.workspaces.last_workspace), (1, 2));
}

#[test]
fn switching_to_the_current_workspace_does_nothing() {
    let mut wm = manager_with(&[10, 20]);
    for _ in 0..3 {
        assert!(wm.switch_to_workspace(1).is_empty());
        assert_eq!((wm.workspaces.current_workspace, wm.workspaces.last_workspace), (1, 1));
        assert_eq!(wm.clients().len(), 2);
    }
    assert!(wm.switch_to_workspace(0).is_empty());
    assert!(wm.switch_to_workspace(10).is_empty());
    assert_eq!(wm.workspaces.current_workspace, 1);
}

#[test]
fn cycling_to_the_last_workspace() {
    let mut wm = manager();
    assert!(wm.cycle_last_workspace().is_empty());
    wm.switch_to_workspace(4);
    assert_eq!(wm.cycle_last_workspace(), vec![Command::Flush]);
    assert_eq!((wm.workspaces.current_workspace, wm.workspaces.last_workspace), (1, 4));
    wm.cycle_last_workspace();
    assert_eq!((wm.workspaces.current_workspace, wm.workspaces.last_workspace), (4, 1));
}

#[test]
fn moving_the_focused_window() {
    let mut wm = manager_with(&[10, 20]);
    let cmds = wm.move_focused_to_workspace(2);
    assert_eq!(
        cmds,
        vec![
            Command::UnmapWindow { window: 20 },
            Command::SetInputFocus { window: 10 },
            Command::Raise { window: 10 },
            color(10, FOCUSED),
            Command::Flush,
            Command::Flush,
            mv(10, 10, 10, 980, 780),
            Command::Flush,
            Command::Flush,
            Command::Flush,
        ]
    );
    assert_eq!(wm.focused_client(), Some(10));
    assert!(wm.workspaces.get(2).unwrap().contains(20));
    assert_eq!(wm.workspaces.get(2).unwrap().client(20).unwrap().rect(), rect(500, 10, 490, 780));
}

#[test]
fn moving_to_a_missing_workspace_fails() {
    let mut wm = manager_with(&[10, 20]);
    assert!(wm.move_focused_to_workspace(11).is_empty());
    assert!(wm.move_focused_to_workspace(0).is_empty());
    assert!(wm.move_focused_to_workspace(1).is_empty());
    assert_eq!(wm.clients().len(), 2);
    assert_eq!(wm.focused_client(), Some(20));
    assert_eq!(geometry(&wm, 20), rect(500, 10, 490, 780));
    assert!(manager().move_focused_to_workspace(2).is_empty());
}

#[test]
fn layout_of_an_empty_workspace() {
    let mut wm = manager();
    assert!(wm.layout().is_empty());
    assert!(wm.apply_master_stack_layout().is_empty());
    assert!(wm.apply_grid_layout().is_empty());
    assert!(wm.apply_monocle_layout().is_empty());
}

#[test]
fn named_layouts() {
    let mut wm = manager_with(&[10, 20]);
    assert_eq!(
        wm.apply_monocle_layout(),
        vec![mv(10, 10, 10, 980, 780), mv(20, 10, 10, 980, 780), Command::Raise { window: 20 }]
    );
    assert_eq!(geometry(&wm, 10), rect(10, 10, 980, 780));
    assert_eq!(
        wm.apply_grid_layout(),
        vec![mv(10, 10, 10, 485, 780), mv(20, 505, 10, 485, 780)]
    );
    assert_eq!(
        wm.apply_master_stack_layout(),
        vec![mv(10, 10, 10, 480, 780), mv(20, 500, 10, 490, 780)]
    );
    assert_eq!(geometry(&wm, 20), rect(500, 10, 490, 780));
}

#[test]
fn changing_layout_parameters() {
    let mut wm = manager_with(&[10, 20]);
    assert_eq!(
        wm.increase_master_ratio(),
        vec![mv(10, 10, 10, 529, 780), mv(20, 549, 10, 441, 780), Command::Flush, Command::Flush]
    );
    assert_eq!(wm.layout_config().master_ratio, 55);
    wm.decrease_master_ratio();
    wm.decrease_master_ratio();
    assert_eq!(wm.layout_config().master_ratio, 45);
    assert!(wm.decrease_nmaster().is_empty());
    assert_eq!(wm.layout_config().nmaster, 1);
    wm.adjust_master_ratio(5);
    assert_eq!(
        wm.increase_nmaster(),
        vec![mv(10, 10, 10, 980, 385), mv(20, 10, 405, 980, 385), Command::Flush, Command::Flush]
    );
    assert_eq!(wm.decrease_nmaster().len(), 4);
    assert_eq!(wm.layout_config().nmaster, 1);
    assert_eq!(
        wm.increase_gap(),
        vec![mv(10, 10, 10, 475, 780), mv(20, 500, 10, 490, 780), Command::Flush, Command::Flush]
    );
    assert_eq!(wm.layout_config().gap_size, 15);
    wm.decrease_gap();
    wm.decrease_gap();
    wm.decrease_gap();
    wm.decrease_gap();
    assert_eq!(wm.layout_config().gap_size, 0);
    wm.adjust_gap(10);
    assert_eq!(
        wm.next_layout(),
        vec![
            mv(10, 10, 10, 980, 780),
            mv(20, 10, 10, 980, 780),
            Command::Raise { window: 20 },
            Command::Flush,
            Command::Flush,
        ]
    );
    assert_eq!(wm.layout_config().current, LayoutType::Monocle);
    wm.next_layout();
    assert_eq!(wm.layout_config().current, LayoutType::Grid);
    assert_eq!(wm.next_layout(), vec![Command::Flush, Command::Flush]);
    assert_eq!(wm.layout_config().current, LayoutType::Floating);
    wm.next_layout();
    assert_eq!(wm.layout_config().current, LayoutType::MasterStack);
}

#[test]
fn rotating_and_promoting() {
    let mut wm = manager_with(&[10, 20, 30]);
    let cmds = wm.rotate_windows();
    assert_eq!(
        cmds,
        vec![
            mv(20, 10, 10, 480, 780),
            mv(30, 500, 10, 490, 385),
            mv(10, 500, 405, 490, 385),
            Command::Flush,
            Command::Flush,
        ]
    );
    wm.set_focused_client(Some(20));
    let cmds = wm.rotate_windows();
    assert_eq!(cmds[0], Command::SetInputFocus { window: 30 });
    assert_eq!(cmds[1], Command::Raise { window: 30 });
    assert_eq!(wm.focused_client(), Some(30));
    assert_eq!(wm.workspaces.current().order, vec![30, 10, 20]);
    wm.set_focused_client(Some(20));
    let cmds = wm.promote_to_master();
    assert_eq!(
        cmds,
        vec![
            mv(20, 10, 10, 480, 780),
            mv(30, 500, 10, 490, 385),
            mv(10, 500, 405, 490, 385),
            Command::Flush,
            Command::Flush,
        ]
    );
    assert_eq!(wm.workspaces.current().order, vec![20, 30, 10]);
    assert!(manager().promote_to_master().is_empty());
    assert!(manager_with(&[10]).rotate_windows().is_empty());
}

#[test]
fn overlays() {
    let mut wm = manager_with(&[10]);
    let mut expected = vec![Command::Flush];
    expected.extend(draw(500, 501));
    assert_eq!(wm.draw_alert(String::from("hello"), seed()), expected);
    assert_eq!(wm.alerts.len(), 1);
    assert_eq!(wm.alerts[0].window, 500);
    assert_eq!(wm.alerts[0].gc, 501);
    assert_eq!(wm.alerts[0].message, "hello");
    assert_eq!(wm.alerts[0].created_at, 1000);
    assert_eq!(wm.restack_alerts(), vec![Command::Raise { window: 500 }, Command::Flush]);
    assert_eq!(
        wm.layout(),
        vec![mv(10, 10, 10, 980, 780), Command::Raise { window: 500 }, Command::Flush, Command::Flush]
    );
    let mut expected = vec![
        Command::FreeGc { gc: 501 },
        Command::DestroyWindow { window: 500 },
        Command::Flush,
    ];
    expected.extend(draw(600, 601));
    assert_eq!(
        wm.draw_alert(String::from("again"), AlertSeed { window: 600, gc: 601, now: 2000 }),
        expected
    );
    assert_eq!(wm.alerts.len(), 1);
    assert_eq!(wm.alerts[0].message, "again");
    assert_eq!(
        wm.clear_alerts(),
        vec![Command::FreeGc { gc: 601 }, Command::DestroyWindow { window: 600 }, Command::Flush]
    );
    assert!(wm.alerts.is_empty());
    assert_eq!(wm.clear_alerts(), vec![Command::Flush]);
}

#[test]
fn old_overlays_are_cleared() {
    let mut wm = manager();
    wm.draw_alert(String::from("a"), seed());
    assert_eq!(wm.clear_old_alerts(4000), vec![Command::Flush]);
    assert_eq!(wm.clear_old_alerts(500), vec![Command::Flush]);
    assert_eq!(wm.alerts.len(), 1);
    assert_eq!(
        wm.clear_old_alerts(4001),
        vec![Command::FreeGc { gc: 501 }, Command::DestroyWindow { window: 500 }, Command::Flush]
    );
    assert!(wm.alerts.is_empty());
}

#[test]
fn overlays_are_drawn_again_on_expose() {
    let mut wm = manager();
    wm.draw_alert(String::from("a"), seed());
    let redraw = vec![Command::DrawText { window: 500, gc: 501, x: 20, y: 30 }, Command::Flush];
    assert_eq!(wm.expose(500, 0), redraw);
    assert!(wm.expose(500, 2).is_empty());
    assert!(wm.expose(10, 0).is_empty());
    assert_eq!(wm.redraw_alert(&wm.alerts[0]), redraw);
}

#[test]
fn overlay_positions() {
    let wm = manager();
    assert_eq!(wm.position(Position::TopLeft, 200, 50), rect(10, 10, 200, 50));
    assert_eq!(wm.position(Position::TopRight, 200, 50), rect(790, 10, 200, 50));
    assert_eq!(wm.position(Position::Center, 200, 50), rect(400, 375, 200, 50));
    assert_eq!(wm.position(Position::BottomLeft, 200, 50), rect(10, 740, 200, 50));
    assert_eq!(wm.position(Position::BottomRight, 200, 50), rect(790, 740, 200, 50));
    let small = WindowManager::new(0, 1, 100, 40, atoms());
    assert_eq!(small.position(Position::BottomRight, 200, 50), rect(-110, -20, 200, 50));
    assert_eq!(small.position(Position::Center, 200, 50), rect(0, 0, 200, 50));
}

#[test]
fn banishing_the_pointer() {
    assert_eq!(manager().banish(), vec![Command::WarpPointer { x: 1000, y: 800 }, Command::Flush]);
    let wide = WindowManager::new(0, 1, 40000, 800, atoms());
    assert_eq!(wide.banish(), vec![Command::WarpPointer { x: 32767, y: 800 }, Command::Flush]);
}

#[test]
fn events_are_dispatched() {
    let mut wm = manager();
    let out = wm.run(Event::MapRequest { window: 10, state: vec![] }, seed());
    assert_eq!(out.commands, manager().manage_client(10, &vec![]));
    assert!(matches!(out.request, Request::Nothing));
    wm.run(Event::MapRequest { window: 20, state: vec![] }, seed());
    assert_eq!(wm.focused_client(), Some(10));
    let out = wm.run(Event::EnterNotify { window: 10 }, seed());
    assert!(out.commands.is_empty());
    let out = wm.run(Event::EnterNotify { window: 20 }, seed());
    assert_eq!(out.commands[0], Command::SetInputFocus { window: 20 });
    assert_eq!(wm.focused_client(), Some(20));
    let out = wm.run(Event::EnterNotify { window: 10 }, seed());
    assert_eq!(out.commands[0], Command::SetInputFocus { window: 10 });
    assert_eq!(wm.focused_client(), Some(10));
    let out = wm.run(
        Event::ClientMessage { window: 10, kind: NET_WM_STATE, action: 1, first: FULLSCREEN, second: 0 },
        seed(),
    );
    assert_eq!(out.commands[0], Command::Fullscreen { window: 10, width: 1000, height: 800 });
    let out = wm.run(
        Event::ClientMessage { window: 10, kind: 77, action: 0, first: FULLSCREEN, second: 0 },
        seed(),
    );
    assert!(out.commands.is_empty());
    assert!(wm.workspaces.current().client(10).unwrap().is_fullscreen);
    let out = wm.run(Event::Other, seed());
    assert!(out.commands.is_empty());
    let out = wm.run(Event::UnmapNotify { window: 20 }, seed());
    assert!(!out.commands.is_empty());
    assert!(!wm.clients().contains_key(&20));
    let out = wm.run(Event::DestroyNotify { window: 10 }, seed());
    assert_eq!(out.commands, vec![Command::Flush, Command::Flush]);
    assert!(wm.clients().is_empty());
    wm.draw_alert(String::from("x"), seed());
    let out = wm.run(Event::Expose { window: 500, count: 0 }, seed());
    assert_eq!(out.commands.len(), 2);
    let out = wm.run(Event::Expose { window: 500, count: 1 }, seed());
    assert!(out.commands.is_empty());
}

fn bound_manager() -> WindowManager {
    let mut wm = manager_with(&[10, 20]);
    wm.keybindings.bind_normal(30, MOD_4, KeyAction::FocusNext);
    wm.keybindings.bind_normal(31, MOD_4, KeyAction::Spawn(String::from("alacritty")));
    wm.keybindings.bind_normal(32, MOD_4, KeyAction::EnterMode(String::from("apps")));
    wm.keybindings.bind_normal(33, MOD_4, KeyAction::SwitchWorkspace(2));
    wm.keybindings.bind_normal(34, MOD_4, KeyAction::MoveToWorkspace(3));
    wm.keybindings.bind_normal(35, MOD_4, KeyAction::NextLayout);
    wm.keybindings.bind_normal(36, MOD_4, KeyAction::Quit);
    wm.keybindings.bind_normal(37, MOD_4, KeyAction::CloseWindow);
    wm.keybindings.bind_normal(38, 0, KeyAction::Report(Report::VolumeUp));
    wm.keybindings.bind_normal(39, MOD_4, KeyAction::EnterMode(String::from("nav")));
    wm.keybindings.bind_normal(40, MOD_4, KeyAction::ClearAlerts);
    wm.keybindings.bind_normal(41, MOD_4, KeyAction::SwitchWorkspace(1));
    wm.keybindings.add_submap(String::from("apps"), true);
    wm.keybindings.bind_in_mode("apps", 50, 0, KeyAction::Spawn(String::from("pcmanfm")));
    wm.keybindings.bind_in_mode("apps", 9, 0, KeyAction::ExitMode);
    wm.keybindings.add_submap(String::from("nav"), false);
    wm.keybindings.bind_in_mode("nav", 51, 0, KeyAction::FocusPrev);
    wm
}

#[test]
fn key_press_runs_the_bound_action() {
    let mut wm = bound_manager();
    let out = wm.handle_key_press(30, MOD_4, seed());
    assert_eq!(out.commands[0], Command::SetInputFocus { window: 10 });
    assert!(matches!(out.request, Request::Nothing));
    assert_eq!(wm.focused_client(), Some(10));
    let out = wm.handle_key_press(31, MOD_4, seed());
    assert!(out.commands.is_empty());
    assert!(matches!(out.request, Request::Spawn(ref s) if s == "alacritty"));
    let out = wm.handle_key_press(36, MOD_4, seed());
    assert!(matches!(out.request, Request::Quit));
    let out = wm.handle_key_press(37, MOD_4, seed());
    assert!(matches!(out.request, Request::Close(10)));
    let out = wm.handle_key_press(38, 0, seed());
    assert!(matches!(out.request, Request::Report(Report::VolumeUp)));
    let out = wm.run(Event::KeyPress { keycode: 36, state: MOD_4 }, seed());
    assert!(matches!(out.request, Request::Quit));
}

#[test]
fn unbound_key_in_normal_mode_does_nothing() {
    let mut wm = bound_manager();
    let out = wm.handle_key_press(99, MOD_4, seed());
    assert!(out.commands.is_empty());
    assert!(matches!(out.request, Request::Nothing));
    let out = wm.handle_key_press(30, MOD_4 | MOD_SHIFT, seed());
    assert!(out.commands.is_empty());
    assert!(wm.alerts.is_empty());
}

#[test]
fn entering_and_leaving_a_mode_by_key() {
    let mut wm = bound_manager();
    let out = wm.handle_key_press(39, MOD_4, seed());
    let mut expected = vec![Command::Flush];
    expected.extend(draw(500, 501));
    expected.extend(vec![Command::UngrabAllKeys, Command::GrabAllKeys, Command::Flush]);
    assert_eq!(out.commands, expected);
    assert_eq!(wm.keybindings.current_mode, Some(String::from("nav")));
    assert_eq!(wm.alerts[0].message, "[MODE] NAV");
    let out = wm.handle_key_press(51, 0, AlertSeed { window: 600, gc: 601, now: 2000 });
    assert_eq!(out.commands[0], Command::SetInputFocus { window: 10 });
    assert_eq!(wm.keybindings.current_mode, Some(String::from("nav")));
    let out = wm.handle_key_press(77, 0, AlertSeed { window: 600, gc: 601, now: 2000 });
    assert_eq!(wm.alerts[0].message, "[ERR] KEY");
    assert!(wm.keybindings.is_normal_mode());
    assert_eq!(out.commands[0], Command::FreeGc { gc: 501 });
    assert_eq!(out.commands[out.commands.len() - 1], Command::Flush);
    assert!(out.commands.contains(&Command::GrabKey { keycode: 30, modifiers: 64, must_succeed: true }));
    assert!(!out.commands.contains(&Command::GrabAllKeys));
}

#[test]
fn one_shot_mode_is_left_after_one_action() {
    let mut wm = bound_manager();
    wm.handle_key_press(32, MOD_4, seed());
    assert_eq!(wm.keybindings.current_mode, Some(String::from("apps")));
    assert_eq!(wm.alerts[0].message, "[MODE] APPS");
    let out = wm.handle_key_press(50, 0, seed());
    assert!(matches!(out.request, Request::Spawn(ref s) if s == "pcmanfm"));
    assert!(wm.keybindings.is_normal_mode());
    assert_eq!(out.commands[0], Command::UngrabAllKeys);
    assert_eq!(out.commands.len(), 2 + 2 * 12);
    wm.handle_key_press(32, MOD_4, seed());
    let out = wm.handle_key_press(9, 0, AlertSeed { window: 600, gc: 601, now: 2000 });
    assert!(wm.keybindings.is_normal_mode());
    assert_eq!(wm.alerts[0].message, "[MODE] NORMAL");
    let ungrabs = out.commands.iter().filter(|c| matches!(c, Command::UngrabAllKeys)).count();
    assert_eq!(ungrabs, 1);
}

#[test]
fn workspace_keys_announce_the_change() {
    let mut wm = bound_manager();
    let out = wm.handle_key_press(33, MOD_4, seed());
    assert_eq!(wm.workspaces.current_workspace, 2);
    assert_eq!(wm.alerts[0].message, "[WS] 2");
    let mut expected = vec![
        Command::UnmapWindow { window: 10 },
        Command::UnmapWindow { window: 20 },
        Command::Flush,
        Command::Flush,
    ];
    expected.extend(draw(500, 501));
    assert_eq!(out.commands, expected);
    let out = wm.handle_key_press(33, MOD_4, AlertSeed { window: 600, gc: 601, now: 2000 });
    assert!(out.commands.is_empty());
    assert_eq!(wm.alerts[0].message, "[WS] 2");
    wm.handle_key_press(41, MOD_4, AlertSeed { window: 600, gc: 601, now: 2000 });
    assert_eq!(wm.alerts[0].message, "[WS] 1");
    wm.handle_key_press(34, MOD_4, AlertSeed { window: 700, gc: 701, now: 3000 });
    assert_eq!(wm.alerts[0].message, "[MVWS] 3");
    assert!(wm.workspaces.get(3).unwrap().contains(20));
    wm.handle_key_press(35, MOD_4, AlertSeed { window: 800, gc: 801, now: 4000 });
    assert_eq!(wm.alerts[0].message, "[LAY] Monocle");
    let out = wm.handle_key_press(40, MOD_4, seed());
    assert_eq!(
        out.commands,
        vec![Command::FreeGc { gc: 801 }, Command::DestroyWindow { window: 800 }, Command::Flush]
    );
    assert!(wm.alerts.is_empty());
}

#[test]
fn actions_of_the_command_surface() {
    let mut wm = manager_with(&[10, 20]);
    let out = wm.execute_action(KeyAction::AdjustMasterRatio(5), seed());
    assert_eq!(out.commands[0], mv(10, 10, 10, 529, 780));
    let out = wm.execute_action(KeyAction::AdjustNmaster(1), seed());
    assert_eq!(out.commands[0], mv(10, 10, 10, 980, 385));
    let out = wm.execute_action(KeyAction::AdjustNmaster(-1), seed());
    assert_eq!(out.commands[0], mv(10, 10, 10, 529, 780));
    let out = wm.execute_action(KeyAction::AdjustGap(-10), seed());
    assert_eq!(out.commands[0], mv(10, 10, 10, 539, 780));
    let out = wm.execute_action(KeyAction::PromoteToMaster, seed());
    assert_eq!(out.commands[0], mv(20, 10, 10, 539, 780));
    let out = wm.execute_action(KeyAction::RotateStack, seed());
    assert_eq!(out.commands[0], Command::SetInputFocus { window: 10 });
    let out = wm.execute_action(KeyAction::ToggleFullscreen, seed());
    assert_eq!(out.commands[0], Command::Fullscreen { window: 10, width: 1000, height: 800 });
    let out = wm.execute_action(KeyAction::Banish, seed());
    assert_eq!(out.commands, vec![Command::WarpPointer { x: 1000, y: 800 }, Command::Flush]);
    let out = wm.execute_action(KeyAction::CycleLastWorkspace, seed());
    assert!(out.commands.is_empty());
    let out = wm.execute_action(KeyAction::FocusPrev, seed());
    assert_eq!(out.commands[0], Command::SetInputFocus { window: 20 });
    assert!(wm.alerts.is_empty());
}

#[test]
fn configured_bindings() {
    let mut keysyms = vec![0u32; 2 * 248];
    keysyms[0] = XK_1;
    keysyms[2] = XK_2;
    keysyms[4] = XK_J;
    keysyms[7] = XK_RETURN;
    let grabber = KeyboardGrabber::new(1, KeySymConverter::new(8, 255, 2, &keysyms));
    let mut wm = manager();
    wm.keybindings.bind_normal(99, 0, KeyAction::Quit);
    let cmds = wm.setup_keybindings(&grabber);
    let normal = &wm.keybindings.normal_bindings;
    let summary: Vec<(u8, u16)> = normal.iter().map(|b| (b.keycode, b.modifiers)).collect();
    assert_eq!(
        summary,
        vec![(8, 64), (9, 64), (8, 65), (9, 65), (11, 64), (10, 64), (10, 65), (11, 65)]
    );
    assert!(matches!(normal[0].action, KeyAction::SwitchWorkspace(1)));
    assert!(matches!(normal[1].action, KeyAction::SwitchWorkspace(2)));
    assert!(matches!(normal[2].action, KeyAction::MoveToWorkspace(1)));
    assert!(matches!(normal[3].action, KeyAction::MoveToWorkspace(2)));
    assert!(matches!(normal[4].action, KeyAction::Spawn(ref s) if s == "alacritty"));
    assert!(matches!(normal[5].action, KeyAction::FocusNext));
    assert!(matches!(normal[6].action, KeyAction::RotateStack));
    assert!(matches!(normal[7].action, KeyAction::PromoteToMaster));
    let names: Vec<&str> = wm.keybindings.submaps.iter().map(|s| s.name.as_str()).collect();
    assert_eq!(names, vec!["nav", "apps", "alerts"]);
    let oneshot: Vec<bool> = wm.keybindings.submaps.iter().map(|s| s.oneshot).collect();
    assert_eq!(oneshot, vec![false, true, true]);
    assert_eq!(wm.keybindings.submaps[0].bindings.len(), 1);
    assert!(matches!(wm.keybindings.submaps[0].bindings[0].action, KeyAction::FocusNext));
    assert!(wm.keybindings.submaps[1].bindings.is_empty());
    assert!(wm.keybindings.is_normal_mode());
    assert_eq!(cmds, wm.update_grabs());
    assert_eq!(cmds.len(), 2 + 2 * 8);
    assert_eq!(wm.setup_keybindings(&grabber), cmds);
    assert_eq!(wm.keybindings.normal_bindings.len(), 8);
}

#[test]
fn managing_a_window_again_resets_its_state() {
    let mut wm = manager_with(&[10, 20]);
    wm.fullscreen_window(10);
    wm.manage_client(10, &vec![]);
    let state = wm.workspaces.current().client(10).unwrap();
    assert!(!state.is_fullscreen);
    assert_eq!(wm.workspaces.current().order, vec![10, 20]);
    assert_eq!(wm.focused_client(), Some(20));
    assert_eq!(state, {
        let mut s = ClientState::default();
        s.set_geometry(rect(10, 10, 480, 780));
        s
    });
}

#[test]
fn client_records_can_be_changed_in_place() {
    let mut wm = manager_with(&[10, 20]);
    let moved = ClientState::new(1, 2, 300, 400);
    wm.clients_mut().insert(10, moved);
    assert_eq!(wm.clients().get(&10), Some(&moved));
    assert_eq!(wm.workspaces.current().client(10), Some(moved));
    assert_eq!(wm.workspaces.current().order, vec![10, 20]);
    assert_eq!(wm.focused_client(), Some(20));
}

#[test]
fn layout_twice_changes_nothing_more() {
    for kind in [LayoutType::MasterStack, LayoutType::Monocle, LayoutType::Grid, LayoutType::Floating] {
        let mut wm = manager_with(&[10, 20, 30, 40]);
        wm.fullscreen_window(30);
        let mut c = wm.layout_config();
        c.current = kind;
        let first = wm.set_layout_config(c);
        let after_first: Vec<ClientState> =
            [10, 20, 30, 40].iter().map(|w| wm.workspaces.current().client(*w).unwrap()).collect();
        let second = wm.layout();
        let after_second: Vec<ClientState> =
            [10, 20, 30, 40].iter().map(|w| wm.workspaces.current().client(*w).unwrap()).collect();
        assert_eq!(first, second);
        assert_eq!(after_first, after_second);
        assert!(after_second[2].is_fullscreen);
        assert_eq!(after_second[2].rect(), rect(0, 0, 1000, 800));
    }
}

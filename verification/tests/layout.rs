use dxwm::geometry::{slot, to_coord, to_extent, Rect, MIN_WINDOW_SIZE};
use dxwm::layout::{
    ceil_sqrt, compute, grid, master_stack, monocle, moves, LayoutConfig, LayoutType, Placement,
};

fn screen() -> Rect {
    Rect { x: 0, y: 0, width: 1000, height: 800 }
}

fn rect(x: i16, y: i16, width: u16, height: u16) -> Rect {
    Rect { x, y, width, height }
}

fn rects(ps: &Vec<Placement>) -> Vec<Rect> {
    ps.iter().map(|p| p.rect).collect()
}

fn config(current: LayoutType) -> LayoutConfig {
    LayoutConfig { current, ..LayoutConfig::default() }
}

#[test]
fn default_config_values() {
    let c = LayoutConfig::default();
    assert_eq!(c.current, LayoutType::MasterStack);
    assert_eq!(c.master_ratio, 50);
    assert_eq!(c.nmaster, 1);
    assert_eq!(c.gap_size, 10);
    assert_eq!(c.screen_padding, 10);
}

#[test]
fn master_stack_two_windows_scenario() {
    let ps = compute(&vec![10, 20], screen(), &LayoutConfig::default());
    assert_eq!(
        ps,
        vec![
            Placement { window: 10, rect: rect(10, 10, 480, 780) },
            Placement { window: 20, rect: rect(500, 10, 490, 780) },
        ]
    );
}

#[test]
fn master_stack_single_window_takes_padded_area() {
    let ps = compute(&vec![7], screen(), &LayoutConfig::default());
    assert_eq!(ps, vec![Placement { window: 7, rect: rect(10, 10, 980, 780) }]);
}

#[test]
fn master_stack_no_windows() {
    let ps = compute(&vec![], screen(), &LayoutConfig::default());
    assert!(ps.is_empty());
}

#[test]
fn master_stack_three_windows_split_stack() {
    let ps = compute(&vec![1, 2, 3], screen(), &LayoutConfig::default());
    assert_eq!(
        rects(&ps),
        vec![rect(10, 10, 480, 780), rect(500, 10, 490, 385), rect(500, 405, 490, 385)]
    );
}

#[test]
fn master_stack_last_window_absorbs_remainder() {
    let ps = compute(&vec![1, 2, 3, 4], screen(), &LayoutConfig::default());
    assert_eq!(
        rects(&ps),
        vec![
            rect(10, 10, 480, 780),
            rect(500, 10, 490, 253),
            rect(500, 273, 490, 253),
            rect(500, 536, 490, 254),
        ]
    );
    let heights: i32 = ps[1..].iter().map(|p| p.rect.height as i32).sum();
    assert_eq!(heights + 2 * 10, 780);
}

#[test]
fn master_stack_two_masters() {
    let mut c = LayoutConfig::default();
    c.nmaster = 2;
    let ps = compute(&vec![1, 2, 3], screen(), &c);
    assert_eq!(
        rects(&ps),
        vec![rect(10, 10, 480, 385), rect(10, 405, 480, 385), rect(500, 10, 490, 780)]
    );
}

#[test]
fn master_stack_without_stack_uses_full_width() {
    let mut c = LayoutConfig::default();
    c.nmaster = 2;
    let ps = compute(&vec![1, 2], screen(), &c);
    assert_eq!(rects(&ps), vec![rect(10, 10, 980, 385), rect(10, 405, 980, 385)]);
}

#[test]
fn master_stack_columns_fill_the_padded_width() {
    let mut c = LayoutConfig::default();
    c.master_ratio = 55;
    let ps = compute(&vec![1, 2], screen(), &c);
    assert_eq!(rects(&ps), vec![rect(10, 10, 529, 780), rect(549, 10, 441, 780)]);
    assert_eq!(ps[0].rect.width as i32 + 10 + ps[1].rect.width as i32, 980);
}

#[test]
fn sizes_are_raised_to_the_minimum() {
    let small = Rect { x: 0, y: 0, width: 100, height: 100 };
    let ps = compute(&vec![1, 2], small, &LayoutConfig::default());
    assert_eq!(rects(&ps), vec![rect(10, 10, 50, 80), rect(50, 10, 50, 80)]);
    let tiny = Rect { x: 0, y: 0, width: 10, height: 10 };
    for kind in [LayoutType::MasterStack, LayoutType::Monocle, LayoutType::Grid] {
        let ps = compute(&vec![1, 2, 3, 4, 5], tiny, &config(kind));
        assert_eq!(ps.len(), 5);
        for p in ps {
            assert!(p.rect.width >= MIN_WINDOW_SIZE);
            assert!(p.rect.height >= MIN_WINDOW_SIZE);
        }
    }
}

#[test]
fn gaps_larger_than_the_screen() {
    let area = Rect { x: 0, y: 0, width: 200, height: 100 };
    let mut c = LayoutConfig::default();
    c.gap_size = 50;
    let ps = compute(&vec![1, 2, 3, 4, 5], area, &c);
    let ys: Vec<i16> = ps.iter().map(|p| p.rect.y).collect();
    assert_eq!(ys, vec![10, 10, 43, 76, 109]);
    for p in &ps[1..] {
        assert_eq!(p.rect.height, 50);
    }
}

#[test]
fn monocle_gives_every_window_the_padded_area() {
    let ps = compute(&vec![3, 1, 2], screen(), &config(LayoutType::Monocle));
    assert_eq!(
        ps,
        vec![
            Placement { window: 3, rect: rect(10, 10, 980, 780) },
            Placement { window: 1, rect: rect(10, 10, 980, 780) },
            Placement { window: 2, rect: rect(10, 10, 980, 780) },
        ]
    );
}

#[test]
fn grid_of_four() {
    let ps = compute(&vec![1, 2, 3, 4], screen(), &config(LayoutType::Grid));
    assert_eq!(
        rects(&ps),
        vec![
            rect(10, 10, 485, 385),
            rect(505, 10, 485, 385),
            rect(10, 405, 485, 385),
            rect(505, 405, 485, 385),
        ]
    );
}

#[test]
fn grid_of_five_has_three_columns() {
    let ps = compute(&vec![1, 2, 3, 4, 5], screen(), &config(LayoutType::Grid));
    assert_eq!(
        rects(&ps),
        vec![
            rect(10, 10, 320, 385),
            rect(340, 10, 320, 385),
            rect(670, 10, 320, 385),
            rect(10, 405, 320, 385),
            rect(340, 405, 320, 385),
        ]
    );
}

#[test]
fn grid_last_column_absorbs_remainder() {
    let area = Rect { x: 0, y: 0, width: 1001, height: 800 };
    let ps = compute(&vec![1, 2, 3, 4], area, &config(LayoutType::Grid));
    assert_eq!(ps[0].rect, rect(10, 10, 485, 385));
    assert_eq!(ps[1].rect, rect(505, 10, 486, 385));
}

#[test]
fn grid_of_one_and_two() {
    let one = compute(&vec![1], screen(), &config(LayoutType::Grid));
    assert_eq!(rects(&one), vec![rect(10, 10, 980, 780)]);
    let two = compute(&vec![1, 2], screen(), &config(LayoutType::Grid));
    assert_eq!(rects(&two), vec![rect(10, 10, 485, 780), rect(505, 10, 485, 780)]);
}

#[test]
fn floating_places_nothing() {
    let ps = compute(&vec![1, 2, 3], screen(), &config(LayoutType::Floating));
    assert!(ps.is_empty());
}

#[test]
fn compute_is_deterministic() {
    let windows = vec![5, 9, 2, 7];
    for kind in [LayoutType::MasterStack, LayoutType::Monocle, LayoutType::Grid, LayoutType::Floating] {
        let a = compute(&windows, screen(), &config(kind));
        let b = compute(&windows, screen(), &config(kind));
        assert_eq!(a, b);
    }
}

#[test]
fn named_layouts_agree_with_compute() {
    let windows = vec![5, 9, 2];
    let c = LayoutConfig::default();
    assert_eq!(master_stack(&windows, screen(), &c), compute(&windows, screen(), &c));
    assert_eq!(
        monocle(&windows, screen(), &c),
        compute(&windows, screen(), &config(LayoutType::Monocle))
    );
    assert_eq!(grid(&windows, screen(), &c), compute(&windows, screen(), &config(LayoutType::Grid)));
}

#[test]
fn ceil_sqrt_values() {
    let expected = [0usize, 1, 2, 2, 2, 3, 3, 3, 3, 3, 4];
    for (n, c) in expected.iter().enumerate() {
        assert_eq!(ceil_sqrt(n), *c);
    }
    assert_eq!(ceil_sqrt(16), 4);
    assert_eq!(ceil_sqrt(17), 5);
    assert_eq!(ceil_sqrt(1_000_000), 1000);
    assert_eq!(ceil_sqrt(1_000_001), 1001);
}

#[test]
fn slot_values() {
    assert_eq!(slot(780, 10, 1, 0), (0, 780));
    assert_eq!(slot(780, 10, 2, 0), (0, 385));
    assert_eq!(slot(780, 10, 2, 1), (395, 385));
    assert_eq!(slot(780, 10, 3, 2), (526, 254));
    assert_eq!(slot(80, 50, 4, 1), (33, -17));
    assert_eq!(slot(80, 50, 4, 3), (99, -19));
    assert_eq!(slot(0, 0, 5, 4), (0, 0));
}

#[test]
fn coordinates_and_extents_are_clamped() {
    assert_eq!(to_coord(0), 0);
    assert_eq!(to_coord(-40000), i16::MIN);
    assert_eq!(to_coord(40000), i16::MAX);
    assert_eq!(to_coord(-5), -5);
    assert_eq!(to_extent(49), 50);
    assert_eq!(to_extent(50), 50);
    assert_eq!(to_extent(-3), 50);
    assert_eq!(to_extent(700), 700);
    assert_eq!(to_extent(70000), u16::MAX);
}

#[test]
fn layout_cycle() {
    assert_eq!(LayoutType::MasterStack.next(), LayoutType::Monocle);
    assert_eq!(LayoutType::Monocle.next(), LayoutType::Grid);
    assert_eq!(LayoutType::Grid.next(), LayoutType::Floating);
    assert_eq!(LayoutType::Floating.next(), LayoutType::MasterStack);
    let mut c = LayoutConfig::default();
    c.next_layout();
    assert_eq!(c.current, LayoutType::Monocle);
}

#[test]
fn master_ratio_stays_in_range() {
    let mut c = LayoutConfig::default();
    c.adjust_master_ratio(5);
    assert_eq!(c.master_ratio, 55);
    for _ in 0..20 {
        c.adjust_master_ratio(5);
    }
    assert_eq!(c.master_ratio, 95);
    for _ in 0..40 {
        c.adjust_master_ratio(-5);
    }
    assert_eq!(c.master_ratio, 5);
    c.adjust_master_ratio(127);
    assert_eq!(c.master_ratio, 95);
    c.adjust_master_ratio(-128);
    assert_eq!(c.master_ratio, 5);
}

#[test]
fn nmaster_stays_at_least_one() {
    let mut c = LayoutConfig::default();
    c.adjust_nmaster(-1);
    assert_eq!(c.nmaster, 1);
    c.adjust_nmaster(2);
    assert_eq!(c.nmaster, 3);
    c.adjust_nmaster(-1);
    assert_eq!(c.nmaster, 2);
    c.nmaster = usize::MAX;
    c.adjust_nmaster(1);
    assert_eq!(c.nmaster, usize::MAX);
}

#[test]
fn gap_stays_non_negative() {
    let mut c = LayoutConfig::default();
    c.adjust_gap(5);
    assert_eq!(c.gap_size, 15);
    c.adjust_gap(-5);
    c.adjust_gap(-5);
    assert_eq!(c.gap_size, 5);
    c.adjust_gap(-5);
    assert_eq!(c.gap_size, 0);
    c.adjust_gap(-5);
    assert_eq!(c.gap_size, 0);
    c.adjust_gap(i16::MAX);
    c.adjust_gap(5);
    assert_eq!(c.gap_size, i16::MAX);
}

#[test]
fn move_commands_follow_placements() {
    let ps = compute(&vec![10, 20], screen(), &LayoutConfig::default());
    let cmds = moves(&ps);
    assert_eq!(
        cmds,
        vec![
            dxwm::commands::Command::MoveResize { window: 10, rect: rect(10, 10, 480, 780) },
            dxwm::commands::Command::MoveResize { window: 20, rect: rect(500, 10, 490, 780) },
        ]
    );
}

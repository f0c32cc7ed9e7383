use expiecustwm::client::{Client, LayoutMode};
use expiecustwm::layout::{visible_indices, Area, LayoutEngine, Placement, DEFAULT_MASTER_RATIO_BITS};

fn clients(n: u32) -> Vec<Client> {
    (0..n).map(|i| Client::new(100 + i, 200 + i)).collect()
}

fn engine(mode: LayoutMode) -> LayoutEngine {
    let mut e = LayoutEngine::new();
    e.mode = mode;
    e
}

fn master_width(e: &LayoutEngine, area: &Area, visible: usize) -> i32 {
    let reserve = e.master_reserve(visible).unwrap();
    ((area.width as f64 - reserve as f64) * f64::from_bits(e.master_ratio_bits)) as i32
}

#[test]
fn new_engine_has_defaults() {
    let e = LayoutEngine::new();
    assert_eq!(e.mode, LayoutMode::Tiling);
    assert_eq!(e.master_count, 1);
    assert_eq!(e.gap, 4);
    assert_eq!(e.border_width, 2);
    assert_eq!(e.master_ratio_bits, DEFAULT_MASTER_RATIO_BITS);
    assert_eq!(f64::from_bits(DEFAULT_MASTER_RATIO_BITS), 0.55);
}

#[test]
fn tiling_three_clients() {
    let e = engine(LayoutMode::Tiling);
    let cs = clients(3);
    let area = Area { x: 0, y: 0, width: 1000, height: 800 };
    let mw = master_width(&e, &area, 3);
    assert_eq!(mw, 545);
    let ps = e.arrange(&cs, &area, Some(0), mw);
    assert_eq!(
        ps,
        vec![
            Placement { client_index: 0, x: 4, y: 4, width: 545, height: 792 },
            Placement { client_index: 1, x: 553, y: 4, width: 443, height: 394 },
            Placement { client_index: 2, x: 553, y: 402, width: 443, height: 394 },
        ]
    );
}

#[test]
fn tiling_one_client_fills_area() {
    let e = engine(LayoutMode::Tiling);
    let cs = clients(1);
    let area = Area { x: 0, y: 20, width: 1000, height: 780 };
    let ps = e.arrange(&cs, &area, Some(0), 0);
    assert_eq!(ps, vec![Placement { client_index: 0, x: 4, y: 24, width: 992, height: 772 }]);
}

#[test]
fn tiling_two_masters() {
    let mut e = engine(LayoutMode::Tiling);
    e.master_count = 2;
    let cs = clients(3);
    let area = Area { x: 0, y: 0, width: 1000, height: 800 };
    assert_eq!(e.master_reserve(3), Some(12));
    let ps = e.arrange(&cs, &area, None, 500);
    // master height: (800 - 4 * 3) / 2 = 394; stack: (800 - 4 * 2) / 1 = 792
    assert_eq!(ps[0], Placement { client_index: 0, x: 4, y: 4, width: 500, height: 394 });
    assert_eq!(ps[1], Placement { client_index: 1, x: 4, y: 402, width: 500, height: 394 });
    // stack width: 1000 - 8 - 500 - 4 = 488
    assert_eq!(ps[2], Placement { client_index: 2, x: 508, y: 4, width: 488, height: 792 });
}

#[test]
fn tiling_without_masters_stacks_everything() {
    let mut e = engine(LayoutMode::Tiling);
    e.master_count = 0;
    let cs = clients(2);
    let area = Area { x: 0, y: 0, width: 400, height: 300 };
    let ps = e.arrange(&cs, &area, None, 10);
    // stack height: (300 - 4 * 3) / 2 = 144; stack width max(400 - 8 - 10 - 4, 100) = 378
    assert_eq!(ps[0], Placement { client_index: 0, x: 18, y: 4, width: 378, height: 144 });
    assert_eq!(ps[1], Placement { client_index: 1, x: 18, y: 152, width: 378, height: 144 });
}

#[test]
fn tiling_small_area_clamps_sizes() {
    let e = engine(LayoutMode::Tiling);
    let cs = clients(2);
    let area = Area { x: 0, y: 0, width: 50, height: 5 };
    let ps = e.arrange(&cs, &area, None, -3);
    // master height (5 - 8) / 1 = -3 -> 1; stack width max(50 - 8 + 3 - 4, 100) = 100
    assert_eq!(ps[0], Placement { client_index: 0, x: 4, y: 4, width: 1, height: 1 });
    // stack height (5 - 8) / 1 = -3 -> 1
    assert_eq!(ps[1], Placement { client_index: 1, x: 5, y: 4, width: 100, height: 1 });
}

#[test]
fn negative_division_rounds_toward_zero() {
    let mut e = engine(LayoutMode::Tiling);
    e.master_count = 2;
    let cs = clients(3);
    let area = Area { x: 0, y: 0, width: 500, height: 9 };
    let ps = e.arrange(&cs, &area, None, 100);
    // master height (9 - 12) / 2 = -1 (toward zero), so the second master is at 4 + 1 * (-1 + 4) = 7
    assert_eq!(ps[1].y, 7);
    assert_eq!(ps[1].height, 1);
}

#[test]
fn monocle_gives_everyone_the_area() {
    let e = engine(LayoutMode::Monocle);
    let cs = clients(2);
    let area = Area { x: 10, y: 20, width: 300, height: 200 };
    let ps = e.arrange(&cs, &area, None, 0);
    assert_eq!(ps.len(), 2);
    for (i, p) in ps.iter().enumerate() {
        assert_eq!(*p, Placement { client_index: i, x: 14, y: 24, width: 292, height: 192 });
    }
}

#[test]
fn monocle_saturates_on_tiny_area() {
    let e = engine(LayoutMode::Monocle);
    let cs = clients(1);
    let area = Area { x: 0, y: 0, width: 5, height: 8 };
    let ps = e.arrange(&cs, &area, None, 0);
    assert_eq!(ps[0].width, 0);
    assert_eq!(ps[0].height, 0);
}

#[test]
fn monocle_negative_width_wraps_as_unsigned() {
    let e = engine(LayoutMode::Monocle);
    let cs = clients(1);
    let area = Area { x: 0, y: 0, width: -2, height: 8 };
    let ps = e.arrange(&cs, &area, None, 0);
    assert_eq!(ps[0].width, (-2i32 as u32) - 8);
}

#[test]
fn floating_keeps_positions() {
    let e = engine(LayoutMode::Floating);
    let mut cs = clients(2);
    cs[1].x = 30;
    cs[1].y = -5;
    cs[1].width = 640;
    cs[1].height = 480;
    let area = Area { x: 0, y: 0, width: 1000, height: 800 };
    let ps = e.arrange(&cs, &area, None, 0);
    assert_eq!(ps[0], Placement { client_index: 0, x: 0, y: 0, width: 800, height: 600 });
    assert_eq!(ps[1], Placement { client_index: 1, x: 30, y: -5, width: 640, height: 480 });
}

#[test]
fn fullscreen_clients_are_left_out() {
    let e = engine(LayoutMode::Tiling);
    let mut cs = clients(3);
    cs[0].fullscreen = true;
    assert_eq!(visible_indices(&cs), vec![1, 2]);
    let area = Area { x: 0, y: 0, width: 1000, height: 800 };
    let ps = e.arrange(&cs, &area, None, 545);
    assert_eq!(ps.iter().map(|p| p.client_index).collect::<Vec<_>>(), vec![1, 2]);
    cs[1].fullscreen = true;
    cs[2].fullscreen = true;
    assert!(e.arrange(&cs, &area, None, 545).is_empty());
}

#[test]
fn large_gap_wraps_to_negative() {
    let mut e = engine(LayoutMode::Monocle);
    e.gap = u32::MAX;
    let cs = clients(1);
    let area = Area { x: 10, y: 10, width: 100, height: 100 };
    let ps = e.arrange(&cs, &area, None, 0);
    // gap as i32 is -1: position 9, sizes 100 - (-2 as u32) saturate to 0
    assert_eq!(ps[0], Placement { client_index: 0, x: 9, y: 9, width: 0, height: 0 });
}

#[test]
fn master_reserve_overflow_is_reported() {
    let mut e = engine(LayoutMode::Tiling);
    e.gap = 0x4000_0000;
    assert_eq!(e.master_reserve(3), None);
    e.master_count = 0;
    assert_eq!(e.master_reserve(3), Some(0x4000_0000));
}

#[test]
fn fits_check_matches_overflow() {
    let mut e = engine(LayoutMode::Tiling);
    let cs = clients(3);
    let area = Area { x: 0, y: 0, width: 1000, height: 800 };
    assert!(e.arrangement_fits_check(&cs, &area, 545));
    let far = Area { x: i32::MAX - 10, y: 0, width: 1000, height: 800 };
    assert!(!e.arrangement_fits_check(&cs, &far, 545));
    e.mode = LayoutMode::Floating;
    assert!(e.arrangement_fits_check(&cs, &far, 545));
    e.mode = LayoutMode::Monocle;
    assert!(e.arrangement_fits_check(&cs, &Area { x: i32::MAX - 4, y: 0, width: 1, height: 1 }, 0));
    assert!(!e.arrangement_fits_check(&cs, &Area { x: i32::MAX - 3, y: 0, width: 1, height: 1 }, 0));
}

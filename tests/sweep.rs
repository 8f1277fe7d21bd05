use idotmatrix::{HuePixel, HueSweep};

#[test]
fn sweep_starts_at_half_turn() {
    assert_eq!(HueSweep::new().hue, 1800);
}

#[test]
fn sweep_step_adds_two_tenths_and_wraps() {
    let mut s = HueSweep { hue: 3598 };
    assert_eq!(s.step(), 3598);
    assert_eq!(s.hue, 0);
    assert_eq!(s.step(), 0);
    assert_eq!(s.hue, 2);
}

#[test]
fn sweep_full_turn_after_1800_steps() {
    for start in [0u16, 1, 1800, 3599] {
        let mut s = HueSweep { hue: start };
        for _ in 0..1800 {
            s.step();
        }
        assert_eq!(s.hue, start);
    }
}

#[test]
fn sweep_frame_covers_grid_in_rows() {
    let mut s = HueSweep::new();
    let f = s.frame();
    assert_eq!(f.len(), 1024);
    assert_eq!(f[0], HuePixel { x: 0, y: 0, hue: 1800 });
    assert_eq!(f[1], HuePixel { x: 1, y: 0, hue: 1802 });
    assert_eq!(f[32], HuePixel { x: 0, y: 1, hue: 1864 });
    assert_eq!(f[900], HuePixel { x: 4, y: 28, hue: 0 });
    assert_eq!(f[1023], HuePixel { x: 31, y: 31, hue: 246 });
    assert_eq!(s.hue, 248);
    let g = s.frame();
    assert_eq!(g[0].hue, 248);
}

use wallpaper_tool::geometry::{
    center_offset, cover_size, draw_plan, font_px, limit_u32, line_y, text_start_x, widest, DrawCommand,
    MIN_FONT_PX, MIN_LEFT_MARGIN, SHADOW_ALPHA, SHADOW_OFFSET,
};

#[test]
fn cover_size_exact_values() {
    assert_eq!(cover_size(800, 600, 1920, 1080), (1920, 1440));
    assert_eq!(cover_size(1920, 1080, 1280, 1024), (1820, 1024));
    assert_eq!(cover_size(1920, 1080, 1920, 1080), (1920, 1080));
    assert_eq!(cover_size(3, 2, 4, 1), (4, 2));
    assert_eq!(cover_size(1, 1, 0, 0), (0, 0));
    assert_eq!(cover_size(7, 3, 1920, 1080), (2520, 1080));
    assert_eq!(cover_size(3, 7, 1920, 1080), (1920, 4480));
}

#[test]
fn cover_size_saturates() {
    assert_eq!(cover_size(1, u32::MAX, u32::MAX, 1), (u32::MAX, u32::MAX));
    assert_eq!(cover_size(u32::MAX, 1, 1, u32::MAX), (u32::MAX, u32::MAX));
    assert_eq!(limit_u32(u64::MAX), u32::MAX);
    assert_eq!(limit_u32(17), 17);
}

#[test]
fn cover_fit_holds_on_a_grid() {
    let sides = [1u32, 2, 3, 7, 16, 100, 641, 1080, 1920, 4096];
    for &sw in &sides {
        for &sh in &sides {
            for &tw in &sides {
                for &th in &sides {
                    let (rw, rh) = cover_size(sw, sh, tw, th);
                    assert!(rw >= tw && rh >= th);
                    assert!(rw == tw || rh == th);
                    assert_eq!(rw / sw, rh / sh);
                    let cross = (rw as i64) * (sh as i64) - (rh as i64) * (sw as i64);
                    assert!(-(sh as i64) < cross && cross < sw as i64);
                }
            }
        }
    }
}

#[test]
fn center_offset_rounds_towards_zero() {
    assert_eq!(center_offset(1920, 2520), -300);
    assert_eq!(center_offset(1080, 1080), 0);
    assert_eq!(center_offset(10, 13), -1);
    assert_eq!(center_offset(13, 10), 1);
    assert_eq!(center_offset(0, u32::MAX), -((u32::MAX / 2) as i64));
    for target in 0..40u32 {
        for size in 0..40u32 {
            assert_eq!(center_offset(target, size), (target as i64 - size as i64) / 2);
        }
    }
}

#[test]
fn font_px_is_a_fortieth_rounded_and_at_least_the_minimum() {
    assert_eq!(MIN_FONT_PX, 14);
    assert_eq!(font_px(1080), 27);
    assert_eq!(font_px(1440), 36);
    assert_eq!(font_px(2160), 54);
    assert_eq!(font_px(0), 14);
    assert_eq!(font_px(540), 14);
    assert_eq!(font_px(579), 14);
    assert_eq!(font_px(580), 15);
    assert_eq!(font_px(u32::MAX), 107374182);
    for h in 0..10000u32 {
        let by_float = (h as f32 / 40.0).max(14.0).round();
        assert_eq!(font_px(h) as f32, by_float, "{}", h);
    }
}

#[test]
fn text_start_x_keeps_margins() {
    assert_eq!(MIN_LEFT_MARGIN, 10);
    assert_eq!(text_start_x(1920, 300), 1524);
    assert_eq!(text_start_x(1920, 0), 1824);
    assert_eq!(text_start_x(1920, 1814), 10);
    assert_eq!(text_start_x(1920, 1813), 11);
    assert_eq!(text_start_x(100, 500), 10);
    assert_eq!(text_start_x(0, 0), 10);
    assert_eq!(text_start_x(u32::MAX, 0), i32::MAX);
    assert_eq!(text_start_x(u32::MAX, u32::MAX), 10);
}

#[test]
fn text_start_x_agrees_with_float_formula() {
    for w in [0u32, 1, 19, 20, 21, 640, 800, 1024, 1366, 1919, 1920, 2560, 3840, 7680] {
        for widest in [0u32, 1, 9, 10, 99, 500, 1000, 1823, 1824, 1825, 5000] {
            let margin_right = (w as f32 * 0.05) as i32;
            let by_float = ((w as f32 - widest as f32 - margin_right as f32) as i32).max(10);
            assert_eq!(text_start_x(w, widest), by_float, "{} {}", w, widest);
        }
    }
}

#[test]
fn line_y_stacks_lines() {
    assert_eq!(line_y(1080, 0), 54);
    assert_eq!(line_y(1080, 1), 89);
    assert_eq!(line_y(1080, 2), 124);
    assert_eq!(line_y(1080, 3), 159);
    assert_eq!(line_y(0, 0), 0);
    assert_eq!(line_y(0, 1), 18);
    assert_eq!(line_y(u32::MAX, usize::MAX), i32::MAX);
    for h in [0u32, 480, 600, 768, 1080, 1440, 2160] {
        let font = (h as f64 / 40.0).max(14.0).round();
        let margin_top = (h as f64 * 0.05) as i32;
        for i in 0..60usize {
            let by_float = margin_top + (i as f64 * font * 1.3) as i32;
            assert_eq!(line_y(h, i), by_float, "{} {}", h, i);
            assert_eq!(line_y(h, i), (h / 20) as i32 + ((i as u32 * font_px(h) * 13) / 10) as i32);
        }
    }
}

#[test]
fn widest_is_the_maximum() {
    assert_eq!(widest(&vec![]), 0);
    assert_eq!(widest(&vec![3, 9, 4]), 9);
    assert_eq!(widest(&vec![0, 0]), 0);
    assert_eq!(widest(&vec![u32::MAX, 1]), u32::MAX);
}

#[test]
fn draw_plan_draws_shadow_then_face_for_each_line() {
    assert_eq!(SHADOW_OFFSET, 2);
    assert_eq!(SHADOW_ALPHA, 180);
    let plan = draw_plan(1920, 1080, 300, 2);
    let expected = vec![
        DrawCommand { line: 0, x: 1526, y: 56, red: 0, green: 0, blue: 0, alpha: 180 },
        DrawCommand { line: 0, x: 1524, y: 54, red: 255, green: 255, blue: 255, alpha: 255 },
        DrawCommand { line: 1, x: 1526, y: 91, red: 0, green: 0, blue: 0, alpha: 180 },
        DrawCommand { line: 1, x: 1524, y: 89, red: 255, green: 255, blue: 255, alpha: 255 },
    ];
    assert_eq!(plan, expected);
    assert!(draw_plan(1920, 1080, 300, 0).is_empty());
}

#[test]
fn text_never_starts_left_of_the_margin() {
    for w in [0u32, 5, 50, 320, 1920] {
        for widest in [0u32, 100, 10_000, u32::MAX] {
            assert!(text_start_x(w, widest) >= MIN_LEFT_MARGIN);
            for command in draw_plan(w, 768, widest, 3) {
                assert!(command.x >= MIN_LEFT_MARGIN);
            }
        }
    }
    let plan = draw_plan(200, 100, 5000, 1);
    assert_eq!(plan[0].x, 12);
    assert_eq!(plan[1].x, 10);
}

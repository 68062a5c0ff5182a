use clockery::geometry::{
    background_color, black, center_lines, delay_fps, get_middle_surface, lines_fit, surface_target,
    text_color, white, window_target, Color, Rect,
};

#[test]
fn delay_fps_divides_a_second() {
    assert_eq!(delay_fps(60), 16);
    assert_eq!(delay_fps(1), 1000);
    assert_eq!(delay_fps(1000), 1);
    assert_eq!(delay_fps(2000), 0);
}

#[test]
fn delay_fps_without_limit_is_zero() {
    assert_eq!(delay_fps(0), 0);
    assert_eq!(delay_fps(-1), 0);
    assert_eq!(delay_fps(i32::MIN), 0);
}

#[test]
fn colors_of_normal_and_reverted_faces() {
    assert_eq!(white(), Color { r: 255, g: 255, b: 255 });
    assert_eq!(black(), Color { r: 0, g: 0, b: 0 });
    assert_eq!(background_color(false), black());
    assert_eq!(background_color(true), white());
    assert_eq!(text_color(false), white());
    assert_eq!(text_color(true), black());
}

#[test]
fn text_stands_out_and_reverting_swaps() {
    for revert in [false, true] {
        assert_ne!(text_color(revert), background_color(revert));
        assert_eq!(text_color(!revert), background_color(revert));
    }
}

#[test]
fn middle_of_window() {
    assert_eq!(
        get_middle_surface((100, 50), (800, 600), None),
        Rect { x: 350, y: 275, w: 100, h: 50 }
    );
    assert_eq!(
        get_middle_surface((100, 50), (800, 600), Some(100)),
        Rect { x: 350, y: 25, w: 100, h: 50 }
    );
    assert_eq!(
        get_middle_surface((801, 1), (801, 1), None),
        Rect { x: 0, y: 0, w: 801, h: 1 }
    );
}

#[test]
fn targets_on_window_and_face() {
    let r = Rect { x: 3, y: 4, w: 5, h: 6 };
    assert_eq!(window_target((30, 15), Some((0, 15)), None), Rect { x: 0, y: 15, w: 30, h: 15 });
    assert_eq!(window_target((30, 15), None, Some(r)), r);
    assert_eq!(surface_target((30, 15), Some((7, 9)), None), Rect { x: 0, y: 0, w: 30, h: 15 });
    assert_eq!(surface_target((30, 15), None, Some(r)), r);
}

#[test]
fn lines_centered_around_a_row() {
    let rendered = vec![Some((100, 20)), Some((50, 20))];
    let rects = center_lines(Some(100), 200, 20, &rendered);
    assert_eq!(
        rects,
        vec![
            Some(Rect { x: 50, y: 80, w: 100, h: 20 }),
            Some(Rect { x: 75, y: 100, w: 50, h: 20 }),
        ]
    );
}

#[test]
fn lines_that_failed_to_render_take_no_room() {
    let rendered = vec![Some((100, 20)), None, Some((60, 21))];
    let rects = center_lines(Some(100), 200, 20, &rendered);
    assert_eq!(
        rects,
        vec![
            Some(Rect { x: 50, y: 70, w: 100, h: 20 }),
            None,
            Some(Rect { x: 70, y: 90, w: 60, h: 21 }),
        ]
    );
}

#[test]
fn lines_without_row_center_on_zero() {
    let rendered = vec![Some((10, 30)), Some((11, 30)), Some((12, 30))];
    let rects = center_lines(None, 21, 30, &rendered);
    assert_eq!(rects[0], Some(Rect { x: 5, y: -45, w: 10, h: 30 }));
    assert_eq!(rects[1], Some(Rect { x: 5, y: -15, w: 11, h: 30 }));
    assert_eq!(rects[2], Some(Rect { x: 4, y: 15, w: 12, h: 30 }));
}

#[test]
fn lines_fit_checks_width_and_rows() {
    assert!(lines_fit(Some(100), 200, 20, &vec![Some((200, 20)), None]));
    assert!(!lines_fit(Some(100), 200, 20, &vec![Some((201, 20))]));
    assert!(!lines_fit(Some(100), 200, -1, &vec![]));
    assert!(!lines_fit(Some(i32::MAX), 200, 20, &vec![Some((10, 20))]));
    assert!(lines_fit(None, 0, 0, &vec![]));
}

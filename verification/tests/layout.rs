use clockery::geometry::{black, white, Rect};
use clockery::layout::{can_lay_out, create_surfaces, floor_sqrt_of};

#[test]
fn floor_square_roots() {
    assert_eq!(floor_sqrt_of(0), 0);
    assert_eq!(floor_sqrt_of(1), 1);
    assert_eq!(floor_sqrt_of(3), 1);
    assert_eq!(floor_sqrt_of(4), 2);
    assert_eq!(floor_sqrt_of(8), 2);
    assert_eq!(floor_sqrt_of(9), 3);
    assert_eq!(floor_sqrt_of(99), 9);
    assert_eq!(floor_sqrt_of(i32::MAX), 46340);
}

#[test]
fn one_face_fills_the_window() {
    let cells = create_surfaces(1, (800, 600), false);
    assert_eq!(cells.len(), 1);
    assert_eq!(cells[0].rect, Rect { x: 0, y: 0, w: 800, h: 600 });
    assert_eq!(cells[0].fill, white());
    assert_eq!(cells[0].snow.snowflakes().len(), 100);
}

#[test]
fn three_faces_in_one_row() {
    let cells = create_surfaces(3, (800, 600), false);
    let rects: Vec<Rect> = cells.iter().map(|c| c.rect).collect();
    assert_eq!(
        rects,
        vec![
            Rect { x: 0, y: 0, w: 266, h: 600 },
            Rect { x: 266, y: 0, w: 266, h: 600 },
            Rect { x: 532, y: 0, w: 266, h: 600 },
        ]
    );
}

#[test]
fn five_faces_in_two_rows() {
    let cells = create_surfaces(5, (800, 600), true);
    let rects: Vec<Rect> = cells.iter().map(|c| c.rect).collect();
    assert_eq!(
        rects,
        vec![
            Rect { x: 0, y: 0, w: 266, h: 300 },
            Rect { x: 266, y: 0, w: 266, h: 300 },
            Rect { x: 532, y: 0, w: 266, h: 300 },
            Rect { x: 0, y: 300, w: 266, h: 300 },
            Rect { x: 266, y: 300, w: 266, h: 300 },
        ]
    );
    assert!(cells.iter().all(|c| c.fill == black()));
}

#[test]
fn faces_tile_the_window() {
    for n in 1..30 {
        let cells = create_surfaces(n, (1024, 768), false);
        assert_eq!(cells.len(), n as usize);
        for (i, a) in cells.iter().enumerate() {
            let a = a.rect;
            assert!(a.x >= 0 && a.y >= 0);
            assert!(a.x as i64 + a.w as i64 <= 1024 && a.y as i64 + a.h as i64 <= 768);
            for b in cells.iter().skip(i + 1) {
                let b = b.rect;
                let apart = a.x as i64 + a.w as i64 <= b.x as i64
                    || b.x as i64 + b.w as i64 <= a.x as i64
                    || a.y as i64 + a.h as i64 <= b.y as i64
                    || b.y as i64 + b.h as i64 <= a.y as i64;
                assert!(apart);
            }
        }
    }
}

#[test]
fn snow_of_a_face_starts_above_it() {
    let cells = create_surfaces(4, (400, 300), false);
    for c in &cells {
        let flakes = c.snow.snowflakes();
        assert_eq!(flakes.len(), 100);
        for f in &flakes {
            assert_eq!(f.y(), -2);
            assert_eq!(f.size(), 5);
            assert_eq!(f.window_width(), 200 + 10);
            assert_eq!(f.window_height(), 150);
            assert!(0 <= f.x() && f.x() < 210);
            assert!(1 <= f.speed() && f.speed() <= 3);
        }
    }
}

#[test]
fn layouts_that_fit() {
    assert!(can_lay_out(1, (800, 600)));
    assert!(can_lay_out(7, (u32::MAX / 4, 600)));
    assert!(!can_lay_out(i32::MAX, (800, 600)));
    assert!(!can_lay_out(1, (u32::MAX, 600)));
    assert!(can_lay_out(1, (800, u32::MAX)));
    assert!(can_lay_out(4, (800, u32::MAX)));
    assert!(!can_lay_out(9, (800, u32::MAX)));
}

#[test]
fn one_very_tall_face() {
    let cells = create_surfaces(1, (800, u32::MAX), false);
    assert_eq!(cells[0].rect, Rect { x: 0, y: 0, w: 800, h: u32::MAX });
    let flakes = cells[0].snow.snowflakes();
    assert_eq!(flakes.len(), 100);
    assert!(flakes.iter().all(|f| f.window_height() == -1 && f.y() == -2));
}

use clockery::geometry::{black, white, FillRect};
use clockery::snow::{SnowParticles, Snowflake};

#[test]
fn new_snowflake_starts_above_the_window() {
    for _ in 0..200 {
        let s = Snowflake::new(100, 50, 5);
        assert_eq!(s.y(), -2);
        assert_eq!(s.size(), 5);
        assert_eq!(s.window_width(), 110);
        assert_eq!(s.window_height(), 50);
        assert!(0 <= s.x() && s.x() < 110);
        assert!(1 <= s.speed() && s.speed() <= 3);
    }
}

#[test]
fn narrow_window_still_has_columns() {
    let s = Snowflake::new(-9, 0, 1);
    assert_eq!(s.window_width(), 1);
    assert_eq!(s.x(), 0);
}

#[test]
fn snowflake_falls_by_its_speed_or_starts_again() {
    let mut s = Snowflake::new(30, 20, 5);
    let mut restarts = 0;
    for _ in 0..1000 {
        let before = s;
        s.update();
        let y = before.y() + before.speed();
        if y > 20 {
            restarts += 1;
            assert_eq!(s.y(), -2);
            assert!(0 <= s.x() && s.x() < 40);
            assert!(1 <= s.speed() && s.speed() <= 3);
        } else {
            assert_eq!(s.y(), y);
            assert_eq!(s.x(), before.x());
            assert_eq!(s.speed(), before.speed());
        }
        assert!(s.y() >= -2 && s.y() <= 20);
        assert_eq!(s.window_height(), 20);
        assert_eq!(s.window_width(), 40);
        assert_eq!(s.size(), 5);
    }
    assert!(restarts > 0);
}

#[test]
fn snowflake_square_in_text_color() {
    let s = Snowflake::new(10, 10, 5);
    assert_eq!(s.render(false), FillRect { x: s.x(), y: -2, w: 5, h: 5, color: white() });
    assert_eq!(s.render(true), FillRect { x: s.x(), y: -2, w: 5, h: 5, color: black() });
}

#[test]
fn particles_count() {
    assert_eq!(SnowParticles::new(100, (200, 100)).snowflakes().len(), 100);
    assert_eq!(SnowParticles::new(0, (200, 100)).snowflakes().len(), 0);
    assert_eq!(SnowParticles::new(-3, (200, 100)).snowflakes().len(), 0);
}

#[test]
fn particles_fall_and_are_drawn_in_order() {
    let mut p = SnowParticles::new(50, (200, 100));
    for _ in 0..100 {
        let before = p.snowflakes();
        let fills = p.render(true);
        let after = p.snowflakes();
        assert_eq!(fills.len(), 50);
        for i in 0..50 {
            assert_eq!(fills[i], after[i].render(true));
            assert_eq!(fills[i].color, black());
            let y = before[i].y() + before[i].speed();
            if y > 100 {
                assert_eq!(after[i].y(), -2);
            } else {
                assert_eq!(after[i].y(), y);
                assert_eq!(after[i].x(), before[i].x());
            }
        }
    }
}

#[test]
fn snowflake_in_the_highest_window() {
    let mut s = Snowflake::new(100, i32::MAX, 5);
    assert_eq!(s.window_height(), i32::MAX);
    assert_eq!(s.y(), -2);
    assert!(s.can_fall());
    s.update();
    assert!(s.y() >= -1 && s.y() <= 1);
    assert!(s.can_fall());
}

#[test]
fn particles_that_can_fall() {
    let p = SnowParticles::new(20, (200, 100));
    assert!(p.can_fall());
    let p = SnowParticles::new(3, (10, u32::MAX));
    assert!(p.can_fall());
    assert!(p.snowflakes().iter().all(|f| f.window_height() == -1));
}

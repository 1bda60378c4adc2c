use chip8::Screen;

#[test]
fn draw_wraps_horizontally() {
    let mut s = Screen::new();
    assert!(!s.draw(60, 3, &[0xFF]));
    for x in 0..64 {
        let lit = (60..64).contains(&x) || x < 4;
        assert_eq!(s.get(x, 3), lit);
        assert!(!s.get(x, 2));
        assert!(!s.get(x, 4));
    }
}

#[test]
fn draw_wraps_vertically_and_reduces_coordinates() {
    let mut s = Screen::new();
    assert!(!s.draw(64 + 1, 31, &[0x80, 0x40]));
    assert!(s.get(1, 31));
    assert!(s.get(2, 0));
    assert!(!s.get(1, 0));
}

#[test]
fn draw_bit_order_msb_first() {
    let mut s = Screen::new();
    s.draw(0, 0, &[0xA0]);
    assert!(s.get(0, 0));
    assert!(!s.get(1, 0));
    assert!(s.get(2, 0));
    assert!(!s.get(3, 0));
}

#[test]
fn draw_twice_restores_and_collides() {
    let mut s = Screen::new();
    s.set(10, 10, true);
    s.set(40, 20, true);
    let sprite = [0xF0, 0xC1, 0x3C];
    let first = s.draw(9, 9, &sprite);
    assert!(first);
    let second = s.draw(9, 9, &sprite);
    assert!(second);
    for y in 0..32 {
        for x in 0..64 {
            assert_eq!(s.get(x, y), (x == 10 && y == 10) || (x == 40 && y == 20));
        }
    }
}

#[test]
fn redraw_over_lit_pixels_only() {
    let mut s = Screen::new();
    s.set(0, 0, true);
    assert!(s.draw(0, 0, &[0x80]));
    assert!(!s.get(0, 0));
    assert!(!s.draw(0, 0, &[0x80]));
    assert!(s.get(0, 0));
}

#[test]
fn clear_turns_everything_off() {
    let mut s = Screen::new();
    s.draw(5, 5, &[0xFF, 0xFF]);
    s.clear();
    for y in 0..32 {
        for x in 0..64 {
            assert!(!s.get(x, y));
        }
    }
}

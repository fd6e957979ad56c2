use weather_panel::color::{Color, InvalidColor, Pixel};
use weather_panel::framebuffer::Display;
use weather_panel::geometry::get_bit;

#[test]
fn get_bit_maps_corners() {
    assert_eq!(get_bit(0, 0, 128, 256), (127 * 32, 0x80));
    assert_eq!(get_bit(127, 0, 128, 256), (0, 0x80));
    assert_eq!(get_bit(127, 9, 128, 256), (1, 0x40));
    assert_eq!(get_bit(0, 255, 128, 256), (31 + 127 * 32, 0x01));
    assert_eq!(get_bit(5, 7, 8, 16), (2 * 2, 0x01));
}

#[test]
fn get_bit_is_a_bijection_on_a_small_grid() {
    let (w, h) = (6u32, 24u32);
    let mut seen = vec![0u8; (w * h / 8) as usize];
    for x in 0..w {
        for y in 0..h {
            let (i, m) = get_bit(x, y, w, h);
            assert!((i as usize) < seen.len());
            assert_eq!(m.count_ones(), 1);
            assert_eq!(seen[i as usize] & m, 0, "bit reached twice");
            seen[i as usize] |= m;
        }
    }
    assert!(seen.iter().all(|b| *b == 0xFF));
}

#[test]
fn color_ordinals() {
    assert_eq!(Color::from_u8(0), Ok(Color::Black));
    assert_eq!(Color::from_u8(1), Ok(Color::White));
    assert_eq!(Color::from_u8(2), Err(InvalidColor { value: 2 }));
    assert_eq!(Color::from_u16(1), Ok(Color::White));
    assert_eq!(Color::from_u16(300), Err(InvalidColor { value: 300 }));
}

#[test]
fn fresh_framebuffer_is_background() {
    let d = Display::new(16, 24);
    assert_eq!(d.payload().len(), 16 * 24 / 8);
    assert!(d.payload().iter().all(|b| *b == 0xFF));
    for x in 0..16 {
        for y in 0..24 {
            assert_eq!(d.get_pixel(x, y), Color::White);
        }
    }
}

#[test]
fn set_pixel_touches_one_bit() {
    let mut d = Display::new(16, 24);
    d.set_pixel(3, 10, Color::Black);
    let (i, m) = get_bit(3, 10, 16, 24);
    for (k, b) in d.payload().iter().enumerate() {
        if k == i as usize {
            assert_eq!(*b, 0xFF & !m);
        } else {
            assert_eq!(*b, 0xFF);
        }
    }
    assert_eq!(d.get_pixel(3, 10), Color::Black);
    assert_eq!(d.get_pixel(3, 11), Color::White);
}

#[test]
fn foreground_then_background_restores() {
    let mut d = Display::new(16, 24);
    d.set_pixel(7, 4, Color::Black);
    d.set_pixel(12, 19, Color::Black);
    let before = d.payload().clone();
    d.set_pixel(2, 2, Color::Black);
    d.set_pixel(2, 2, Color::White);
    assert_eq!(d.payload(), &before);
}

#[test]
fn out_of_grid_pixels_are_discarded() {
    let mut d = Display::new(16, 24);
    d.set_pixel(16, 0, Color::Black);
    d.set_pixel(0, 24, Color::Black);
    d.set_pixel(1000, 1000, Color::Black);
    assert!(d.payload().iter().all(|b| *b == 0xFF));
}

#[test]
fn later_source_wins() {
    let mut d = Display::new(16, 24);
    d.draw(&vec![Pixel { x: 4, y: 5, color: Color::Black }]);
    d.draw(&vec![Pixel { x: 4, y: 5, color: Color::White }]);
    assert_eq!(d.get_pixel(4, 5), Color::White);
    d.draw(&vec![
        Pixel { x: 4, y: 5, color: Color::White },
        Pixel { x: 4, y: 5, color: Color::Black },
    ]);
    assert_eq!(d.get_pixel(4, 5), Color::Black);
}

#[test]
fn draw_raw_rejects_bad_ordinal_and_draws_nothing() {
    let mut d = Display::new(16, 24);
    let r = d.draw_raw(&vec![(1, 1, 0), (2, 2, 5), (3, 3, 0)]);
    assert_eq!(r, Err(InvalidColor { value: 5 }));
    assert!(d.payload().iter().all(|b| *b == 0xFF));
    assert_eq!(d.draw_raw(&vec![(1, 1, 0), (2, 2, 1)]), Ok(()));
    assert_eq!(d.get_pixel(1, 1), Color::Black);
    assert_eq!(d.get_pixel(2, 2), Color::White);
}

#[test]
fn frame_is_length_prefix_then_bytes() {
    let mut d = Display::new(128, 256);
    d.set_pixel(0, 0, Color::Black);
    let prefix = d.length_prefix();
    assert_eq!(prefix, vec![0, 0, 0x10, 0]);
    let f = d.frame();
    assert_eq!(f.len(), 4 + 4096);
    let n = u32::from_be_bytes([f[0], f[1], f[2], f[3]]);
    assert_eq!(n as usize, d.payload().len());
    assert_eq!(&f[4..], &d.payload()[..]);
}

#[test]
fn frame_of_odd_size() {
    let d = Display::new(3, 8);
    assert_eq!(d.frame(), vec![0, 0, 0, 3, 0xFF, 0xFF, 0xFF]);
}

use sprint::render_canvas::{Color, RenderCanvas};

#[test]
fn color_constructors() {
    let c = Color::new(1, 2, 3, 4);
    assert_eq!((c.r, c.g, c.b, c.a), (1, 2, 3, 4));
    let m = Color::new_mono(9, 255);
    assert_eq!((m.r, m.g, m.b, m.a), (9, 9, 9, 255));
    let t = Color::from_tuple((112, 69, 156), 255);
    assert_eq!((t.r, t.g, t.b, t.a), (112, 69, 156, 255));
}

#[test]
fn wayland_color_is_argb_word() {
    assert_eq!(Color::new(0x12, 0x34, 0x56, 0x78).get_wayland_color(), 0x7812_3456);
    assert_eq!(Color::new(0, 0, 0, 255).get_wayland_color(), 0xff00_0000u32 as i32);
    assert_eq!(Color::new(255, 255, 255, 255).get_wayland_color(), -1);
}

#[test]
fn new_canvas_is_black() {
    let c = RenderCanvas::new(3, 2);
    assert_eq!(c.width(), 3);
    assert_eq!(c.height(), 2);
    let p = c.pixel(2, 1).unwrap();
    assert_eq!((p.r, p.g, p.b, p.a), (0, 0, 0, 255));
    assert!(c.pixel(3, 0).is_none());
    assert!(c.pixel(0, 2).is_none());
}

#[test]
fn set_pixel_ignores_outside_points() {
    let mut c = RenderCanvas::new(2, 2);
    c.set_pixel(1, 0, Color::new(10, 20, 30, 40));
    c.set_pixel(5, 5, Color::new(1, 1, 1, 1));
    let p = c.pixel(1, 0).unwrap();
    assert_eq!((p.r, p.g, p.b, p.a), (10, 20, 30, 40));
    let q = c.pixel(0, 1).unwrap();
    assert_eq!((q.r, q.g, q.b, q.a), (0, 0, 0, 255));
}

#[test]
fn draw_box_is_clipped() {
    let mut c = RenderCanvas::new(4, 3);
    c.draw_box(2, 1, 5, 5, Color::new_mono(7, 255));
    for y in 0..3u32 {
        for x in 0..4u32 {
            let p = c.pixel(x, y).unwrap();
            let inside = x >= 2 && y >= 1;
            assert_eq!(p.r == 7, inside, "pixel {x},{y}");
        }
    }
}

#[test]
fn wipe_fills_everything() {
    let mut c = RenderCanvas::new(2, 2);
    c.wipe(Color::new(25, 25, 25, 255));
    for y in 0..2u32 {
        for x in 0..2u32 {
            assert_eq!(c.pixel(x, y).unwrap().g, 25);
        }
    }
}

#[test]
fn fill_wayland_canvas_writes_little_endian_argb() {
    let mut c = RenderCanvas::new(2, 1);
    c.set_pixel(0, 0, Color::new(0x11, 0x22, 0x33, 0x44));
    c.set_pixel(1, 0, Color::new(0x55, 0x66, 0x77, 0x88));
    let mut buf = vec![0xaau8; 9];
    c.fill_wayland_canvas(&mut buf);
    assert_eq!(buf, vec![0x33, 0x22, 0x11, 0x44, 0x77, 0x66, 0x55, 0x88, 0xaa]);
}

use voxels::fixed::Fix64;
use voxels::screen::{set_background_color, set_foreground_color, RgbColor, Screen, B_MAX, B_STEPS,
    G_MAX, G_STEPS, R_MAX, R_STEPS};
use voxels::vec3d::Vec3D;
use voxels::world::World;

#[test]
fn test_pack_round_trip_is_stable() {
    // Packing is lossy once, then stable: a second pack/unpack round trip
    // reproduces the first one exactly.
    let mut samples = Vec::new();
    for r in (0u16..256).step_by(7) {
        for g in (0u16..256).step_by(11) {
            for b in (0u16..256).step_by(5) {
                samples.push(RgbColor { r: r as u8, g: g as u8, b: b as u8 });
            }
        }
    }
    samples.push(RgbColor { r: 0, g: 35, b: 0 });
    samples.push(RgbColor { r: 255, g: 255, b: 255 });
    samples.push(RgbColor { r: 0, g: 0, b: 0 });
    for c in samples {
        let once = RgbColor::from_packed(c.to_packed());
        let twice = RgbColor::from_packed(once.to_packed());
        assert_eq!(once, twice, "color {:?}", c);
        assert_eq!(once.to_packed(), c.to_packed(), "color {:?}", c);
    }
}

#[test]
fn test_packed_never_zero() {
    for r in (0u16..256).step_by(3) {
        for g in (0u16..256).step_by(17) {
            for b in (0u16..256).step_by(13) {
                let c = RgbColor { r: r as u8, g: g as u8, b: b as u8 };
                let p = c.to_packed();
                assert_ne!(p.as_byte(), 0);
            }
        }
    }
    assert_ne!(RgbColor::black().to_packed().as_byte(), 0);
    assert_eq!(RgbColor::black().to_packed().as_byte(), 1);
    assert_eq!(RgbColor::white().to_packed().as_byte(), 252);
}

#[test]
fn test_channel_step_bases_fit_a_byte() {
    // The mixed-radix bases must leave room for the +1 sentinel offset.
    assert!(R_STEPS * G_STEPS * B_STEPS < u8::MAX as u32);
    assert_eq!((R_MAX, G_MAX, B_MAX), (R_STEPS - 1, G_STEPS - 1, B_STEPS - 1));
}

#[test]
fn test_pack_exact_values() {
    // Quantization rounds to the nearest step per channel (7 x 9 x 4
    // steps), then mixes in base 9 then 4 and adds one.
    let p = RgbColor { r: 128, g: 128, b: 1 }.to_packed();
    // r: 3 of 0..=6, g: 4 of 0..=8, b: 0 of 0..=3.
    assert_eq!(p.as_byte(), ((3 * 9 + 4) * 4) + 1);
    let c = RgbColor::from_packed(p);
    assert_eq!(c, RgbColor { r: 127, g: 127, b: 0 });
}

#[test]
fn test_color_vector_round_trip() {
    let c = RgbColor { r: 9, g: 8, b: 7 };
    let v = c.as_vec3d();
    assert_eq!((v.x, v.y, v.z), (9u8, 8u8, 7u8));
    assert_eq!(RgbColor::from_vec3d(v), c);
}

#[test]
fn test_color_escape_sequences() {
    let mut out = Vec::new();
    set_foreground_color(&mut out, RgbColor { r: 1, g: 22, b: 133 });
    assert_eq!(out, b"\x1b[38;2;1;22;133m");
    let mut out = Vec::new();
    set_background_color(&mut out, RgbColor { r: 0, g: 255, b: 64 });
    assert_eq!(out, b"\x1b[48;2;0;255;64m");
}

#[test]
fn test_display_emits_minimal_diffs() {
    // A uniform screen re-emits the tracked colors once per character
    // row and changes the foreground exactly once (white to black at the
    // first cell); nothing else.
    let screen = Screen::new();
    let out = screen.display();
    assert_eq!(&out[..3], b"\x1b[H");
    assert_eq!(&out[out.len() - 4..], b"\x1b[m\n");
    let mut fg_count = 0;
    let mut bg_count = 0;
    let mut glyph_count = 0;
    for i in 0..out.len() {
        if out[i..].starts_with(b"\x1b[38;2;") {
            fg_count += 1;
        }
        if out[i..].starts_with(b"\x1b[48;2;") {
            bg_count += 1;
        }
        if out[i..].starts_with("\u{2580}".as_bytes()) {
            glyph_count += 1;
        }
    }
    assert_eq!(glyph_count, 38 * 100);
    assert_eq!(bg_count, 38);
    assert_eq!(fg_count, 38 + 1);
}

#[test]
fn test_display_reemits_on_change() {
    let mut screen = Screen::new();
    // Two adjacent pixels of different colors in the top row force one
    // foreground change each.
    screen.set_pixel(0, 0, RgbColor { r: 200, g: 0, b: 0 });
    screen.set_pixel(1, 0, RgbColor { r: 0, g: 200, b: 0 });
    let out = screen.display();
    let mut fg_count = 0;
    for i in 0..out.len() {
        if out[i..].starts_with(b"\x1b[38;2;") {
            fg_count += 1;
        }
    }
    // Row starts: 38; changes in row 0: red, green, then back to black.
    assert_eq!(fg_count, 38 + 3);
}

#[test]
fn test_pixel_dimensions() {
    let screen = Screen::new();
    let (dx, dy) = screen.pixel_dimensions();
    assert_eq!(dx.as_bits(), 1 << 24);
    assert_eq!(dy.as_bits(), 1 << 24);
}

#[test]
fn test_render_smoke() {
    // Looking straight back along -z from inside the world, the frame is
    // not uniformly black: the far wall carries the shell pseudo-color.
    let world = World::new();
    let mut screen = Screen::new();
    let fx = |v: i64| Fix64::from_int(v);
    world.render(
        &mut screen,
        Vec3D { x: fx(0), y: fx(0), z: fx(18) },
        Vec3D { x: fx(0), y: fx(0), z: fx(-1) },
        Vec3D { x: fx(-1), y: fx(0), z: fx(0) },
        Vec3D { x: fx(0), y: fx(-1), z: fx(0) },
    );
    assert_eq!(screen.pixels.len(), 7500);
    let mut nonblack = 0;
    for p in screen.pixels.iter() {
        if *p != RgbColor::black() {
            nonblack += 1;
        }
    }
    assert!(nonblack > 0);
}

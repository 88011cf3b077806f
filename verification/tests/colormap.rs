use colorgrad::Gradient;
use depth_map_processor::{colorize, Colormap, Raster8, Rgb};

fn gray_ramp() -> Colormap {
    let table: Vec<Rgb> = (0..=255u8).map(|v| Rgb { r: v, g: 255 - v, b: v / 2 }).collect();
    Colormap::from_table(table).unwrap()
}

#[test]
fn colormap_from_table_needs_256_entries() {
    let black = Rgb { r: 0, g: 0, b: 0 };
    assert!(Colormap::from_table(vec![black; 256]).is_some());
    assert!(Colormap::from_table(vec![black; 255]).is_none());
    assert!(Colormap::from_table(vec![black; 257]).is_none());
    assert!(Colormap::from_table(vec![]).is_none());
}

#[test]
fn colormap_sample_reads_the_table() {
    let cm = gray_ramp();
    assert_eq!(cm.sample(0), Rgb { r: 0, g: 255, b: 0 });
    assert_eq!(cm.sample(1), Rgb { r: 1, g: 254, b: 0 });
    assert_eq!(cm.sample(200), Rgb { r: 200, g: 55, b: 100 });
    assert_eq!(cm.sample(255), Rgb { r: 255, g: 0, b: 127 });
}

#[test]
fn turbo_ends_are_the_ends_of_the_gradient() {
    let cm = Colormap::turbo();
    assert_eq!(cm.sample(0), Rgb { r: 35, g: 23, b: 27 });
    assert_eq!(cm.sample(255), Rgb { r: 144, g: 12, b: 0 });
}

#[test]
fn turbo_entry_is_the_gradient_at_level_over_255() {
    let cm = Colormap::turbo();
    let gradient = colorgrad::preset::turbo();
    for level in 0..=255u8 {
        let rgba = gradient.at(level as f32 / 255.0f32).to_rgba8();
        assert_eq!(cm.sample(level), Rgb { r: rgba[0], g: rgba[1], b: rgba[2] });
    }
}

#[test]
fn turbo_is_not_a_constant_table() {
    let cm = Colormap::turbo();
    assert_ne!(cm.sample(0), cm.sample(128));
    assert_ne!(cm.sample(128), cm.sample(255));
    assert_ne!(cm.sample(0), cm.sample(255));
}

#[test]
fn turbo_is_the_same_on_every_call() {
    let a = Colormap::turbo();
    let b = Colormap::turbo();
    for level in 0..=255u8 {
        assert_eq!(a.sample(level), b.sample(level));
    }
}

#[test]
fn colorize_looks_each_sample_up() {
    let cm = gray_ramp();
    let r = Raster8::new(3, 2, vec![0, 255, 10, 10, 128, 1]).unwrap();
    let out = colorize(&r, &cm);
    assert_eq!(out.width(), 3);
    assert_eq!(out.height(), 2);
    assert_eq!(
        out.samples(),
        &vec![
            Rgb { r: 0, g: 255, b: 0 },
            Rgb { r: 255, g: 0, b: 127 },
            Rgb { r: 10, g: 245, b: 5 },
            Rgb { r: 10, g: 245, b: 5 },
            Rgb { r: 128, g: 127, b: 64 },
            Rgb { r: 1, g: 254, b: 0 },
        ]
    );
}

#[test]
fn colorize_of_an_empty_raster_is_empty() {
    let r = Raster8::new(0, 0, vec![]).unwrap();
    let out = colorize(&r, &gray_ramp());
    assert_eq!(out.width(), 0);
    assert_eq!(out.height(), 0);
    assert!(out.samples().is_empty());
}

#[test]
fn colorize_is_deterministic() {
    let cm = Colormap::turbo();
    let samples: Vec<u8> = vec![0, 17, 17, 255, 128, 64, 0, 255];
    let a = Raster8::new(4, 2, samples.clone()).unwrap();
    let b = Raster8::new(4, 2, samples).unwrap();
    let first = colorize(&a, &cm);
    let second = colorize(&b, &cm);
    let third = colorize(&a, &Colormap::turbo());
    assert_eq!(first.samples(), second.samples());
    assert_eq!(first.samples(), third.samples());
    assert_eq!(first.samples()[1], first.samples()[2]);
    assert_eq!(first.samples()[0], first.samples()[6]);
    assert_eq!(first.samples()[3], first.samples()[7]);
}

#[test]
fn colorize_with_turbo_matches_the_gradient_pixel_by_pixel() {
    let samples: Vec<u8> = (0..=255).collect();
    let r = Raster8::new(32, 8, samples.clone()).unwrap();
    let out = colorize(&r, &Colormap::turbo());
    let gradient = colorgrad::preset::turbo();
    for (s, p) in samples.iter().zip(out.samples().iter()) {
        let rgba = gradient.at(*s as f32 / 255.0f32).to_rgba8();
        assert_eq!(*p, Rgb { r: rgba[0], g: rgba[1], b: rgba[2] });
    }
}

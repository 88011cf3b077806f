use depth_map_processor::pipeline::MILLIMETERS_PER_METER;
use depth_map_processor::{
    process_depth_map, process_with_colormap, Colormap, DepthMapStats, ErrorKind, Raster16, Rgb,
};

#[test]
fn end_to_end_two_by_two() {
    let depth = Raster16::new(2, 2, vec![0, 10000, 5000, 10000]).unwrap();
    let out = process_depth_map(&depth, false).unwrap();
    assert_eq!(out.stats.min_val, 0);
    assert_eq!(out.stats.max_val, 10000);
    assert_eq!(out.grayscale.width(), 2);
    assert_eq!(out.grayscale.height(), 2);
    assert_eq!(out.grayscale.samples(), &vec![0u8, 255, 127, 255]);
    assert_eq!(out.grayscale.get(0, 1), Some(&127));
    assert_eq!(out.stats.sample_depth_mm, 0);
    assert_eq!(out.stats.sample_depth_mm as f32 / MILLIMETERS_PER_METER as f32, 0.0);
    assert!(out.visualization.is_none());
}

#[test]
fn end_to_end_flat_raster() {
    let depth = Raster16::new(2, 2, vec![7, 7, 7, 7]).unwrap();
    let out = process_depth_map(&depth, true).unwrap();
    assert_eq!(out.stats.min_val, 7);
    assert_eq!(out.stats.max_val, 7);
    assert_eq!(out.grayscale.samples(), &vec![0u8, 0, 0, 0]);
    let viz = out.visualization.unwrap();
    let dark = Colormap::turbo().sample(0);
    assert_eq!(viz.samples(), &vec![dark; 4]);
}

#[test]
fn summary_reports_dimensions_range_and_first_sample() {
    let depth = Raster16::new(3, 2, vec![1500, 300, 2500, 900, 300, 2499]).unwrap();
    let out = process_depth_map(&depth, false).unwrap();
    assert_eq!(
        out.stats,
        DepthMapStats { width: 3, height: 2, min_val: 300, max_val: 2500, sample_depth_mm: 1500 }
    );
    assert_eq!(out.stats.sample_depth_mm as f32 / MILLIMETERS_PER_METER as f32, 1.5);
}

#[test]
fn millimeters_per_meter_is_one_thousand() {
    assert_eq!(MILLIMETERS_PER_METER, 1000);
}

#[test]
fn visualization_only_when_asked_for() {
    let depth = Raster16::new(2, 1, vec![10, 20]).unwrap();
    assert!(process_depth_map(&depth, false).unwrap().visualization.is_none());
    assert!(process_depth_map(&depth, true).unwrap().visualization.is_some());
    assert!(process_with_colormap(&depth, None).unwrap().visualization.is_none());
    let cm = Colormap::turbo();
    assert!(process_with_colormap(&depth, Some(&cm)).unwrap().visualization.is_some());
}

#[test]
fn visualization_colours_the_normalised_raster() {
    let table: Vec<Rgb> = (0..=255u8).map(|v| Rgb { r: v, g: v, b: 255 - v }).collect();
    let cm = Colormap::from_table(table).unwrap();
    let depth = Raster16::new(2, 2, vec![0, 10000, 5000, 10000]).unwrap();
    let out = process_with_colormap(&depth, Some(&cm)).unwrap();
    let viz = out.visualization.unwrap();
    assert_eq!(viz.width(), 2);
    assert_eq!(viz.height(), 2);
    assert_eq!(
        viz.samples(),
        &vec![
            Rgb { r: 0, g: 0, b: 255 },
            Rgb { r: 255, g: 255, b: 0 },
            Rgb { r: 127, g: 127, b: 128 },
            Rgb { r: 255, g: 255, b: 0 },
        ]
    );
}

#[test]
fn turbo_visualization_of_the_two_by_two_example() {
    let depth = Raster16::new(2, 2, vec![0, 10000, 5000, 10000]).unwrap();
    let out = process_depth_map(&depth, true).unwrap();
    let viz = out.visualization.unwrap();
    let cm = Colormap::turbo();
    assert_eq!(viz.samples(), &vec![cm.sample(0), cm.sample(255), cm.sample(127), cm.sample(255)]);
    assert_eq!(viz.samples()[0], Rgb { r: 35, g: 23, b: 27 });
    assert_eq!(viz.samples()[1], Rgb { r: 144, g: 12, b: 0 });
}

#[test]
fn processing_a_raster_without_samples_is_a_precondition_violation() {
    let depth = Raster16::new(0, 0, vec![]).unwrap();
    let e = process_depth_map(&depth, true).unwrap_err();
    assert_eq!(e.kind, ErrorKind::PreconditionViolation);
    assert_eq!(e.message, "depth map has no samples");
    let e = process_with_colormap(&depth, None).unwrap_err();
    assert_eq!(e.kind, ErrorKind::PreconditionViolation);
}

#[test]
fn a_gradient_image_is_normalised_like_its_formula() {
    let width: u32 = 64;
    let height: u32 = 64;
    let max_den: u32 = width + height - 2;
    let mut samples: Vec<u16> = Vec::new();
    for y in 0..height {
        for x in 0..width {
            samples.push(((x + y) * 10_000 / max_den) as u16);
        }
    }
    let depth = Raster16::new(width, height, samples.clone()).unwrap();
    let out = process_depth_map(&depth, true).unwrap();
    assert_eq!(
        out.stats,
        DepthMapStats { width: 64, height: 64, min_val: 0, max_val: 10000, sample_depth_mm: 0 }
    );
    for (s, o) in samples.iter().zip(out.grayscale.samples().iter()) {
        assert_eq!(*o, ((*s as f32 - 0.0) / 10000.0 * 255.0) as u8);
    }
    assert_eq!(out.visualization.unwrap().samples().len(), 64 * 64);
}

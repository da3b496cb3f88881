use raytracer::renderer::{post_process_steps, ImageConfig, PostStep, Tile, TILE_SIZE};

#[test]
fn tile_grid_rounds_up() {
    let image = ImageConfig { width: 40, height: 16 };
    assert_eq!(image.tiles_x(), 3);
    assert_eq!(image.tiles_y(), 1);
    assert_eq!(image.tile_count(), 3);
    assert_eq!(image.pixel_count(), 640);
    assert_eq!(TILE_SIZE, 16);
}

#[test]
fn tiles_are_cut_at_the_edges() {
    let image = ImageConfig { width: 40, height: 20 };
    assert!(image.tile(0) == Tile { x_start: 0, y_start: 0, x_end: 16, y_end: 16 });
    assert!(image.tile(2) == Tile { x_start: 32, y_start: 0, x_end: 40, y_end: 16 });
    assert!(image.tile(4) == Tile { x_start: 16, y_start: 16, x_end: 32, y_end: 20 });
}

#[test]
fn tiles_cover_each_pixel_once() {
    let image = ImageConfig { width: 37, height: 21 };
    let mut seen = vec![0u32; 37 * 21];
    for i in 0..image.tile_count() {
        let t = image.tile(i);
        for y in t.y_start..t.y_end {
            for x in t.x_start..t.x_end {
                seen[(y * 37 + x) as usize] += 1;
            }
        }
    }
    assert!(seen.iter().all(|&c| c == 1));
}

#[test]
fn empty_image_has_no_tiles() {
    let image = ImageConfig { width: 0, height: 10 };
    assert_eq!(image.tile_count(), 0);
    assert_eq!(image.pixel_count(), 0);
}

#[test]
fn largest_image_counts_fit() {
    let image = ImageConfig { width: u32::MAX, height: u32::MAX };
    assert_eq!(image.pixel_count(), (u32::MAX as u64) * (u32::MAX as u64));
    assert_eq!(image.tiles_x(), 268435456);
    let last = image.tile(image.tile_count() - 1);
    assert_eq!(last.x_end, u32::MAX);
    assert_eq!(last.y_end, u32::MAX);
}

#[test]
fn post_processing_order() {
    assert!(
        post_process_steps(Some("reinhard"), true, true)
            == vec![PostStep::Reinhard, PostStep::Gamma, PostStep::WhiteBalance]
    );
    assert!(post_process_steps(Some("aces"), true, false) == vec![PostStep::Gamma]);
    assert!(post_process_steps(Some("Reinhard"), false, false).is_empty());
    assert!(post_process_steps(None, false, true) == vec![PostStep::WhiteBalance]);
}

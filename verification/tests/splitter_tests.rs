use image::GenericImageView;
use rwpspread::config::AppConfig;
use rwpspread::fingerprint::{fingerprint, u64_to_dec_string};
use rwpspread::geometry::{canvas_size, needs_scale, Monitor};
use rwpspread::setter::sway_config_line;
use rwpspread::splitter::Splitter;

fn monitor(name: &str, width: u32, height: u32, x: i32, y: i32) -> Monitor {
    Monitor { name: name.to_string(), width, height, x, y }
}

fn config(image_path: &str, cache_path: &str, force_resplit: bool, no_downscale: bool) -> AppConfig {
    AppConfig {
        image_path: image_path.to_string(),
        cache_path: cache_path.to_string(),
        force_resplit,
        no_downscale,
        dont_set: true,
        silent: true,
    }
}

/// A solid-color image whose left and right halves differ.
fn halves_image(width: u32, height: u32, left: [u8; 3], right: [u8; 3]) -> image::DynamicImage {
    let mut buf = image::RgbImage::new(width, height);
    for y in 0..height {
        for x in 0..width {
            let c = if x < width / 2 { left } else { right };
            buf.put_pixel(x, y, image::Rgb(c));
        }
    }
    image::DynamicImage::ImageRgb8(buf)
}

fn solid_image(width: u32, height: u32, color: [u8; 3]) -> image::DynamicImage {
    let mut buf = image::RgbImage::new(width, height);
    for y in 0..height {
        for x in 0..width {
            buf.put_pixel(x, y, image::Rgb(color));
        }
    }
    image::DynamicImage::ImageRgb8(buf)
}

/// The raw bytes of an image's PNG encoding — what a source file holds.
fn encode_png(img: &image::DynamicImage) -> Vec<u8> {
    let mut bytes: Vec<u8> = Vec::new();
    img.write_to(&mut std::io::Cursor::new(&mut bytes), image::ImageFormat::Png)
        .unwrap();
    bytes
}

fn assert_solid(img: &image::DynamicImage, color: [u8; 3]) {
    let rgb = img.to_rgb8();
    for p in rgb.pixels() {
        assert_eq!(p.0, color);
    }
}

#[test]
fn canvas_size_two_side_by_side() {
    let monitors = vec![
        monitor("A", 1920, 1080, 0, 0),
        monitor("B", 1920, 1080, 1920, 0),
    ];
    assert_eq!(canvas_size(&monitors), (3840, 1080));
}

#[test]
fn canvas_size_stacked_and_offset() {
    let monitors = vec![
        monitor("A", 1280, 720, 0, 0),
        monitor("B", 1024, 768, 200, 720),
    ];
    assert_eq!(canvas_size(&monitors), (1280, 1488));
}

#[test]
fn needs_scale_policy() {
    // Scaling happens by default (no_downscale == false).
    assert!(needs_scale(4000, 2000, 3840, 1080, false));
    // Opting out keeps a big image as it is.
    assert!(!needs_scale(4000, 2000, 3840, 1080, true));
    // A too-small image is scaled regardless of the flag.
    assert!(needs_scale(640, 480, 1280, 720, true));
    assert!(needs_scale(640, 2000, 1280, 720, true));
    assert!(needs_scale(4000, 480, 1280, 720, true));
    // Exact fit with the opt-out set: no scaling.
    assert!(!needs_scale(1280, 720, 1280, 720, true));
}

#[test]
fn fingerprint_deterministic() {
    let monitors = vec![
        monitor("A", 1920, 1080, 0, 0),
        monitor("B", 1920, 1080, 1920, 0),
    ];
    let bytes = vec![1u8, 2, 3, 4, 5];
    let first = fingerprint(&monitors, true, &bytes);
    let second = fingerprint(&monitors, true, &bytes);
    assert_eq!(first, second);
}

#[test]
fn fingerprint_sensitive() {
    let monitors = vec![
        monitor("A", 1920, 1080, 0, 0),
        monitor("B", 1920, 1080, 1920, 0),
    ];
    let bytes = vec![1u8, 2, 3, 4, 5];
    let base = fingerprint(&monitors, true, &bytes);

    // Changing one monitor's geometry changes the fingerprint.
    let moved = vec![
        monitor("A", 1920, 1080, 0, 0),
        monitor("B", 1920, 1080, 1920, 8),
    ];
    assert_ne!(base, fingerprint(&moved, true, &bytes));

    // Changing a monitor's name changes the fingerprint.
    let renamed = vec![
        monitor("A", 1920, 1080, 0, 0),
        monitor("C", 1920, 1080, 1920, 0),
    ];
    assert_ne!(base, fingerprint(&renamed, true, &bytes));

    // Changing the downscale flag changes the fingerprint.
    assert_ne!(base, fingerprint(&monitors, false, &bytes));

    // Mutating one image byte changes the fingerprint.
    let mut mutated = bytes.clone();
    mutated[2] ^= 1;
    assert_ne!(base, fingerprint(&monitors, true, &mutated));
}

#[test]
fn decimal_rendering_exact() {
    assert_eq!(u64_to_dec_string(0), "0");
    assert_eq!(u64_to_dec_string(7), "7");
    assert_eq!(u64_to_dec_string(1234567890), "1234567890");
    assert_eq!(u64_to_dec_string(u64::MAX), "18446744073709551615");
}

#[test]
fn fragment_path_exact() {
    let cfg = config("/tmp/in.png", "/tmp/", false, false);
    assert_eq!(
        cfg.resolve_cached_fragment_path("DP-1", "42"),
        "/tmp/swaybg_spread_42_DP-1.png"
    );
}

#[test]
fn fragment_paths_distinct_names() {
    let cfg = config("/tmp/in.png", "/tmp/", false, false);
    let a = cfg.resolve_cached_fragment_path("DP-1", "42");
    let b = cfg.resolve_cached_fragment_path("DP-2", "42");
    assert_ne!(a, b);
    // Distinct fingerprints stay apart as well.
    let c = cfg.resolve_cached_fragment_path("DP-1", &u64_to_dec_string(42));
    let d = cfg.resolve_cached_fragment_path("DP-1", &u64_to_dec_string(43));
    assert_ne!(c, d);
}

#[test]
fn sway_config_line_exact() {
    assert_eq!(
        sway_config_line("DP-1", "/tmp/w.png"),
        "output DP-1 bg /tmp/w.png fill"
    );
}

#[test]
fn scenario_two_monitors_no_scale() {
    // Source exactly covers the canvas; with the opt-out set, no scaling:
    // fragment A is the left half, fragment B the right half.
    let red = [200u8, 10, 10];
    let blue = [10u8, 10, 200];
    let src_bytes = encode_png(&halves_image(3840, 1080, red, blue));

    let monitors = vec![
        monitor("A", 1920, 1080, 0, 0),
        monitor("B", 1920, 1080, 1920, 0),
    ];
    let cfg = config("/tmp/rwps_sc_a_src.png", "/tmp/rwps_sc_a_", false, true);
    let splitter = Splitter::new(cfg, monitors);
    let fragments = splitter.run(&src_bytes).unwrap();

    assert_eq!(fragments.len(), 2);
    assert_eq!(fragments[0].monitor_name, "A");
    assert_eq!(fragments[1].monitor_name, "B");
    assert_eq!(fragments[0].image.dimensions(), (1920, 1080));
    assert_eq!(fragments[1].image.dimensions(), (1920, 1080));
    assert_solid(&fragments[0].image, red);
    assert_solid(&fragments[1].image, blue);

    // Round trip: the saved fragment file decodes to pixel-identical content.
    for fragment in &fragments {
        let reloaded = image::open(&fragment.image_full_path).unwrap();
        assert_eq!(
            reloaded.to_rgb8().into_raw(),
            fragment.image.to_rgb8().into_raw()
        );
    }
}

#[test]
fn scenario_small_source_forces_scale() {
    // A 640x480 source under a 1280x720 monitor is scaled to fill the canvas
    // whatever the flag says.
    for no_downscale in [false, true] {
        let src_bytes = encode_png(&solid_image(640, 480, [77, 88, 99]));
        let monitors = vec![monitor("ONLY", 1280, 720, 0, 0)];
        let cfg = config("/tmp/rwps_sc_b_src.png", "/tmp/rwps_sc_b_", false, no_downscale);
        let splitter = Splitter::new(cfg, monitors);
        let fragments = splitter.run(&src_bytes).unwrap();
        assert_eq!(fragments.len(), 1);
        assert_eq!(fragments[0].image.dimensions(), (1280, 720));
        assert_solid(&fragments[0].image, [77, 88, 99]);
    }
}

#[test]
fn cache_hit_does_not_rewrite() {
    // After a first run, a second run with identical inputs reuses the cache
    // files as they are. Tampering with the cached file between the runs
    // makes that visible: the second run returns the tampered content.
    let base = unique_color();
    let src_bytes = encode_png(&solid_image(320, 200, base));
    let monitors = vec![monitor("A", 320, 200, 0, 0)];
    let cfg = config("/tmp/rwps_hit_src.png", "/tmp/rwps_hit_", false, true);

    let splitter = Splitter::new(cfg, monitors);
    let fragments = splitter.run(&src_bytes).unwrap();
    assert_eq!(fragments.len(), 1);
    assert_solid(&fragments[0].image, base);

    let tampered = [base[0] ^ 0xff, base[1], base[2]];
    solid_image(320, 200, tampered)
        .save(&fragments[0].image_full_path)
        .unwrap();

    let monitors = vec![monitor("A", 320, 200, 0, 0)];
    let cfg = config("/tmp/rwps_hit_src.png", "/tmp/rwps_hit_", false, true);
    let splitter = Splitter::new(cfg, monitors);
    let again = splitter.run(&src_bytes).unwrap();
    assert_eq!(again[0].image_full_path, fragments[0].image_full_path);
    assert_solid(&again[0].image, tampered);
}

#[test]
fn scenario_force_resplit_bypasses_cache() {
    // With a fully valid cache set present, force_resplit still rewrites
    // every fragment: tampered cache content does not survive the run.
    let base = unique_color();
    let src_bytes = encode_png(&solid_image(320, 200, base));
    let monitors = vec![monitor("A", 320, 200, 0, 0)];
    let cfg = config("/tmp/rwps_force_src.png", "/tmp/rwps_force_", false, true);
    let splitter = Splitter::new(cfg, monitors);
    let fragments = splitter.run(&src_bytes).unwrap();
    assert_solid(&fragments[0].image, base);

    let tampered = [base[0] ^ 0xff, base[1], base[2]];
    solid_image(320, 200, tampered)
        .save(&fragments[0].image_full_path)
        .unwrap();

    let monitors = vec![monitor("A", 320, 200, 0, 0)];
    let cfg = config("/tmp/rwps_force_src.png", "/tmp/rwps_force_", true, true);
    let splitter = Splitter::new(cfg, monitors);
    let again = splitter.run(&src_bytes).unwrap();
    assert_eq!(again[0].image_full_path, fragments[0].image_full_path);
    assert_solid(&again[0].image, base);
}

/// A color that differs between test executions, so a fingerprint built on
/// it never matches cache files left behind by an earlier execution.
fn unique_color() -> [u8; 3] {
    let nanos = std::time::SystemTime::now()
        .duration_since(std::time::UNIX_EPOCH)
        .unwrap()
        .subsec_nanos();
    [(nanos >> 16) as u8, (nanos >> 8) as u8, nanos as u8]
}

#[test]
fn scenario_partial_cache_is_full_miss() {
    // Cache files exist for monitor A but not for B under the current
    // fingerprint: the run treats that as a full miss and regenerates both.
    let red = unique_color();
    let blue = [10u8, 10, 200];
    let src_bytes = encode_png(&halves_image(640, 200, red, blue));

    let monitors = vec![
        monitor("A", 320, 200, 0, 0),
        monitor("B", 320, 200, 320, 0),
    ];
    let cfg = config("/tmp/rwps_partial_src.png", "/tmp/rwps_partial_", false, true);

    // Predict A's cache path for this run and plant a stale file there.
    let hash = u64_to_dec_string(fingerprint(&monitors, true, &src_bytes));
    let a_path = cfg.resolve_cached_fragment_path("A", &hash);
    let tampered = [9u8, 9, 9];
    solid_image(320, 200, tampered).save(&a_path).unwrap();

    let splitter = Splitter::new(cfg, monitors);
    let fragments = splitter.run(&src_bytes).unwrap();
    assert_eq!(fragments.len(), 2);
    // Both fragments were regenerated: A holds the fresh left half, not the
    // planted content.
    assert_solid(&fragments[0].image, red);
    assert_solid(&fragments[1].image, blue);
}

#[test]
fn undecodable_source_is_an_error() {
    let monitors = vec![monitor("A", 320, 200, 0, 0)];
    let cfg = config("/tmp/rwps_err_src.png", "/tmp/rwps_err_", false, true);
    let splitter = Splitter::new(cfg, monitors);
    let not_an_image = vec![1u8, 2, 3, 4];
    let result = splitter.run(&not_an_image);
    assert_eq!(result.err().unwrap(), "failed to open image");
}

#[test]
fn fingerprint_covers_raw_file_bytes() {
    // Two encodings of the same pixels are different files, so they must
    // fingerprint differently — an in-place re-encode invalidates the cache.
    let img = solid_image(64, 64, [5, 6, 7]);
    let png = encode_png(&img);
    let mut bmp: Vec<u8> = Vec::new();
    img.write_to(&mut std::io::Cursor::new(&mut bmp), image::ImageFormat::Bmp)
        .unwrap();
    let monitors = vec![monitor("A", 64, 64, 0, 0)];
    assert_ne!(
        fingerprint(&monitors, true, &png),
        fingerprint(&monitors, true, &bmp)
    );
}

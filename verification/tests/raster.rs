use raytracer::camera::{integer_sqrt, sample_square_stratified, Camera};
use raytracer::rtweekend::color::{
    linear_to_gamma, quantize, write_color, write_decimal, write_header, write_image, write_pixel,
    write_ppm, BRIGHTEST,
};
use raytracer::rtweekend::scalar::{bits_of_rank, rank_of_bits};
use raytracer::rtweekend::vec3::Vec3;

fn rank(x: f64) -> i64 {
    rank_of_bits(x.to_bits())
}

fn value(rank: i64) -> f64 {
    f64::from_bits(bits_of_rank(rank))
}

fn black() -> Vec3 {
    Vec3 { e: [0, 0, 0] }
}

#[test]
fn integer_square_roots() {
    assert_eq!(integer_sqrt(0), 0);
    assert_eq!(integer_sqrt(1), 1);
    assert_eq!(integer_sqrt(3), 1);
    assert_eq!(integer_sqrt(4), 2);
    assert_eq!(integer_sqrt(199), 14);
    assert_eq!(integer_sqrt(200), 14);
    assert_eq!(integer_sqrt(225), 15);
    assert_eq!(integer_sqrt(65535 * 65535), 65535);
    assert_eq!(integer_sqrt(u32::MAX), 65535);
}

#[test]
fn integer_square_root_agrees_with_the_float_one() {
    for n in (0..100000u32).chain([u32::MAX - 1, 1 << 31, 4294836225, 4294836224]) {
        assert_eq!(integer_sqrt(n), (n as f64).sqrt() as u32);
    }
}

#[test]
fn initialize_fixes_the_raster() {
    let cam = Camera::initialize(800, 800, 200, 20, black());
    assert_eq!(
        cam,
        Camera {
            width: 800,
            height: 800,
            samples_per_pixel: 200,
            sqrt_spp: 14,
            max_depth: 20,
            background: black(),
        }
    );
    let flat = Camera::initialize(400, 0, 4, 50, black());
    assert_eq!(flat.height, 1);
    assert_eq!(flat.sqrt_spp, 2);
}

#[test]
fn bands_tile_the_rows() {
    for (height, num_threads) in [(800u32, 8u32), (28, 3), (7, 8), (1, 1), (100, 7), (5, 5)] {
        let cam = Camera::initialize(10, height, 1, 1, black());
        let mut next = 0;
        for index in 0..num_threads {
            let (start_y, end_y) = cam.band(index, num_threads);
            assert_eq!(start_y, next);
            assert!(start_y <= end_y);
            if index + 1 < num_threads {
                assert_eq!(end_y - start_y, height / num_threads);
            }
            next = end_y;
        }
        assert_eq!(next, height);
    }
}

#[test]
fn last_band_takes_the_remainder() {
    let cam = Camera::initialize(10, 28, 1, 1, black());
    assert_eq!(cam.band(0, 3), (0, 9));
    assert_eq!(cam.band(1, 3), (9, 18));
    assert_eq!(cam.band(2, 3), (18, 28));
    let few = Camera::initialize(10, 3, 1, 1, black());
    assert_eq!(few.band(0, 8), (0, 0));
    assert_eq!(few.band(7, 8), (0, 3));
}

#[test]
fn pixels_are_stored_row_by_row() {
    let cam = Camera::initialize(50, 28, 1, 1, black());
    assert_eq!(cam.pixel_index(0, 0), 0);
    assert_eq!(cam.pixel_index(49, 0), 49);
    assert_eq!(cam.pixel_index(0, 1), 50);
    assert_eq!(cam.pixel_index(7, 3), 157);
    assert_eq!(cam.pixel_index(49, 27), 50 * 28 - 1);
}

#[test]
fn samples_visit_every_cell_once() {
    let cam = Camera::initialize(1, 1, 10, 1, black());
    assert_eq!(cam.sqrt_spp, 3);
    let mut seen = [[0; 3]; 3];
    for sample in 0..9 {
        let (si, sj) = cam.cell(sample);
        seen[sj as usize][si as usize] += 1;
    }
    assert_eq!(seen, [[1; 3]; 3]);
    assert_eq!(cam.cell(0), (0, 0));
    assert_eq!(cam.cell(2), (2, 0));
    assert_eq!(cam.cell(3), (0, 1));
    assert_eq!(cam.cell(7), (1, 2));
}

#[test]
fn stratified_offsets_stay_in_the_pixel_and_tile_it() {
    for k in [1u32, 2, 3, 7, 14] {
        let recip = 1.0 / k as f64;
        for cell in 0..k {
            for jitter in [0.0, 0.25, 0.5, 0.999999999, 1.0 - f64::EPSILON / 2.0] {
                let px = (cell as f64 + jitter) * recip - 0.5;
                let offset = sample_square_stratified(rank(px), rank(-px));
                let (x, y) = (value(offset.e[0]), value(offset.e[1]));
                assert!(-0.5 <= x && x <= 0.5);
                assert!(-0.5 <= y && y <= 0.5);
                assert!((x - px).abs() < 1e-15);
                assert_eq!(offset.e[2], 0);
                let lower = cell as f64 * recip - 0.5;
                let upper = (cell + 1) as f64 * recip - 0.5;
                assert!(lower - 1e-15 <= x && x <= upper + 1e-15);
            }
            let this_upper = (cell + 1) as f64 * recip - 0.5;
            let next_lower = (cell + 1) as f64 * recip - 0.5;
            assert_eq!(this_upper, next_lower);
        }
        assert_eq!(0.0 * recip - 0.5, -0.5);
        assert!(((k as f64) * recip - 0.5 - 0.5).abs() < 1e-15);
    }
}

#[test]
fn stray_offsets_are_clamped_into_the_pixel() {
    let offset = sample_square_stratified(rank(0.5000000001), rank(-0.75));
    assert_eq!(value(offset.e[0]), 0.5);
    assert_eq!(value(offset.e[1]), -0.5);
    let kept = sample_square_stratified(rank(0.125), rank(-0.5));
    assert_eq!((value(kept.e[0]), value(kept.e[1])), (0.125, -0.5));
}

#[test]
fn decimal_digits() {
    for (n, text) in [(0u32, "0"), (7, "7"), (10, "10"), (255, "255"), (4294967295, "4294967295")] {
        let mut out = Vec::new();
        write_decimal(n, &mut out);
        assert_eq!(String::from_utf8(out).unwrap(), text);
    }
    let mut out = b"x=".to_vec();
    write_decimal(1203, &mut out);
    assert_eq!(out, b"x=1203".to_vec());
}

#[test]
fn header_of_a_plain_ppm() {
    let mut out = Vec::new();
    write_header(800, 600, &mut out);
    assert_eq!(String::from_utf8(out).unwrap(), "P3\n800 600\n255\n");
}

#[test]
fn one_line_per_pixel() {
    let mut out = Vec::new();
    write_pixel(&[255, 0, 37], &mut out);
    write_pixel(&[1, 22, 255], &mut out);
    assert_eq!(String::from_utf8(out).unwrap(), "255 0 37\n1 22 255\n");
}

#[test]
fn whole_image() {
    let pixels = vec![[0u8, 0, 0], [255, 255, 255], [12, 34, 56], [1, 2, 3], [9, 9, 9], [7, 0, 7]];
    let out = write_ppm(3, 2, &pixels);
    assert_eq!(
        String::from_utf8(out).unwrap(),
        "P3\n3 2\n255\n0 0 0\n255 255 255\n12 34 56\n1 2 3\n9 9 9\n7 0 7\n"
    );
    assert_eq!(String::from_utf8(write_ppm(0, 5, &Vec::new())).unwrap(), "P3\n0 5\n255\n");
}

#[test]
fn block_is_rendered_row_by_row_from_all_samples() {
    let cam = Camera::initialize(4, 6, 9, 1, black());
    let sample = |i: u32, j: u32, si: u32, sj: u32| Vec3 {
        e: [(1000 * j + i) as i64, si as i64, sj as i64],
    };
    let average = |colors: &Vec<Vec3>| {
        let cells: Vec<(i64, i64)> = colors.iter().map(|c| (c.e[1], c.e[2])).collect();
        assert_eq!(
            cells,
            vec![(0, 0), (1, 0), (2, 0), (0, 1), (1, 1), (2, 1), (0, 2), (1, 2), (2, 2)]
        );
        assert!(colors.iter().all(|c| c.e[0] == colors[0].e[0]));
        Vec3 { e: [colors[0].e[0], colors.len() as i64, 0] }
    };
    let rows = cam.render_block(2, 5, &sample, &average);
    assert_eq!(rows.len(), 12);
    let pixels: Vec<i64> = rows.iter().map(|c| c.e[0]).collect();
    assert_eq!(pixels, vec![2000, 2001, 2002, 2003, 3000, 3001, 3002, 3003, 4000, 4001, 4002, 4003]);
    assert!(rows.iter().all(|c| c.e[1] == 9));
    assert!(cam.render_block(3, 3, &sample, &average).is_empty());
}

#[test]
fn block_without_samples_averages_nothing() {
    let cam = Camera {
        width: 2,
        height: 2,
        samples_per_pixel: 0,
        sqrt_spp: 0,
        max_depth: 1,
        background: black(),
    };
    let sample = |_: u32, _: u32, _: u32, _: u32| -> Vec3 { panic!("there are no samples") };
    let average = |colors: &Vec<Vec3>| Vec3 { e: [colors.len() as i64, 7, 7] };
    let rows = cam.render_block(0, 2, &sample, &average);
    assert_eq!(rows, vec![Vec3 { e: [0, 7, 7] }; 4]);
}

#[test]
fn bands_are_placed_where_they_belong() {
    let cam = Camera::initialize(3, 4, 1, 1, black());
    let mut frame = vec![Vec3 { e: [-1, -1, -1] }; 12];
    let rows: Vec<Vec3> = (0..6).map(|n| Vec3 { e: [n, n, n] }).collect();
    cam.place_band(&mut frame, 1, &rows);
    let seen: Vec<i64> = frame.iter().map(|c| c.e[0]).collect();
    assert_eq!(seen, vec![-1, -1, -1, 0, 1, 2, 3, 4, 5, -1, -1, -1]);
    cam.place_band(&mut frame, 3, &vec![Vec3 { e: [9, 9, 9] }; 3]);
    cam.place_band(&mut frame, 0, &Vec::new());
    let seen: Vec<i64> = frame.iter().map(|c| c.e[0]).collect();
    assert_eq!(seen, vec![-1, -1, -1, 0, 1, 2, 3, 4, 5, 9, 9, 9]);
}

#[test]
fn workers_fill_the_whole_frame() {
    let cam = Camera::initialize(5, 7, 4, 1, black());
    let sample = |i: u32, j: u32, _: u32, _: u32| Vec3 { e: [cam.pixel_index(i, j) as i64, 0, 0] };
    let average = |colors: &Vec<Vec3>| colors[0];
    let mut frame = vec![Vec3 { e: [-1, 0, 0] }; 35];
    for worker in 0..3 {
        let (start_y, end_y) = cam.band(worker, 3);
        let rows = cam.render_block(start_y, end_y, &sample, &average);
        cam.place_band(&mut frame, start_y, &rows);
    }
    let seen: Vec<i64> = frame.iter().map(|c| c.e[0]).collect();
    assert_eq!(seen, (0..35).collect::<Vec<i64>>());
}

fn root(x: i64) -> i64 {
    rank(value(x).sqrt())
}

fn level(x: i64) -> u8 {
    (256.0 * value(x)) as u8
}

#[test]
fn gamma_is_the_root_of_what_is_positive() {
    assert_eq!(linear_to_gamma(rank(0.25), &root), rank(0.5));
    assert_eq!(linear_to_gamma(rank(4.0), &root), rank(2.0));
    assert_eq!(linear_to_gamma(rank(0.0), &root), rank(0.0));
    assert_eq!(linear_to_gamma(rank(-4.0), &root), rank(0.0));
    assert_eq!(linear_to_gamma(rank(f64::NEG_INFINITY), &root), rank(0.0));
}

#[test]
fn channels_are_quantized_to_levels() {
    assert_eq!(BRIGHTEST, rank(0.999));
    assert_eq!(quantize(rank(0.0), &root, &level), 0);
    assert_eq!(quantize(rank(0.25), &root, &level), 128);
    assert_eq!(quantize(rank(1.0), &root, &level), 255);
    assert_eq!(quantize(rank(15.0), &root, &level), 255);
    assert_eq!(quantize(rank(f64::INFINITY), &root, &level), 255);
    assert_eq!(quantize(rank(-0.5), &root, &level), 0);
    assert_eq!(quantize(rank(f64::NAN), &root, &level), 0);
    assert_eq!(quantize(rank(-f64::NAN), &root, &level), 0);
    assert_eq!(quantize(rank(0.01), &root, &level), 25);
    assert_eq!(quantize(rank(0.998001), &root, &level), 255);
    assert_eq!(quantize(rank(0.99), &root, &level), 254);
}

#[test]
fn colours_are_written_as_levels() {
    let mut out = Vec::new();
    write_color(&Vec3 { e: [rank(0.25), rank(f64::NAN), rank(7.0)] }, &mut out, &root, &level);
    write_color(&Vec3 { e: [rank(0.0), rank(0.0625), rank(-1.0)] }, &mut out, &root, &level);
    assert_eq!(String::from_utf8(out).unwrap(), "128 0 255\n0 64 0\n");
}

#[test]
fn image_of_colours() {
    let pixels = vec![
        Vec3 { e: [rank(1.0), rank(0.0), rank(0.0)] },
        Vec3 { e: [rank(0.0), rank(0.25), rank(0.0)] },
    ];
    let out = write_image(1, 2, &pixels, &root, &level);
    assert_eq!(String::from_utf8(out).unwrap(), "P3\n1 2\n255\n255 0 0\n0 128 0\n");
}

use raytracer::hittable_list::perlin::{Perlin, POINT_COUNT};
use raytracer::obj::face_corners;
use raytracer::rtw_image::RtwImage;
use raytracer::rtweekend::random_int;
use raytracer::rtweekend::vec3::Vec3;

#[test]
fn random_int_stays_between_its_bounds() {
    let mut seen = [false; 4];
    for _ in 0..400 {
        let n = random_int(-1, 2);
        assert!((-1..=2).contains(&n));
        seen[(n + 1) as usize] = true;
    }
    assert_eq!(seen, [true; 4]);
    assert_eq!(random_int(5, 5), 5);
    assert_eq!(random_int(i32::MAX, i32::MAX), i32::MAX);
    assert_eq!(random_int(i32::MIN, i32::MIN), i32::MIN);
}

#[test]
fn random_int_with_the_bounds_swapped() {
    for _ in 0..200 {
        let n = random_int(6, 3);
        assert!((4..=6).contains(&n));
    }
    assert_eq!(random_int(1, 0), 1);
}

#[test]
fn random_int_covers_the_full_range() {
    for _ in 0..100 {
        let _ = random_int(i32::MIN, i32::MAX);
        assert!(random_int(0, i32::MAX) >= 0);
    }
}

fn is_shuffle(p: &[i32]) -> bool {
    let mut sorted = p.to_vec();
    sorted.sort();
    sorted == (0..POINT_COUNT as i32).collect::<Vec<i32>>()
}

#[test]
fn generated_permutation_is_a_shuffle() {
    let mut identities = 0;
    for _ in 0..20 {
        let p = Perlin::_perlin_generate_perm();
        assert!(is_shuffle(&p));
        if p == (0..POINT_COUNT as i32).collect::<Vec<i32>>() {
            identities += 1;
        }
    }
    assert_eq!(identities, 0);
}

#[test]
fn permute_moves_only_the_first_entries() {
    let mut p: Vec<i32> = (100..120).collect();
    Perlin::_permute(&mut p, 12);
    assert_eq!(&p[12..], &(112..120).collect::<Vec<i32>>()[..]);
    let mut head = p[..12].to_vec();
    head.sort();
    assert_eq!(head, (100..112).collect::<Vec<i32>>());
    let mut same = vec![4, 5, 6];
    Perlin::_permute(&mut same, 0);
    assert_eq!(same, vec![4, 5, 6]);
    Perlin::_permute(&mut same, 1);
    assert_eq!(same, vec![4, 5, 6]);
}

fn numbered_vectors() -> Vec<Vec3> {
    (0..POINT_COUNT as i64).map(|n| Vec3 { e: [n, 2 * n, -n] }).collect()
}

#[test]
fn built_lattice_is_well_formed() {
    let perlin = Perlin::_build_perlin(numbered_vectors());
    assert!(is_shuffle(&perlin.x));
    assert!(is_shuffle(&perlin.y));
    assert!(is_shuffle(&perlin.z));
    assert_eq!(perlin.randvec, numbered_vectors());
}

#[test]
fn lattice_selects_by_the_mixed_index() {
    let perlin = Perlin {
        x: (0..256).collect(),
        y: (0..256).rev().collect(),
        z: (0..256).map(|n| (n * 7 + 3) % 256).collect(),
        randvec: numbered_vectors(),
    };
    for (i, j, k) in [(0, 0, 0), (3, 250, 17), (-1, -1, -1), (-300, 1000, 255), (i32::MAX, i32::MIN, 0)]
    {
        let corners = perlin.lattice(i, j, k);
        assert_eq!(corners.len(), 8);
        for di in 0..2i64 {
            for dj in 0..2i64 {
                for dk in 0..2i64 {
                    let xi = perlin.x[(i as i64 + di).rem_euclid(256) as usize];
                    let yj = perlin.y[(j as i64 + dj).rem_euclid(256) as usize];
                    let zk = perlin.z[(k as i64 + dk).rem_euclid(256) as usize];
                    let expected = perlin.randvec[(xi ^ yj ^ zk) as usize];
                    assert_eq!(corners[(4 * di + 2 * dj + dk) as usize], expected);
                }
            }
        }
    }
    let corners = perlin.lattice(255, 0, 0);
    assert_eq!(corners[0].e[0], (255 ^ 255 ^ 3) as i64);
    assert_eq!(corners[4].e[0], (0 ^ 255 ^ 3) as i64);
}

#[test]
fn image_keeps_its_pixels_row_by_row() {
    let pixels: Vec<[i64; 3]> = (0..6).map(|n| [n, 10 * n, 100 * n]).collect();
    let image = RtwImage::new(3, 2, pixels).unwrap();
    assert_eq!((image.width, image.height), (3, 2));
    assert_eq!(image.pixel_data(0, 0), [0, 0, 0]);
    assert_eq!(image.pixel_data(2, 0), [2, 20, 200]);
    assert_eq!(image.pixel_data(0, 1), [3, 30, 300]);
    assert_eq!(image.pixel_data(2, 1), [5, 50, 500]);
}

#[test]
fn image_needs_a_pixel_for_every_place() {
    assert!(RtwImage::new(3, 2, vec![[0; 3]; 5]).is_none());
    assert!(RtwImage::new(3, 2, vec![[0; 3]; 7]).is_none());
    assert!(RtwImage::new(0, 9, Vec::new()).is_some());
    assert!(RtwImage::new(1, 1, Vec::new()).is_none());
}

#[test]
fn faces_give_their_first_three_corners() {
    let indices = vec![0, 1, 2, 2, 1, 3, 4, 4, 5, 6, 0, 3, 6];
    let face_arities = vec![3, 4, 3, 3];
    let corners = face_corners(&indices, &face_arities, 7).unwrap();
    assert_eq!(corners, vec![[0, 1, 2], [2, 1, 3], [4, 5, 6]]);
}

#[test]
fn the_last_face_is_left_out() {
    assert_eq!(face_corners(&vec![0, 1, 2], &vec![3], 3), Some(Vec::new()));
    assert_eq!(face_corners(&vec![], &vec![9], 0), Some(Vec::new()));
    assert_eq!(face_corners(&vec![0, 1, 2, 9, 9, 9], &vec![3, 3], 3), Some(vec![[0, 1, 2]]));
}

#[test]
fn meshes_that_do_not_fit_give_nothing() {
    assert_eq!(face_corners(&vec![0, 1, 2], &vec![], 3), None);
    assert_eq!(face_corners(&vec![0, 1, 2, 0], &vec![2, 2, 3], 3), None);
    assert_eq!(face_corners(&vec![0, 1], &vec![3, 3], 3), None);
    assert_eq!(face_corners(&vec![0, 1, 3], &vec![3, 3], 3), None);
    assert_eq!(face_corners(&vec![0, 1, 2, 0, 1], &vec![3, 3, 3], 3), None);
    assert_eq!(face_corners(&vec![0, 1, 2, 0, 1, 2], &vec![3, 3, 3], 3).unwrap().len(), 2);
}

#[test]
fn exchange_lets_two_entries_change_places() {
    let mut p = vec![7, 8, 9, 10];
    Perlin::_exchange(&mut p, 3, 1);
    assert_eq!(p, vec![7, 10, 9, 8]);
    Perlin::_exchange(&mut p, 0, 0);
    assert_eq!(p, vec![7, 10, 9, 8]);
    Perlin::_exchange(&mut p, 0, 2);
    assert_eq!(p, vec![9, 10, 7, 8]);
}

#[test]
fn permute_of_two_entries_keeps_or_swaps_them() {
    let (mut kept, mut swapped) = (0, 0);
    for _ in 0..200 {
        let mut p = vec![5, 6, 7];
        Perlin::_permute(&mut p, 2);
        if p == vec![5, 6, 7] {
            kept += 1;
        } else {
            assert_eq!(p, vec![6, 5, 7]);
            swapped += 1;
        }
    }
    assert!(kept > 40 && swapped > 40);
}

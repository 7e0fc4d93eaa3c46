use raytracer::normal_map::MapMap;
use raytracer::perlin::{draw_places, permute, permute_by, Perlin, POINT_COUNT};
use raytracer::render::{encode_row, row_range, Frame, Raster};
use raytracer::scalar::Scalar;
use raytracer::texture::ImageTexture;
use raytracer::utility::{IMAGE_HEIGHT, IMAGE_WIDTH, MAX_RECURSE_DEPTH, SAMPLES_PER_PIXEL, THREAD_NUM};
use raytracer::vec3::Vec3;

fn s(x: f64) -> Scalar {
    Scalar::from_bits(x.to_bits())
}

fn v(x: f64, y: f64, z: f64) -> Vec3 {
    Vec3::new(s(x), s(y), s(z))
}

fn small_image() -> Raster {
    let mut bytes = Vec::new();
    for j in 0..3u8 {
        for i in 0..4u8 {
            bytes.push(10 * j + i);
            bytes.push(100 + 10 * j + i);
            bytes.push(200 + 10 * j + i);
        }
    }
    Raster::from_bytes(4, 3, &bytes).unwrap()
}

#[test]
fn frame_gives_the_image_once_all_rows_are_in() {
    let mut frame = Frame::new(2, 3);
    assert!(!frame.is_complete());
    assert!(frame.finish().is_none());
    assert!(frame.store(2, vec![(5, 5, 5), (6, 6, 6)]));
    assert!(frame.store(0, vec![(1, 1, 1), (2, 2, 2)]));
    assert!(!frame.is_complete());
    assert!(frame.finish().is_none());
    assert!(!frame.store(0, vec![(9, 9, 9), (9, 9, 9)]));
    assert!(!frame.store(3, vec![(9, 9, 9), (9, 9, 9)]));
    assert!(!frame.store(1, vec![(9, 9, 9)]));
    assert!(frame.store(1, vec![(3, 3, 3), (4, 4, 4)]));
    assert!(frame.is_complete());
    let img = frame.finish().unwrap();
    assert_eq!(img.dimensions(), (2, 3));
    assert_eq!(img.pixel(0, 0), Some((1, 1, 1)));
    assert_eq!(img.pixel(1, 0), Some((2, 2, 2)));
    assert_eq!(img.pixel(0, 1), Some((3, 3, 3)));
    assert_eq!(img.pixel(1, 2), Some((6, 6, 6)));
    assert_eq!(img.pixel(2, 0), None);
    assert_eq!(img.pixel(0, 3), None);
    assert_eq!(img.to_bytes(), vec![1, 1, 1, 2, 2, 2, 3, 3, 3, 4, 4, 4, 5, 5, 5, 6, 6, 6]);
}

#[test]
fn frame_without_rows_is_complete_at_once() {
    let frame = Frame::new(5, 0);
    assert!(frame.is_complete());
    let img = frame.finish().unwrap();
    assert_eq!(img.dimensions(), (5, 0));
    assert!(img.to_bytes().is_empty());
}

#[test]
fn rows_are_encoded_pixel_by_pixel() {
    let colors = vec![v(1.0, 0.25, 0.0), v(4.0, f64::NAN, -1.0)];
    let roots = vec![v(1.0, 0.5, 0.0), v(2.0, f64::NAN, f64::NAN)];
    assert_eq!(encode_row(&colors, &roots), vec![(255, 128, 0), (255, 0, 0)]);
    let colors = vec![v(f64::NAN, f64::INFINITY, 0.25), v(f64::NEG_INFINITY, 0.0625, f64::INFINITY)];
    let roots = vec![v(f64::NAN, f64::INFINITY, 0.5), v(f64::NAN, 0.25, f64::INFINITY)];
    assert_eq!(encode_row(&colors, &roots), vec![(0, 0, 128), (0, 64, 0)]);
    assert!(encode_row(&Vec::new(), &Vec::new()).is_empty());
}

#[test]
fn images_from_and_to_bytes() {
    let img = small_image();
    assert_eq!(img.dimensions(), (4, 3));
    assert_eq!(img.pixel(0, 0), Some((0, 100, 200)));
    assert_eq!(img.pixel(3, 2), Some((23, 123, 223)));
    assert_eq!(img.pixel(1, 2), Some((21, 121, 221)));
    assert_eq!(img.pixel(4, 0), None);
    let bytes = img.to_bytes();
    assert_eq!(bytes.len(), 36);
    assert_eq!(&bytes[0..3], &[0, 100, 200]);
    assert_eq!(&bytes[33..36], &[23, 123, 223]);
    assert!(Raster::from_bytes(4, 3, &vec![0u8; 35]).is_none());
    assert!(Raster::from_bytes(4, 3, &vec![0u8; 37]).is_none());
    assert!(Raster::from_bytes(0, 7, &Vec::new()).is_some());
}

#[test]
fn image_texture_reads_the_texel_under_the_point() {
    let t = ImageTexture::new_image(small_image());
    assert_eq!(t.value(s(0.0), s(0.0)), Some((0, 100, 200)));
    assert_eq!(t.value(s(0.5 * 4.0), s(0.4 * 3.0)), Some((12, 112, 212)));
    assert_eq!(t.value(s(1.0 * 4.0), s(1.0 * 3.0)), Some((23, 123, 223)));
    assert_eq!(t.value(s(3.999), s(2.999)), Some((23, 123, 223)));
    assert_eq!(t.value(s(-1.0), s(f64::NAN)), Some((0, 100, 200)));
    let blank = ImageTexture::new_image(Raster::from_bytes(0, 0, &Vec::new()).unwrap());
    assert_eq!(blank.value(s(0.0), s(0.0)), None);
}

#[test]
fn normal_map_counts_its_rows_from_below() {
    let m = MapMap::new(small_image());
    assert_eq!(m.convert(s(0.0), s(0.0)), Some((0, 2)));
    assert_eq!(m.convert(s(3.5), s(2.5)), Some((3, 0)));
    assert_eq!(m.convert(s(1.0), s(1.0)), Some((1, 1)));
    assert_eq!(m.convert(s(4.0), s(1.0)), None);
    assert_eq!(m.convert(s(1.0), s(3.0)), None);
    assert_eq!(m.texel((3, 0)), Some((3, 103, 203)));
    assert_eq!(m.texel((0, 2)), Some((20, 120, 220)));
    assert_eq!(m.texel((0, 3)), None);
}

#[test]
fn noise_tables_are_shuffles() {
    let vectors: Vec<Vec3> = (0..POINT_COUNT).map(|i| v(i as f64, 0.0, 0.0)).collect();
    let noise = Perlin::new(vectors).unwrap();
    for table in [&noise.perm_x, &noise.perm_y, &noise.perm_z] {
        let mut seen = table.clone();
        seen.sort();
        assert_eq!(seen, (0..POINT_COUNT).collect::<Vec<usize>>());
    }
    assert_ne!(noise.perm_x, (0..POINT_COUNT).collect::<Vec<usize>>());
    assert!(Perlin::new(vec![v(0.0, 0.0, 0.0); 10]).is_none());
    let p = Perlin::perlin_generate_perm();
    assert_eq!(p.len(), 256);
    let mut q: Vec<usize> = (0..10).collect();
    permute(&mut q, 6);
    assert_eq!(&q[6..], &[6, 7, 8, 9]);
    let mut head = q[..6].to_vec();
    head.sort();
    assert_eq!(head, vec![0, 1, 2, 3, 4, 5]);
}

#[test]
fn lattice_points_are_hashed_from_the_tables() {
    let vectors: Vec<Vec3> = (0..POINT_COUNT).map(|i| v(i as f64, 0.0, 0.0)).collect();
    let noise = Perlin::new(vectors).unwrap();
    assert_eq!(Perlin::slot(0), 0);
    assert_eq!(Perlin::slot(255), 255);
    assert_eq!(Perlin::slot(256), 0);
    assert_eq!(Perlin::slot(-1), 255);
    assert_eq!(Perlin::slot(i32::MIN), 0);
    for (i, j, k) in [(0, 0, 0), (3, -7, 1000), (-1, -1, -1), (i32::MAX, i32::MIN, 255)] {
        let at = noise.lattice(i, j, k);
        assert!(at < 256);
        let expected = noise.perm_x[(i & 255) as usize]
            ^ noise.perm_y[(j & 255) as usize]
            ^ noise.perm_z[(k & 255) as usize];
        assert_eq!(at, expected);
        let c = noise.corners(i, j, k);
        for di in 0..2usize {
            for dj in 0..2usize {
                for dk in 0..2usize {
                    let want = noise.lattice(
                        i.wrapping_add(di as i32),
                        j.wrapping_add(dj as i32),
                        k.wrapping_add(dk as i32),
                    );
                    assert_eq!(f64::from_bits(c[di][dj][dk].x().to_bits()), want as f64);
                }
            }
        }
    }
}

#[test]
fn settings_of_the_renderer() {
    assert_eq!(IMAGE_WIDTH, 1920);
    assert_eq!(IMAGE_HEIGHT, (IMAGE_WIDTH as f64 / (16.0 / 9.0)) as u32);
    assert_eq!(SAMPLES_PER_PIXEL, 625);
    assert_eq!(MAX_RECURSE_DEPTH, 50);
    assert_eq!(THREAD_NUM, 20);
}

#[test]
fn rows_are_dealt_out_without_gap_or_overlap() {
    for (workers, height) in [(1u32, 0u32), (1, 7), (20, 1080), (20, 7), (3, 10), (7, 7), (16, 1)] {
        let mut next = 0;
        for worker in 0..workers {
            let (first, last) = row_range(worker, workers, height);
            assert_eq!(first, next);
            assert!(first <= last && last <= height);
            assert!(last - first <= height / workers + 1);
            next = last;
        }
        assert_eq!(next, height);
    }
    assert_eq!(row_range(0, 20, 1080), (0, 54));
    assert_eq!(row_range(19, 20, 1080), (1026, 1080));
    assert_eq!(row_range(1, 3, 10), (3, 6));
    assert_eq!(row_range(2, 3, 10), (6, 10));
}

#[test]
fn shuffle_follows_its_draws() {
    let mut p: Vec<usize> = vec![0, 1, 2, 3, 4];
    permute_by(&mut p, 4, &vec![0, 1, 0]);
    assert_eq!(p, vec![2, 3, 1, 0, 4]);
    let mut same: Vec<usize> = vec![7, 8, 9];
    permute_by(&mut same, 3, &vec![2, 1]);
    assert_eq!(same, vec![7, 8, 9]);
    let mut turned: Vec<usize> = vec![7, 8, 9];
    permute_by(&mut turned, 3, &vec![0, 0]);
    assert_eq!(turned, vec![8, 9, 7]);
    let mut one: Vec<usize> = vec![5, 6];
    permute_by(&mut one, 1, &Vec::new());
    assert_eq!(one, vec![5, 6]);
    for n in 0..40usize {
        let draws = draw_places(n);
        assert_eq!(draws.len(), n.saturating_sub(1));
        for (k, &d) in draws.iter().enumerate() {
            assert!(d <= n - 1 - k);
        }
    }
    let mut moved = false;
    for _ in 0..20 {
        let mut q: Vec<usize> = (0..50).collect();
        permute(&mut q, 50);
        moved = moved || q != (0..50).collect::<Vec<usize>>();
        let mut seen = q.clone();
        seen.sort();
        assert_eq!(seen, (0..50).collect::<Vec<usize>>());
    }
    assert!(moved);
}

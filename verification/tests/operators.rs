use plan::{grown_side, pack_rects, try_pack, MAX_SIDE};

fn overlaps(a: (i32, i32, i32, i32), b: (i32, i32, i32, i32)) -> bool {
    a.0 < b.0 + b.2 && b.0 < a.0 + a.2 && a.1 < b.1 + b.3 && b.1 < a.1 + a.3
}

#[test]
fn packs_when_it_fits() {
    let sizes = [(10, 10), (20, 5), (5, 20)];
    let corners = try_pack(&sizes, 100).expect("fits");
    assert_eq!(corners.len(), 3);
    for (i, &(x, y)) in corners.iter().enumerate() {
        assert!(x >= 0 && y >= 0 && x + sizes[i].0 <= 100 && y + sizes[i].1 <= 100);
    }
    for i in 0..3 {
        for j in 0..i {
            let a = (corners[i].0, corners[i].1, sizes[i].0, sizes[i].1);
            let b = (corners[j].0, corners[j].1, sizes[j].0, sizes[j].1);
            assert!(!overlaps(a, b));
        }
    }
}

#[test]
fn fails_when_too_small() {
    assert_eq!(try_pack(&[(50, 50), (50, 50)], 60), None);
    assert_eq!(try_pack(&[(5, 5)], 5), None);
}

#[test]
fn nothing_to_pack() {
    assert_eq!(try_pack(&[], 0), Some(vec![]));
}

#[test]
fn pack_rects_grows_until_everything_fits() {
    // Starting from a side of 0, growth by one pixel and then by a tenth
    // reaches a bin large enough for a 40 by 40 image with its padding.
    let sizes = [(40, 40)];
    let corners = pack_rects(&sizes, 0).expect("fits after growing");
    assert_eq!(corners.len(), 1);
    assert!(corners[0].0 >= 0 && corners[0].1 >= 0);

    let sizes = [(10, 10), (30, 5), (5, 30), (12, 12)];
    let corners = pack_rects(&sizes, 5).expect("fits after growing");
    assert_eq!(corners.len(), 4);
    for i in 0..4 {
        for j in 0..i {
            let a = (corners[i].0, corners[i].1, sizes[i].0, sizes[i].1);
            let b = (corners[j].0, corners[j].1, sizes[j].0, sizes[j].1);
            assert!(!overlaps(a, b));
        }
    }
}

#[test]
fn pack_rects_same_as_try_pack_when_it_fits_at_once() {
    let sizes = [(10, 10), (20, 5)];
    assert_eq!(pack_rects(&sizes, 100), try_pack(&sizes, 100));
    assert_eq!(pack_rects(&[], 0), Some(vec![]));
}

#[test]
fn pack_rects_grows_up_to_the_largest_bin() {
    // The largest rectangle, with its padding, fills a bin of side i32::MAX.
    assert_eq!(pack_rects(&[(MAX_SIDE, MAX_SIDE)], MAX_SIDE), Some(vec![(5, 5)]));
    // Two of them never fit; the search ends at the side that cannot grow.
    assert_eq!(pack_rects(&[(MAX_SIDE, MAX_SIDE), (MAX_SIDE, MAX_SIDE)], 1000), None);
    // Two full-width strips stack in the largest bin.
    let strips = pack_rects(&[(MAX_SIDE, 1), (MAX_SIDE, 1)], 1000).expect("strips fit");
    assert_eq!(strips.len(), 2);
    assert!(strips.iter().all(|&(x, _)| x == 5));
}

#[test]
fn growth_matches_f32_arithmetic() {
    let f32_growth = |side: i32| ((side as f32 * 1.1) as i32).max(side + 1);
    let mut samples: Vec<i32> = (0..100_000).collect();
    let mut x: u64 = 12345;
    for _ in 0..200_000 {
        x = x.wrapping_mul(6364136223846793005).wrapping_add(1442695040888963407);
        samples.push(((x >> 33) as i32) & 0x7fff_fffe);
    }
    samples.extend([16_777_216, 16_777_217, 16_777_230, 1 << 30, i32::MAX - 1]);
    for side in samples {
        assert_eq!(grown_side(side), f32_growth(side), "side {side}");
    }
    assert_eq!(grown_side(16_777_230), 18_454_954);
    assert_eq!(grown_side(9), 10);
    assert_eq!(grown_side(10), 11);
}

use dewatermark::quantize_channel;

fn by_shifting(v: u8, q: u8) -> u8 {
    if v.leading_ones() as u8 > 8 - q {
        255
    } else {
        ((v >> q) + (v >> (q - 1) & 1)) << q
    }
}

#[test]
fn quantize_agrees_with_the_shift_formula() {
    for q in 1u8..=7 {
        for v in 0u8..=255 {
            assert_eq!(quantize_channel(v, q), by_shifting(v, q), "v = {v}, q = {q}");
        }
    }
}

#[test]
fn quantize_rounds_to_the_nearest_multiple() {
    assert_eq!(quantize_channel(100, 5), 96);
    assert_eq!(quantize_channel(111, 5), 96);
    assert_eq!(quantize_channel(112, 5), 128);
    assert_eq!(quantize_channel(15, 4), 16);
    assert_eq!(quantize_channel(7, 4), 0);
    assert_eq!(quantize_channel(8, 4), 16);
    assert_eq!(quantize_channel(0, 3), 0);
    assert_eq!(quantize_channel(3, 3), 0);
    assert_eq!(quantize_channel(4, 3), 8);
    assert_eq!(quantize_channel(200, 2), 200);
    assert_eq!(quantize_channel(201, 2), 200);
    assert_eq!(quantize_channel(202, 2), 204);
}

#[test]
fn quantize_at_the_lowest_level() {
    assert_eq!(quantize_channel(0, 1), 0);
    assert_eq!(quantize_channel(1, 1), 2);
    assert_eq!(quantize_channel(2, 1), 2);
    assert_eq!(quantize_channel(253, 1), 254);
    assert_eq!(quantize_channel(254, 1), 254);
    assert_eq!(quantize_channel(255, 1), 255);
}

#[test]
fn quantize_at_the_highest_level() {
    assert_eq!(quantize_channel(0, 7), 0);
    assert_eq!(quantize_channel(63, 7), 0);
    assert_eq!(quantize_channel(64, 7), 128);
    assert_eq!(quantize_channel(191, 7), 128);
    assert_eq!(quantize_channel(192, 7), 255);
    assert_eq!(quantize_channel(255, 7), 255);
}

#[test]
fn quantize_holds_at_255_where_rounding_would_overflow() {
    assert_eq!(quantize_channel(239, 5), 224);
    assert_eq!(quantize_channel(240, 5), 255);
    assert_eq!(quantize_channel(250, 5), 255);
    assert_eq!(quantize_channel(247, 4), 240);
    assert_eq!(quantize_channel(248, 4), 255);
    for q in 1u8..=7 {
        assert_eq!(quantize_channel(255, q), 255);
    }
}

#[test]
fn quantize_gives_a_multiple_of_the_bucket_or_255() {
    for q in 1u8..=7 {
        let bucket = 1u16 << q;
        for v in 0u8..=255 {
            let out = quantize_channel(v, q) as u16;
            assert!(out == 255 || out % bucket == 0, "v = {v}, q = {q}");
            let distance = if out > v as u16 { out - v as u16 } else { v as u16 - out };
            assert!(distance <= bucket / 2, "v = {v}, q = {q}");
        }
    }
}

#[test]
fn quantize_twice_is_quantize_once() {
    for q in 1u8..=7 {
        for v in 0u8..=255 {
            let once = quantize_channel(v, q);
            assert_eq!(quantize_channel(once, q), once, "v = {v}, q = {q}");
        }
    }
}

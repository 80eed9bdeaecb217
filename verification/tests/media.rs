use dewatermark::denotes_image;

#[test]
fn image_types_are_recognized() {
    assert!(denotes_image("image/png"));
    assert!(denotes_image("image/jpeg"));
    assert!(denotes_image("image/x-unknown"));
    assert!(denotes_image("image/svg+xml"));
    assert!(denotes_image("image/"));
    assert!(denotes_image("image/图片"));
}

#[test]
fn other_types_are_not() {
    assert!(!denotes_image("text/plain"));
    assert!(!denotes_image("application/pdf"));
    assert!(!denotes_image(""));
    assert!(!denotes_image("imag"));
    assert!(!denotes_image("image"));
    assert!(!denotes_image("imag/e"));
    assert!(!denotes_image("IMAGE/PNG"));
    assert!(!denotes_image("Image/png"));
    assert!(!denotes_image(" image/png"));
    assert!(!denotes_image("images/png"));
}

#[test]
fn the_word_image_outside_the_type_part_does_not_count() {
    assert!(!denotes_image("application/x-apple-diskimage"));
    assert!(!denotes_image("application/x-image"));
    assert!(!denotes_image("application/image/png"));
    assert!(!denotes_image("iimage/png"));
    assert!(!denotes_image("imimage/png"));
    assert!(!denotes_image("text/image"));
}

#[test]
fn characters_outside_ascii_are_read_whole() {
    assert!(!denotes_image("图片/image"));
    assert!(!denotes_image("图片"));
    assert!(!denotes_image("imäge/png"));
    assert!(!denotes_image("imageé"));
}

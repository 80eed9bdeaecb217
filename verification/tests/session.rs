use dewatermark::{calc_new_image, Action, App, ConfigType, Msg, PixelGrid, SessionError};

fn png_of(width: u32, height: u32, samples: Vec<u8>) -> Vec<u8> {
    let image = image::RgbaImage::from_raw(width, height, samples).unwrap();
    let mut buffer = std::io::Cursor::new(Vec::new());
    image.write_to(&mut buffer, image::ImageOutputFormat::Png).unwrap();
    buffer.into_inner()
}

fn ramp(width: u32, height: u32, step: usize) -> Vec<u8> {
    (0..(width * height * 4) as usize).map(|i| (i * step % 256) as u8).collect()
}

fn loaded(name: &str, media_type: &str, bytes: Vec<u8>) -> Msg {
    Msg::Loaded(name.to_string(), media_type.to_string(), bytes)
}

fn session_with_two_images() -> App {
    let mut app = App::create();
    assert_eq!(app.update(Msg::UpdateConfig(ConfigType::PixSw(0))), Action::Render);
    assert_eq!(app.update(loaded("a.png", "image/png", png_of(3, 2, ramp(3, 2, 7)))), Action::Render);
    assert_eq!(app.update(loaded("b.png", "image/png", png_of(2, 2, ramp(2, 2, 11)))), Action::Render);
    app
}

#[test]
fn new_session_has_the_default_configuration() {
    let app = App::create();
    assert_eq!(app.color_quantization(), 5);
    assert_eq!(app.pixel_switch(), 3);
    assert!(app.image_pairs().is_empty());
    assert_eq!(app.pending_count(), 0);
}

#[test]
fn text_file_is_refused_and_the_records_stay() {
    let mut app = App::create();
    let action = app.update(loaded("notes.txt", "text/plain", b"hello".to_vec()));
    assert_eq!(action, Action::Alert(SessionError::NotAnImage));
    assert!(!action.should_render());
    assert_eq!(app.image_pairs().len(), 0);

    let mut app = session_with_two_images();
    let before = app.clone();
    let action = app.update(loaded("notes.txt", "text/plain", b"hello".to_vec()));
    assert_eq!(action, Action::Alert(SessionError::NotAnImage));
    assert_eq!(app.image_pairs().len(), 2);
    assert_eq!(app, before);
}

#[test]
fn corrupt_image_is_refused_and_the_records_stay() {
    let mut app = session_with_two_images();
    let before = app.clone();
    let action = app.update(loaded("bad.png", "image/png", b"garbage".to_vec()));
    assert_eq!(action, Action::Alert(SessionError::DecodeError));
    assert!(!action.should_render());
    assert_eq!(app, before);
}

#[test]
fn loaded_image_is_appended_and_rendered() {
    let mut app = App::create();
    app.update(Msg::UpdateConfig(ConfigType::PixSw(0)));
    let bytes = png_of(3, 2, ramp(3, 2, 7));
    let action = app.update(loaded("a.png", "image/png", bytes.clone()));
    assert_eq!(action, Action::Render);
    assert!(action.should_render());
    assert_eq!(app.image_pairs().len(), 1);
    let record = &app.image_pairs()[0];
    let grid = PixelGrid::from_raw(3, 2, ramp(3, 2, 7)).unwrap();
    assert_eq!(record.name(), "a.png");
    assert_eq!(record.media_type(), "image/png");
    assert_eq!(record.source_bytes(), &bytes);
    assert_eq!(record.source_pixels(), &grid);
    assert_eq!(record.rendered_bytes(), &calc_new_image(&grid, 5, 0));
}

#[test]
fn records_keep_the_order_of_arrival() {
    let mut app = session_with_two_images();
    app.update(loaded("a.png", "image/png", png_of(1, 1, vec![9, 9, 9, 9])));
    let names: Vec<&str> = app.image_pairs().iter().map(|r| r.name().as_str()).collect();
    assert_eq!(names, vec!["a.png", "b.png", "a.png"]);
    assert_eq!(app.image_pairs()[2].source_pixels().as_raw(), &vec![9, 9, 9, 9]);
}

#[test]
fn submitted_files_are_pending_until_they_arrive() {
    let mut app = App::create();
    let action = app.update(Msg::Files(vec!["a.png".to_string(), "b.txt".to_string()]));
    assert_eq!(action, Action::Render);
    assert_eq!(app.pending_count(), 2);
    assert!(app.is_pending(&"a.png".to_string()));
    assert!(app.is_pending(&"b.txt".to_string()));
    assert!(!app.is_pending(&"c.png".to_string()));
    assert!(app.image_pairs().is_empty());

    app.update(loaded("a.png", "image/png", png_of(1, 1, vec![1, 2, 3, 4])));
    assert!(!app.is_pending(&"a.png".to_string()));
    assert_eq!(app.pending_count(), 1);
    assert_eq!(app.image_pairs().len(), 1);

    let action = app.update(loaded("b.txt", "text/plain", b"hello".to_vec()));
    assert_eq!(action, Action::Alert(SessionError::NotAnImage));
    assert_eq!(app.pending_count(), 0);
    assert_eq!(app.image_pairs().len(), 1);
}

#[test]
fn name_submitted_twice_is_pending_once() {
    let mut app = App::create();
    app.update(Msg::Files(vec!["a.png".to_string(), "a.png".to_string()]));
    app.update(Msg::Files(vec!["a.png".to_string()]));
    assert_eq!(app.pending_count(), 1);
    app.update(loaded("a.png", "image/png", png_of(1, 1, vec![1, 2, 3, 4])));
    assert_eq!(app.pending_count(), 0);
    assert_eq!(app.image_pairs().len(), 1);
}

#[test]
fn submitting_no_file_changes_nothing() {
    let mut app = session_with_two_images();
    let before = app.clone();
    assert_eq!(app.update(Msg::Files(Vec::new())), Action::Render);
    assert_eq!(app, before);
}

#[test]
fn arrival_that_was_not_pending_is_loaded_all_the_same() {
    let mut app = App::create();
    app.update(Msg::Files(vec!["other.png".to_string()]));
    let action = app.update(loaded("a.png", "image/png", png_of(1, 1, vec![1, 2, 3, 4])));
    assert_eq!(action, Action::Render);
    assert_eq!(app.image_pairs().len(), 1);
    assert_eq!(app.pending_count(), 1);
}

#[test]
fn configuration_change_renders_every_record_again() {
    let mut app = session_with_two_images();
    let before = app.clone();
    let action = app.update(Msg::UpdateConfig(ConfigType::ColQu(2)));
    assert_eq!(action, Action::Render);
    assert_eq!(app.color_quantization(), 2);
    assert_eq!(app.pixel_switch(), 0);
    assert_eq!(app.image_pairs().len(), 2);
    for (now, then) in app.image_pairs().iter().zip(before.image_pairs().iter()) {
        assert_eq!(now.name(), then.name());
        assert_eq!(now.media_type(), then.media_type());
        assert_eq!(now.source_pixels(), then.source_pixels());
        assert_eq!(now.source_bytes(), then.source_bytes());
        assert_eq!(now.rendered_bytes(), &calc_new_image(now.source_pixels(), 2, 0));
        assert_ne!(now.rendered_bytes(), then.rendered_bytes());
    }
}

#[test]
fn configuration_change_to_the_same_value_keeps_the_renderings() {
    let mut app = session_with_two_images();
    let before = app.clone();
    assert_eq!(app.update(Msg::UpdateConfig(ConfigType::PixSw(0))), Action::Render);
    assert_eq!(app, before);
    assert_eq!(app.update(Msg::UpdateConfig(ConfigType::ColQu(5))), Action::Render);
    assert_eq!(app, before);
}

#[test]
fn swap_strength_change_renders_from_the_source() {
    let mut app = session_with_two_images();
    assert_eq!(app.update(Msg::UpdateConfig(ConfigType::PixSw(10))), Action::Render);
    assert_eq!(app.pixel_switch(), 10);
    assert_eq!(app.color_quantization(), 5);
    for record in app.image_pairs().iter() {
        assert_eq!(record.rendered_bytes(), &calc_new_image(record.source_pixels(), 5, 10));
    }
    assert_eq!(app.update(Msg::UpdateConfig(ConfigType::PixSw(0))), Action::Render);
    for record in app.image_pairs().iter() {
        assert_eq!(record.rendered_bytes(), &calc_new_image(record.source_pixels(), 5, 0));
    }
}

#[test]
fn every_value_in_range_is_accepted() {
    let mut app = App::create();
    for level in 1u8..=7 {
        assert_eq!(app.update(Msg::UpdateConfig(ConfigType::ColQu(level))), Action::Render);
        assert_eq!(app.color_quantization(), level);
    }
    for strength in 0u8..=10 {
        assert_eq!(app.update(Msg::UpdateConfig(ConfigType::PixSw(strength))), Action::Render);
        assert_eq!(app.pixel_switch(), strength);
    }
}

#[test]
fn value_out_of_range_is_refused_and_nothing_changes() {
    let mut app = session_with_two_images();
    app.update(Msg::Files(vec!["c.png".to_string()]));
    let before = app.clone();
    for change in [
        ConfigType::ColQu(0),
        ConfigType::ColQu(8),
        ConfigType::ColQu(255),
        ConfigType::PixSw(11),
        ConfigType::PixSw(255),
    ] {
        let action = app.update(Msg::UpdateConfig(change));
        assert_eq!(action, Action::Alert(SessionError::InvalidConfigValue));
        assert!(!action.should_render());
        assert_eq!(app, before);
    }
}

#[test]
fn range_test_of_a_configuration_value() {
    assert!(ConfigType::ColQu(1).is_in_range());
    assert!(ConfigType::ColQu(7).is_in_range());
    assert!(!ConfigType::ColQu(0).is_in_range());
    assert!(!ConfigType::ColQu(8).is_in_range());
    assert!(ConfigType::PixSw(0).is_in_range());
    assert!(ConfigType::PixSw(10).is_in_range());
    assert!(!ConfigType::PixSw(11).is_in_range());
}

#[test]
fn decoded_arrival_is_appended() {
    let mut app = App::create();
    app.update(Msg::UpdateConfig(ConfigType::PixSw(10)));
    app.update(Msg::Files(vec!["a.png".to_string()]));
    let grid = PixelGrid::from_raw(2, 2, ramp(2, 2, 5)).unwrap();
    let action =
        app.load("a.png".to_string(), "image/png".to_string(), vec![7, 7], Some(grid.clone()));
    assert_eq!(action, Action::Render);
    assert_eq!(app.pending_count(), 0);
    assert_eq!(app.image_pairs().len(), 1);
    let record = &app.image_pairs()[0];
    assert_eq!(record.name(), "a.png");
    assert_eq!(record.media_type(), "image/png");
    assert_eq!(record.source_bytes(), &vec![7, 7]);
    assert_eq!(record.source_pixels(), &grid);
    assert_eq!(record.rendered_bytes(), &calc_new_image(&grid, 5, 10));
}

#[test]
fn undecoded_arrival_is_refused_but_settles() {
    let mut app = session_with_two_images();
    app.update(Msg::Files(vec!["c.png".to_string(), "d.png".to_string()]));
    let records = app.image_pairs().clone();
    let action = app.load("c.png".to_string(), "image/png".to_string(), vec![7, 7], None);
    assert_eq!(action, Action::Alert(SessionError::DecodeError));
    assert_eq!(app.image_pairs(), &records);
    assert!(!app.is_pending(&"c.png".to_string()));
    assert!(app.is_pending(&"d.png".to_string()));
    let grid = PixelGrid::from_raw(1, 1, vec![0, 0, 0, 0]).unwrap();
    let action = app.load("d.png".to_string(), "text/plain".to_string(), vec![7, 7], Some(grid));
    assert_eq!(action, Action::Alert(SessionError::NotAnImage));
    assert_eq!(app.image_pairs(), &records);
    assert_eq!(app.pending_count(), 0);
}

#[test]
fn disk_image_is_refused_as_not_an_image() {
    let mut app = App::create();
    app.update(Msg::Files(vec!["disk.dmg".to_string()]));
    let action = app.update(loaded("disk.dmg", "application/x-apple-diskimage", vec![104, 105]));
    assert_eq!(action, Action::Alert(SessionError::NotAnImage));
    assert!(!action.should_render());
    assert!(app.image_pairs().is_empty());
    assert_eq!(app.color_quantization(), 5);
    assert_eq!(app.pixel_switch(), 3);
    assert_eq!(app.pending_count(), 0);
}

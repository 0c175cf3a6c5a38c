use gothspace::color::Color;
use gothspace::framebuffer::{create_filled_buffer, Framebuffer, GetColorErrors, PaintPointErrors};
use gothspace::scalar::Scalar;

fn depth(value: f32) -> Scalar {
    Scalar::from_bits(value.to_bits())
}

#[test]
fn a_filled_buffer_holds_one_colour() {
    let buffer = create_filled_buffer(3, 2, &Color::new(0x11, 0x22, 0x33));
    assert_eq!(buffer, vec![0x112233; 6]);
    assert!(create_filled_buffer(0, 5, &Color::white()).is_empty());
}

#[test]
fn a_new_framebuffer_is_black_and_paints_in_white() {
    let mut fb = Framebuffer::new(3, 2);
    assert_eq!(fb.width(), 3);
    assert_eq!(fb.height(), 2);
    assert_eq!(fb.buffer(), &vec![0u32; 6]);
    assert_eq!(fb.paint_point(2, 1, depth(0.0)), Ok(()));
    assert_eq!(fb.get_color(2, 1), Ok(Color::white()));
}

#[test]
fn lower_depth_is_rejected() {
    let mut fb = Framebuffer::new(4, 4);
    fb.set_current_color(Color::white());
    assert_eq!(fb.paint_point(1, 1, depth(1.0)), Ok(()));
    assert_eq!(fb.get_color(1, 1), Ok(Color::white()));
    fb.set_current_color(Color::red());
    assert_eq!(fb.paint_point(1, 1, depth(0.5)), Ok(()));
    assert_eq!(fb.get_color(1, 1), Ok(Color::white()));
}

#[test]
fn greater_depth_wins() {
    let mut fb = Framebuffer::new(8, 8);
    fb.set_current_color(Color::green());
    assert_eq!(fb.paint_point(3, 4, depth(5.0)), Ok(()));
    fb.set_current_color(Color::red());
    assert_eq!(fb.paint_point(3, 4, depth(3.0)), Ok(()));
    assert_eq!(fb.get_color(3, 4), Ok(Color::green()));
    fb.set_current_color(Color::blue());
    assert_eq!(fb.paint_point(3, 4, depth(7.0)), Ok(()));
    assert_eq!(fb.get_color(3, 4), Ok(Color::blue()));
}

#[test]
fn equal_depth_does_not_repaint() {
    let mut fb = Framebuffer::new(2, 2);
    fb.set_current_color(Color::green());
    assert_eq!(fb.paint_point(0, 0, depth(2.0)), Ok(()));
    fb.set_current_color(Color::red());
    assert_eq!(fb.paint_point(0, 0, depth(2.0)), Ok(()));
    assert_eq!(fb.get_color(0, 0), Ok(Color::green()));
}

#[test]
fn negative_depths_compare_as_numbers() {
    let mut fb = Framebuffer::new(2, 2);
    fb.set_current_color(Color::green());
    assert_eq!(fb.paint_point(0, 0, depth(-1000.0)), Ok(()));
    assert_eq!(fb.get_color(0, 0), Ok(Color::green()));
    fb.set_current_color(Color::red());
    assert_eq!(fb.paint_point(0, 0, depth(-2000.0)), Ok(()));
    assert_eq!(fb.get_color(0, 0), Ok(Color::green()));
    fb.set_current_color(Color::blue());
    assert_eq!(fb.paint_point(0, 0, depth(-999.0)), Ok(()));
    assert_eq!(fb.get_color(0, 0), Ok(Color::blue()));
}

#[test]
fn the_lowest_depth_never_paints() {
    let mut fb = Framebuffer::new(2, 2);
    fb.set_current_color(Color::red());
    assert_eq!(fb.paint_point(1, 1, depth(f32::NEG_INFINITY)), Ok(()));
    assert_eq!(fb.paint_point(1, 1, depth(f32::NAN)), Ok(()));
    assert_eq!(fb.paint_point(1, 1, Scalar::lowest()), Ok(()));
    assert_eq!(fb.get_color(1, 1), Ok(Color::black()));
}

#[test]
fn painting_leaves_the_other_pixels() {
    let mut fb = Framebuffer::new(3, 3);
    fb.set_current_color(Color::red());
    assert_eq!(fb.paint_point(1, 2, depth(1.0)), Ok(()));
    for y in 0..3 {
        for x in 0..3 {
            let expected = if (x, y) == (1, 2) { Color::red() } else { Color::black() };
            assert_eq!(fb.get_color(x, y), Ok(expected));
        }
    }
    assert_eq!(fb.buffer()[2 * 3 + 1], 0xff0000);
}

#[test]
fn points_outside_are_refused() {
    let mut fb = Framebuffer::new(4, 3);
    let d = depth(1.0);
    assert_eq!(fb.paint_point(-1, 0, d), Err(PaintPointErrors::XTooSmall));
    assert_eq!(fb.paint_point(0, -1, d), Err(PaintPointErrors::YTooSmall));
    assert_eq!(fb.paint_point(4, 0, d), Err(PaintPointErrors::XTooLarge));
    assert_eq!(fb.paint_point(0, 3, d), Err(PaintPointErrors::YTooLarge));
    assert_eq!(fb.paint_point(i64::MAX, 0, d), Err(PaintPointErrors::XTooLarge));
    assert_eq!(fb.paint_point(0, i64::MAX, d), Err(PaintPointErrors::YTooLarge));
    assert_eq!(fb.paint_point(i64::MIN, 0, d), Err(PaintPointErrors::XTooSmall));
    assert_eq!(fb.buffer(), &vec![0u32; 12]);
}

#[test]
fn the_first_complaint_is_reported() {
    let mut fb = Framebuffer::new(4, 3);
    let d = depth(1.0);
    assert_eq!(fb.paint_point(-1, -1, d), Err(PaintPointErrors::XTooSmall));
    assert_eq!(fb.paint_point(-1, 9, d), Err(PaintPointErrors::XTooSmall));
    assert_eq!(fb.paint_point(9, -1, d), Err(PaintPointErrors::YTooSmall));
    assert_eq!(fb.paint_point(9, 9, d), Err(PaintPointErrors::XTooLarge));
}

#[test]
fn the_corners_can_be_painted() {
    let mut fb = Framebuffer::new(4, 3);
    let d = depth(1.0);
    assert_eq!(fb.paint_point(0, 0, d), Ok(()));
    assert_eq!(fb.paint_point(3, 0, d), Ok(()));
    assert_eq!(fb.paint_point(0, 2, d), Ok(()));
    assert_eq!(fb.paint_point(3, 2, d), Ok(()));
    assert_eq!(fb.get_color(3, 2), Ok(Color::white()));
    assert_eq!(fb.get_color(0, 0), Ok(Color::white()));
}

#[test]
fn reading_outside_is_refused() {
    let fb = Framebuffer::new(4, 3);
    assert_eq!(fb.get_color(4, 0), Err(GetColorErrors::XTooLarge));
    assert_eq!(fb.get_color(0, 3), Err(GetColorErrors::YTooLarge));
    assert_eq!(fb.get_color(4, 3), Err(GetColorErrors::YTooLarge));
    assert_eq!(fb.get_color(3, 2), Ok(Color::black()));
}

#[test]
fn an_empty_framebuffer_refuses_everything() {
    let mut fb = Framebuffer::new(0, 0);
    assert_eq!(fb.paint_point(0, 0, depth(1.0)), Err(PaintPointErrors::XTooLarge));
    assert_eq!(fb.get_color(0, 0), Err(GetColorErrors::YTooLarge));
    fb.clear();
    assert!(fb.buffer().is_empty());
}

#[test]
fn clear_shows_the_background() {
    let mut fb = Framebuffer::new(3, 2);
    fb.set_background_color(Color::new(0x33, 0x33, 0x55));
    fb.set_current_color(Color::red());
    assert_eq!(fb.paint_point(1, 1, depth(4.0)), Ok(()));
    fb.clear();
    for y in 0..2 {
        for x in 0..3 {
            assert_eq!(fb.get_color(x, y), Ok(Color::new(0x33, 0x33, 0x55)));
        }
    }
}

#[test]
fn clear_forgets_the_depths() {
    let mut fb = Framebuffer::new(2, 2);
    fb.set_current_color(Color::red());
    assert_eq!(fb.paint_point(0, 1, depth(9.0)), Ok(()));
    fb.clear();
    fb.set_current_color(Color::green());
    assert_eq!(fb.paint_point(0, 1, depth(-9.0)), Ok(()));
    assert_eq!(fb.get_color(0, 1), Ok(Color::green()));
}

#[test]
fn the_background_shows_only_after_a_clear() {
    let mut fb = Framebuffer::new(2, 2);
    fb.set_background_color(Color::blue());
    assert_eq!(fb.get_color(0, 0), Ok(Color::black()));
    fb.clear();
    assert_eq!(fb.get_color(0, 0), Ok(Color::blue()));
}

#[test]
fn a_saved_picture_comes_back_with_a_clear() {
    let mut fb = Framebuffer::new(2, 2);
    fb.set_current_color(Color::red());
    assert_eq!(fb.paint_point(1, 0, depth(1.0)), Ok(()));
    fb.save_as_background();
    fb.set_current_color(Color::green());
    assert_eq!(fb.paint_point(0, 0, depth(1.0)), Ok(()));
    assert_eq!(fb.paint_point(1, 0, depth(2.0)), Ok(()));
    fb.clear();
    assert_eq!(fb.get_color(1, 0), Ok(Color::red()));
    assert_eq!(fb.get_color(0, 0), Ok(Color::black()));
    fb.set_current_color(Color::blue());
    assert_eq!(fb.paint_point(1, 0, depth(-5.0)), Ok(()));
    assert_eq!(fb.get_color(1, 0), Ok(Color::blue()));
}

#[test]
fn errors_have_names() {
    assert_eq!(PaintPointErrors::XTooLarge.name(), "XTooLarge");
    assert_eq!(PaintPointErrors::XTooSmall.name(), "XTooSmall");
    assert_eq!(PaintPointErrors::YTooLarge.name(), "YTooLarge");
    assert_eq!(PaintPointErrors::YTooSmall.name(), "YTooSmall");
    assert_eq!(format!("{:?}", GetColorErrors::XTooLarge), "XTooLarge");
    assert_eq!(format!("{:?}", GetColorErrors::YTooLarge), "YTooLarge");
}

#[test]
fn the_picture_goes_into_a_bitmap() {
    let mut fb = Framebuffer::new(2, 1);
    fb.set_current_color(Color::new(1, 2, 3));
    assert_eq!(fb.paint_point(1, 0, depth(0.0)), Ok(()));
    let file = fb.to_bitmap().unwrap();
    assert_eq!(file.len(), 54 + 8);
    assert_eq!(&file[54..], &[0, 0, 0, 3, 2, 1, 0, 0]);
}

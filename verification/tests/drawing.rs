use pixel_war::canvas::PixelWarState;
use pixel_war::error::PixelWarError;
use pixel_war::pixel::Pixel;

fn px(x: u8, y: u8, color: u8) -> Pixel {
    Pixel { x, y, color }
}

#[test]
fn initialize_rejects_bad_quadrant() {
    let mut s = PixelWarState::new();
    assert_eq!(s.initialize_canvas(4, 0, 0), Err(PixelWarError::InvalidQuadrant));
    assert!(!s.is_initialized());
    // The quadrant is checked before the coordinates.
    assert_eq!(s.initialize_canvas(7, 10, 10), Err(PixelWarError::InvalidQuadrant));
}

#[test]
fn initialize_rejects_bad_coordinates() {
    let mut s = PixelWarState::new();
    assert_eq!(
        s.initialize_canvas(0, 10, 0),
        Err(PixelWarError::InvalidSubsectionCoordinates)
    );
    assert_eq!(
        s.initialize_canvas(0, 0, 10),
        Err(PixelWarError::InvalidSubsectionCoordinates)
    );
    assert!(!s.is_initialized());
    assert_eq!(s.read_pixel(0, 10, 0, 0, 0), None);
}

#[test]
fn initialize_creates_zero_subsection() {
    let mut s = PixelWarState::new();
    assert_eq!(s.initialize_canvas(2, 9, 9), Ok(()));
    assert!(s.is_initialized());
    for i in 0..50 {
        assert_eq!(s.subsection_byte(2, 9, 9, i), Some(0));
    }
    assert_eq!(s.subsection_byte(2, 9, 9, 50), None);
    assert_eq!(s.subsection_byte(2, 9, 8, 0), None);
}

#[test]
fn initialize_twice_preserves_pixels() {
    let mut s = PixelWarState::new();
    assert_eq!(s.initialize_canvas(1, 2, 3), Ok(()));
    assert_eq!(
        s.draw_pixels_direct(1, 2, 3, true, &vec![px(4, 5, 9)]),
        Ok(())
    );
    assert_eq!(s.read_pixel(1, 2, 3, 4, 5), Some(9));
    // Repeated setup succeeds and must not reset the buffer.
    assert_eq!(s.initialize_canvas(1, 2, 3), Ok(()));
    assert_eq!(s.read_pixel(1, 2, 3, 4, 5), Some(9));
    assert!(s.is_initialized());
}

#[test]
fn direct_draw_requires_signer() {
    let mut s = PixelWarState::new();
    assert_eq!(s.initialize_canvas(0, 0, 0), Ok(()));
    assert_eq!(
        s.draw_pixels_direct(0, 0, 0, false, &vec![px(1, 1, 5)]),
        Err(PixelWarError::AuthorityMustSign)
    );
    assert_eq!(s.read_pixel(0, 0, 0, 1, 1), Some(0));
}

#[test]
fn boundary_x_rejected() {
    let mut s = PixelWarState::new();
    assert_eq!(s.initialize_canvas(0, 0, 0), Ok(()));
    assert_eq!(
        s.draw_pixels_direct(0, 0, 0, true, &vec![px(10, 0, 1)]),
        Err(PixelWarError::InvalidPixelCoordinates)
    );
    for i in 0..50 {
        assert_eq!(s.subsection_byte(0, 0, 0, i), Some(0));
    }
}

#[test]
fn boundary_y_rejected() {
    let mut s = PixelWarState::new();
    assert_eq!(s.initialize_canvas(0, 0, 0), Ok(()));
    assert_eq!(
        s.draw_pixels_direct(0, 0, 0, true, &vec![px(0, 10, 1)]),
        Err(PixelWarError::InvalidPixelCoordinates)
    );
    for i in 0..50 {
        assert_eq!(s.subsection_byte(0, 0, 0, i), Some(0));
    }
}

#[test]
fn boundary_color_rejected() {
    let mut s = PixelWarState::new();
    assert_eq!(s.initialize_canvas(0, 0, 0), Ok(()));
    assert_eq!(
        s.draw_pixels_direct(0, 0, 0, true, &vec![px(0, 0, 16)]),
        Err(PixelWarError::InvalidColor)
    );
    for i in 0..50 {
        assert_eq!(s.subsection_byte(0, 0, 0, i), Some(0));
    }
}

#[test]
fn rejected_batch_is_atomic() {
    let mut s = PixelWarState::new();
    assert_eq!(s.initialize_canvas(0, 0, 0), Ok(()));
    // The whole batch is validated before any write: the valid first entry
    // must not land when a later entry is out of range.
    assert_eq!(
        s.draw_pixels_direct(0, 0, 0, true, &vec![px(1, 1, 5), px(10, 0, 1)]),
        Err(PixelWarError::InvalidPixelCoordinates)
    );
    assert_eq!(s.read_pixel(0, 0, 0, 1, 1), Some(0));
    // Coordinates are checked before color within one pixel.
    assert_eq!(
        s.draw_pixels_direct(0, 0, 0, true, &vec![px(10, 10, 16)]),
        Err(PixelWarError::InvalidPixelCoordinates)
    );
}

#[test]
fn last_write_wins_within_a_batch() {
    let mut s = PixelWarState::new();
    assert_eq!(s.initialize_canvas(0, 0, 0), Ok(()));
    assert_eq!(
        s.draw_pixels_direct(0, 0, 0, true, &vec![px(2, 2, 3), px(2, 2, 7)]),
        Ok(())
    );
    assert_eq!(s.read_pixel(0, 0, 0, 2, 2), Some(7));
}

#[test]
fn round_trip_every_coordinate_and_color() {
    let mut s = PixelWarState::new();
    assert_eq!(s.initialize_canvas(3, 0, 0), Ok(()));
    for x in 0..10u8 {
        for y in 0..10u8 {
            for color in 0..16u8 {
                assert_eq!(
                    s.draw_pixels_direct(3, 0, 0, true, &vec![px(x, y, color)]),
                    Ok(())
                );
                assert_eq!(s.read_pixel(3, 0, 0, x, y), Some(color));
            }
        }
    }
}

#[test]
fn adjacent_nibble_is_untouched() {
    let mut s = PixelWarState::new();
    assert_eq!(s.initialize_canvas(0, 1, 1), Ok(()));
    // Indices 44 (low nibble) and 45 (high nibble) share byte 22.
    assert_eq!(s.draw_pixels_direct(0, 1, 1, true, &vec![px(4, 4, 0xA)]), Ok(()));
    assert_eq!(s.draw_pixels_direct(0, 1, 1, true, &vec![px(4, 5, 0x3)]), Ok(()));
    assert_eq!(s.read_pixel(0, 1, 1, 4, 4), Some(0xA));
    assert_eq!(s.read_pixel(0, 1, 1, 4, 5), Some(0x3));
    assert_eq!(s.subsection_byte(0, 1, 1, 22), Some(0x3A));
}

#[test]
fn end_to_end_scenario() {
    let mut s = PixelWarState::new();
    assert_eq!(s.initialize_canvas(1, 2, 3), Ok(()));
    assert_eq!(s.draw_pixels_direct(1, 2, 3, true, &vec![px(4, 5, 9)]), Ok(()));
    // Linear index 45 is odd, so byte 22's high nibble becomes 9 and its low
    // nibble stays 0; every other byte stays zero.
    for i in 0..50 {
        let expected = if i == 22 { 0x90 } else { 0x00 };
        assert_eq!(s.subsection_byte(1, 2, 3, i), Some(expected));
    }
}

#[test]
fn empty_batch_draws_nothing() {
    let mut s = PixelWarState::new();
    assert_eq!(s.initialize_canvas(0, 0, 0), Ok(()));
    assert_eq!(s.draw_pixels_direct(0, 0, 0, true, &vec![]), Ok(()));
    for i in 0..50 {
        assert_eq!(s.subsection_byte(0, 0, 0, i), Some(0));
    }
}

#[test]
fn error_messages_are_stable() {
    assert_eq!(
        PixelWarError::InvalidQuadrant.message(),
        "Quadrant must be between 0 and 3"
    );
    assert_eq!(
        PixelWarError::InvalidColor.message(),
        "Color must be between 0 and 15"
    );
    assert_eq!(PixelWarError::SessionExpired.message(), "Session has expired");
}

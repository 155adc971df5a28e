use pixel_war::canvas::PixelWarState;
use pixel_war::error::PixelWarError;
use pixel_war::pixel::Pixel;
use pixel_war::session::Identity;

fn id(n: u64) -> Identity {
    Identity { id: n }
}

fn px(x: u8, y: u8, color: u8) -> Pixel {
    Pixel { x, y, color }
}

#[test]
fn create_session_then_duplicate_rejected() {
    let mut s = PixelWarState::new();
    assert_eq!(s.create_session(id(1), id(2), 1_000), Ok(()));
    assert_eq!(
        s.create_session(id(1), id(2), 2_000),
        Err(PixelWarError::DuplicateSession)
    );
    // The stored record is untouched by the rejected create.
    assert_eq!(s.session_expiry(id(1), id(2)), Some(1_000));
    // A different ephemeral key under the same authority is a new pair.
    assert_eq!(s.create_session(id(1), id(3), 500), Ok(()));
    assert_eq!(s.session_expiry(id(1), id(3)), Some(500));
}

#[test]
fn create_session_accepts_past_expiry() {
    // A past timestamp is a caller error, not rejected at creation.
    let mut s = PixelWarState::new();
    assert_eq!(s.create_session(id(1), id(2), -5), Ok(()));
    assert_eq!(s.session_expiry(id(1), id(2)), Some(-5));
}

#[test]
fn delegated_draw_applies_pixels() {
    let mut s = PixelWarState::new();
    assert_eq!(s.initialize_canvas(0, 0, 0), Ok(()));
    assert_eq!(s.create_session(id(1), id(2), 1_000), Ok(()));
    assert_eq!(
        s.draw_pixels_with_session(0, 0, 0, id(1), id(2), id(2), 999, &vec![px(6, 7, 4)]),
        Ok(())
    );
    assert_eq!(s.read_pixel(0, 0, 0, 6, 7), Some(4));
}

#[test]
fn session_expiry_boundary() {
    let mut s = PixelWarState::new();
    assert_eq!(s.initialize_canvas(0, 0, 0), Ok(()));
    assert_eq!(s.create_session(id(1), id(2), 1_000), Ok(()));
    // Strictly before the expiry instant: allowed.
    assert_eq!(
        s.draw_pixels_with_session(0, 0, 0, id(1), id(2), id(2), 999, &vec![px(0, 0, 1)]),
        Ok(())
    );
    // At the expiry instant: rejected.
    assert_eq!(
        s.draw_pixels_with_session(0, 0, 0, id(1), id(2), id(2), 1_000, &vec![px(0, 0, 2)]),
        Err(PixelWarError::SessionExpired)
    );
    // After it: rejected, and the buffer keeps the earlier draw.
    assert_eq!(
        s.draw_pixels_with_session(0, 0, 0, id(1), id(2), id(2), 1_001, &vec![px(0, 0, 3)]),
        Err(PixelWarError::SessionExpired)
    );
    assert_eq!(s.read_pixel(0, 0, 0, 0, 0), Some(1));
}

#[test]
fn unknown_session_pair_rejected() {
    let mut s = PixelWarState::new();
    assert_eq!(s.initialize_canvas(0, 0, 0), Ok(()));
    assert_eq!(s.create_session(id(1), id(2), 1_000), Ok(()));
    // No record for (1, 9): the claimed pair decides, before any pixel check.
    assert_eq!(
        s.draw_pixels_with_session(0, 0, 0, id(1), id(9), id(9), 0, &vec![px(10, 0, 99)]),
        Err(PixelWarError::InvalidAuthority)
    );
    // No record for authority 8 either.
    assert_eq!(
        s.draw_pixels_with_session(0, 0, 0, id(8), id(2), id(2), 0, &vec![px(0, 0, 1)]),
        Err(PixelWarError::InvalidAuthority)
    );
}

#[test]
fn delegation_isolation() {
    let mut s = PixelWarState::new();
    assert_eq!(s.initialize_canvas(0, 0, 0), Ok(()));
    assert_eq!(s.create_session(id(1), id(2), 1_000), Ok(()));
    // The signer controls a different, perfectly valid session of its own.
    assert_eq!(s.create_session(id(1), id(3), 1_000), Ok(()));
    // Drawing against the (1, 2) session with signer 3 must fail on the
    // ephemeral-key check, and nothing is drawn.
    assert_eq!(
        s.draw_pixels_with_session(0, 0, 0, id(1), id(2), id(3), 0, &vec![px(5, 5, 5)]),
        Err(PixelWarError::InvalidEphemeralKey)
    );
    assert_eq!(s.read_pixel(0, 0, 0, 5, 5), Some(0));
}

#[test]
fn ephemeral_key_checked_before_expiry() {
    let mut s = PixelWarState::new();
    assert_eq!(s.initialize_canvas(0, 0, 0), Ok(()));
    assert_eq!(s.create_session(id(1), id(2), 1_000), Ok(()));
    // Wrong signer and expired at once: the key mismatch is reported first.
    assert_eq!(
        s.draw_pixels_with_session(0, 0, 0, id(1), id(2), id(3), 5_000, &vec![px(0, 0, 1)]),
        Err(PixelWarError::InvalidEphemeralKey)
    );
}

#[test]
fn delegated_draw_validates_batch() {
    let mut s = PixelWarState::new();
    assert_eq!(s.initialize_canvas(0, 0, 0), Ok(()));
    assert_eq!(s.create_session(id(1), id(2), 1_000), Ok(()));
    assert_eq!(
        s.draw_pixels_with_session(0, 0, 0, id(1), id(2), id(2), 0, &vec![px(0, 0, 16)]),
        Err(PixelWarError::InvalidColor)
    );
    assert_eq!(s.read_pixel(0, 0, 0, 0, 0), Some(0));
}

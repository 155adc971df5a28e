use vstd::prelude::*;

verus! {

/// The stable error taxonomy of the core. Every failure is a caller-input or
/// authorization failure; none is transient or internal, and the first
/// failing check aborts the whole request.
#[derive(Clone, Copy, Debug, PartialEq, Eq, Structural)]
pub enum PixelWarError {
    /// A pixel's `x` or `y` is 10 or more at draw time.
    InvalidPixelCoordinates,
    /// The direct draw path was invoked without a valid signer.
    AuthorityMustSign,
    /// No session record exists for the claimed (authority, ephemeral key)
    /// pair, or the stored authority differs from the claimed one.
    InvalidAuthority,
    /// The session's stored ephemeral key differs from the actual signer.
    InvalidEphemeralKey,
    /// The current time is at or past the session's expiry.
    SessionExpired,
    /// The quadrant is 4 or more at setup.
    InvalidQuadrant,
    /// The subsection's `x` or `y` is 10 or more at setup.
    InvalidSubsectionCoordinates,
    /// A pixel's color is 16 or more.
    InvalidColor,
    /// A session already exists for this (authority, ephemeral key) pair.
    DuplicateSession,
}

impl PixelWarError {
    /// The human-readable message surfaced with each error kind.
    pub fn message(&self) -> (r: &'static str)
        ensures
            self is InvalidPixelCoordinates ==> r@ == "Pixel coordinates must be between 0 and 9"@,
            self is AuthorityMustSign ==> r@ == "Authority must sign if no session token is provided"@,
            self is InvalidAuthority ==> r@ == "Invalid authority in session token"@,
            self is InvalidEphemeralKey ==> r@ == "Invalid ephemeral key in session token"@,
            self is SessionExpired ==> r@ == "Session has expired"@,
            self is InvalidQuadrant ==> r@ == "Quadrant must be between 0 and 3"@,
            self is InvalidSubsectionCoordinates ==> r@ == "Subsection coordinates must be between 0 and 9"@,
            self is InvalidColor ==> r@ == "Color must be between 0 and 15"@,
            self is DuplicateSession ==> r@ == "Session already exists for this authority and ephemeral key"@,
    {
        match self {
            PixelWarError::InvalidPixelCoordinates => "Pixel coordinates must be between 0 and 9",
            PixelWarError::AuthorityMustSign => "Authority must sign if no session token is provided",
            PixelWarError::InvalidAuthority => "Invalid authority in session token",
            PixelWarError::InvalidEphemeralKey => "Invalid ephemeral key in session token",
            PixelWarError::SessionExpired => "Session has expired",
            PixelWarError::InvalidQuadrant => "Quadrant must be between 0 and 3",
            PixelWarError::InvalidSubsectionCoordinates => "Subsection coordinates must be between 0 and 9",
            PixelWarError::InvalidColor => "Color must be between 0 and 15",
            PixelWarError::DuplicateSession => "Session already exists for this authority and ephemeral key",
        }
    }
}

} // verus!

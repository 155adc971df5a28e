use vstd::prelude::*;
use crate::error::PixelWarError;

verus! {

/// A principal's identity, as established by the external
/// signature-verification layer. The core never verifies signatures itself:
/// it only compares identities for equality.
#[derive(Clone, Copy, Debug, PartialEq, Eq, Structural)]
pub struct Identity {
    pub id: u64,
}

/// A time-bounded delegation record binding a primary authority to an
/// ephemeral signing key. Identified by `(authority, ephemeral_key)`;
/// immutable once created; semantically invalid (but never removed) from its
/// expiry instant on.
#[derive(Clone, Copy, Debug, PartialEq, Eq, Structural)]
pub struct Session {
    pub authority: Identity,
    pub ephemeral_key: Identity,
    pub expiry: i64,
}

/// The identifying key of a session record.
pub open spec fn session_key(s: Session) -> (Identity, Identity) {
    (s.authority, s.ephemeral_key)
}

/// No two records share an `(authority, ephemeral_key)` pair.
pub open spec fn unique_session_keys(s: Seq<Session>) -> bool {
    forall|i: int, j: int|
        0 <= i < j < s.len() ==> session_key(s[i]) != session_key(s[j])
}

/// The mathematical model of the session store: each stored pair mapped to
/// its expiry.
pub open spec fn sessions_view(s: Seq<Session>) -> Map<(Identity, Identity), i64>
    decreases s.len(),
{
    if s.len() == 0 {
        Map::empty()
    } else {
        sessions_view(s.drop_last()).insert(session_key(s.last()), s.last().expiry)
    }
}

/// The model knows a pair exactly when some record carries it.
pub proof fn lemma_sessions_view_contains(s: Seq<Session>, k: (Identity, Identity))
    ensures
        sessions_view(s).contains_key(k) <==> exists|i: int|
            0 <= i < s.len() && session_key(s[i]) == k,
    decreases s.len(),
{
    if s.len() > 0 {
        lemma_sessions_view_contains(s.drop_last(), k);
        assert(forall|i: int|
            0 <= i < s.len() - 1 ==> s.drop_last()[i] == s[i]);
        if sessions_view(s).contains_key(k) && session_key(s.last()) != k {
            let i = choose|i: int| 0 <= i < s.len() - 1 && session_key(s.drop_last()[i]) == k;
            assert(session_key(s[i]) == k);
        }
        if exists|i: int| 0 <= i < s.len() && session_key(s[i]) == k {
            let i = choose|i: int| 0 <= i < s.len() && session_key(s[i]) == k;
            if i < s.len() - 1 {
                assert(session_key(s.drop_last()[i]) == k);
            }
        }
    }
}

/// With unique keys, the model maps each stored pair to that record's expiry.
pub proof fn lemma_sessions_view_get(s: Seq<Session>, i: int)
    requires
        unique_session_keys(s),
        0 <= i < s.len(),
    ensures
        sessions_view(s).contains_key(session_key(s[i])),
        sessions_view(s)[session_key(s[i])] == s[i].expiry,
    decreases s.len(),
{
    if i < s.len() - 1 {
        assert(forall|j: int|
            0 <= j < s.len() - 1 ==> s.drop_last()[j] == s[j]);
        lemma_sessions_view_get(s.drop_last(), i);
        assert(session_key(s[i]) != session_key(s.last()));
    }
}

/// Delegated-path validation over the session-store model, with the checks
/// evaluated in order and the first failure deciding the error: no record
/// for the claimed `(authority, ephemeral key)` pair means
/// `InvalidAuthority`; a signer other than the claimed ephemeral key means
/// `InvalidEphemeralKey`; a current time at or past the stored expiry means
/// `SessionExpired` (a session is live strictly before its expiry instant).
/// The record's stored authority always equals the claimed one here, since
/// the claimed pair is the record's identifying key.
pub open spec fn validate_session(
    sessions: Map<(Identity, Identity), i64>,
    authority: Identity,
    ephemeral_key: Identity,
    signer: Identity,
    now: i64,
) -> Result<(), PixelWarError> {
    if !sessions.contains_key((authority, ephemeral_key)) {
        Err(PixelWarError::InvalidAuthority)
    } else if signer != ephemeral_key {
        Err(PixelWarError::InvalidEphemeralKey)
    } else if now >= sessions[(authority, ephemeral_key)] {
        Err(PixelWarError::SessionExpired)
    } else {
        Ok(())
    }
}

} // verus!

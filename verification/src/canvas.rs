use vstd::prelude::*;
use crate::error::PixelWarError;
use crate::pixel::{Pixel, batch_check, pixel_valid, lemma_batch_check_ok};
use crate::session::{Identity, Session, session_key, unique_session_keys, sessions_view,
    lemma_sessions_view_contains, lemma_sessions_view_get, validate_session};
use crate::subsection::{Subsection, PIXEL_BYTES, apply_batch, nibble_at, pixel_index};

verus! {

/// CanvasRegistry: the singleton one-time flag. Created idempotently by the
/// setup path and never mutated again once set.
#[derive(Clone, Copy, Debug, PartialEq, Eq, Structural)]
pub struct CanvasMeta {
    pub initialized: bool,
}

/// The identifying key of a stored subsection.
pub open spec fn subsection_key(s: Subsection) -> (u8, u8, u8) {
    (s.quadrant, s.x, s.y)
}

/// No two stored subsections share a `(quadrant, x, y)` key.
pub open spec fn unique_subsection_keys(s: Seq<Subsection>) -> bool {
    forall|i: int, j: int|
        0 <= i < j < s.len() ==> subsection_key(s[i]) != subsection_key(s[j])
}

/// The mathematical model of the subsection store: each stored key mapped to
/// its packed pixel buffer.
pub open spec fn subsections_view(s: Seq<Subsection>) -> Map<(u8, u8, u8), Seq<u8>>
    decreases s.len(),
{
    if s.len() == 0 {
        Map::empty()
    } else {
        subsections_view(s.drop_last()).insert(subsection_key(s.last()), s.last().pixels@)
    }
}

/// The model knows a key exactly when some stored subsection carries it.
pub proof fn lemma_subsections_view_contains(s: Seq<Subsection>, k: (u8, u8, u8))
    ensures
        subsections_view(s).contains_key(k) <==> exists|i: int|
            0 <= i < s.len() && subsection_key(s[i]) == k,
    decreases s.len(),
{
    if s.len() > 0 {
        lemma_subsections_view_contains(s.drop_last(), k);
        assert(forall|i: int|
            0 <= i < s.len() - 1 ==> s.drop_last()[i] == s[i]);
        if subsections_view(s).contains_key(k) && subsection_key(s.last()) != k {
            let i = choose|i: int|
                0 <= i < s.len() - 1 && subsection_key(s.drop_last()[i]) == k;
            assert(subsection_key(s[i]) == k);
        }
        if exists|i: int| 0 <= i < s.len() && subsection_key(s[i]) == k {
            let i = choose|i: int| 0 <= i < s.len() && subsection_key(s[i]) == k;
            if i < s.len() - 1 {
                assert(subsection_key(s.drop_last()[i]) == k);
            }
        }
    }
}

/// With unique keys, the model maps each stored key to that subsection's
/// buffer.
pub proof fn lemma_subsections_view_get(s: Seq<Subsection>, i: int)
    requires
        unique_subsection_keys(s),
        0 <= i < s.len(),
    ensures
        subsections_view(s).contains_key(subsection_key(s[i])),
        subsections_view(s)[subsection_key(s[i])] == s[i].pixels@,
    decreases s.len(),
{
    if i < s.len() - 1 {
        assert(forall|j: int|
            0 <= j < s.len() - 1 ==> s.drop_last()[j] == s[j]);
        lemma_subsections_view_get(s.drop_last(), i);
        assert(subsection_key(s[i]) != subsection_key(s.last()));
    }
}

/// Replacing one stored subsection, key unchanged, updates exactly its entry
/// of the model.
pub proof fn lemma_subsections_view_update(s: Seq<Subsection>, i: int, sub: Subsection)
    requires
        unique_subsection_keys(s),
        0 <= i < s.len(),
        subsection_key(sub) == subsection_key(s[i]),
    ensures
        subsections_view(s.update(i, sub))
            == subsections_view(s).insert(subsection_key(sub), sub.pixels@),
    decreases s.len(),
{
    let t = s.update(i, sub);
    let k = subsection_key(sub);
    if i == s.len() - 1 {
        assert(t.drop_last() =~= s.drop_last());
        assert(t.last() == sub);
        assert(subsections_view(s).insert(k, sub.pixels@)
            =~= subsections_view(s.drop_last()).insert(k, sub.pixels@));
    } else {
        assert(forall|j: int|
            0 <= j < s.len() - 1 ==> s.drop_last()[j] == s[j]);
        assert(unique_subsection_keys(s.drop_last()));
        assert(t.drop_last() =~= s.drop_last().update(i, sub));
        assert(t.last() == s.last());
        lemma_subsections_view_update(s.drop_last(), i, sub);
        let klast = subsection_key(s.last());
        let vlast = s.last().pixels@;
        assert(k != klast);
        assert(subsections_view(s.drop_last()).insert(k, sub.pixels@).insert(klast, vlast)
            =~= subsections_view(s.drop_last()).insert(klast, vlast).insert(k, sub.pixels@));
    }
}

/// The ghost model of the whole core state: the registry flag, the
/// subsection store, and the session store.
#[verifier::ext_equal]
pub ghost struct CanvasModel {
    pub initialized: bool,
    pub subsections: Map<(u8, u8, u8), Seq<u8>>,
    pub sessions: Map<(Identity, Identity), i64>,
}

/// The in-range pixel buffer a subsection is born with: every nibble color 0.
pub open spec fn zero_buffer() -> Seq<u8> {
    Seq::new(PIXEL_BYTES as nat, |i: int| 0u8)
}

/// Setup validation: quadrant below 4, both coordinates below 10, quadrant
/// checked first.
pub open spec fn init_canvas_result(quadrant: u8, x: u8, y: u8) -> Result<(), PixelWarError> {
    if quadrant >= 4 {
        Err(PixelWarError::InvalidQuadrant)
    } else if x >= 10 || y >= 10 {
        Err(PixelWarError::InvalidSubsectionCoordinates)
    } else {
        Ok(())
    }
}

/// Setup effect: mark the canvas initialized and create the subsection with
/// an all-zero buffer if it is absent; an existing buffer is never touched.
/// A rejected request changes nothing.
pub open spec fn init_canvas_transition(s: CanvasModel, quadrant: u8, x: u8, y: u8) -> CanvasModel {
    if init_canvas_result(quadrant, x, y) is Ok {
        CanvasModel {
            initialized: true,
            subsections: if s.subsections.contains_key((quadrant, x, y)) {
                s.subsections
            } else {
                s.subsections.insert((quadrant, x, y), zero_buffer())
            },
            sessions: s.sessions,
        }
    } else {
        s
    }
}

/// Session creation is a strict create: it fails exactly when the pair is
/// already stored.
pub open spec fn create_session_result(
    s: CanvasModel,
    authority: Identity,
    ephemeral_key: Identity,
) -> Result<(), PixelWarError> {
    if s.sessions.contains_key((authority, ephemeral_key)) {
        Err(PixelWarError::DuplicateSession)
    } else {
        Ok(())
    }
}

/// Session creation effect: store the expiry under the new pair; nothing
/// else moves. No constraint is placed on the expiry value itself.
pub open spec fn create_session_transition(
    s: CanvasModel,
    authority: Identity,
    ephemeral_key: Identity,
    expiry: i64,
) -> CanvasModel {
    if create_session_result(s, authority, ephemeral_key) is Ok {
        CanvasModel {
            initialized: s.initialized,
            subsections: s.subsections,
            sessions: s.sessions.insert((authority, ephemeral_key), expiry),
        }
    } else {
        s
    }
}

/// Direct-path outcome: the authority's own signature gates the draw, then
/// the whole batch is validated.
pub open spec fn draw_direct_result(
    authority_is_signer: bool,
    pixels: Seq<Pixel>,
) -> Result<(), PixelWarError> {
    if !authority_is_signer {
        Err(PixelWarError::AuthorityMustSign)
    } else {
        batch_check(pixels)
    }
}

/// Direct-path effect: an accepted draw rewrites exactly the target
/// subsection's buffer, in batch order; any failure changes nothing.
pub open spec fn draw_direct_transition(
    s: CanvasModel,
    key: (u8, u8, u8),
    authority_is_signer: bool,
    pixels: Seq<Pixel>,
) -> CanvasModel {
    if draw_direct_result(authority_is_signer, pixels) is Ok {
        CanvasModel {
            initialized: s.initialized,
            subsections: s.subsections.insert(key, apply_batch(s.subsections[key], pixels)),
            sessions: s.sessions,
        }
    } else {
        s
    }
}

/// Delegated-path outcome: session validation first, in its fixed order,
/// then the same whole-batch validation as the direct path.
pub open spec fn draw_with_session_result(
    s: CanvasModel,
    authority: Identity,
    ephemeral_key: Identity,
    signer: Identity,
    now: i64,
    pixels: Seq<Pixel>,
) -> Result<(), PixelWarError> {
    match validate_session(s.sessions, authority, ephemeral_key, signer, now) {
        Err(e) => Err(e),
        Ok(u) => batch_check(pixels),
    }
}

/// Delegated-path effect: identical pixel-mutation semantics to the direct
/// path; only the trust establishment differs.
pub open spec fn draw_with_session_transition(
    s: CanvasModel,
    key: (u8, u8, u8),
    authority: Identity,
    ephemeral_key: Identity,
    signer: Identity,
    now: i64,
    pixels: Seq<Pixel>,
) -> CanvasModel {
    if draw_with_session_result(s, authority, ephemeral_key, signer, now, pixels) is Ok {
        CanvasModel {
            initialized: s.initialized,
            subsections: s.subsections.insert(key, apply_batch(s.subsections[key], pixels)),
            sessions: s.sessions,
        }
    } else {
        s
    }
}

/// The whole core state: the registry singleton, the subsection store, and
/// the session store. Each request mutates it as one serializable unit of
/// work; concurrency, durability, and signature verification are the
/// hosting substrate's business.
pub struct PixelWarState {
    pub canvas_meta: CanvasMeta,
    pub subsections: Vec<Subsection>,
    pub sessions: Vec<Session>,
}

impl View for PixelWarState {
    type V = CanvasModel;

    open spec fn view(&self) -> CanvasModel {
        CanvasModel {
            initialized: self.canvas_meta.initialized,
            subsections: subsections_view(self.subsections@),
            sessions: sessions_view(self.sessions@),
        }
    }
}

impl PixelWarState {
    /// Well-formedness: stored keys are unique on both stores, and every
    /// stored subsection has in-range coordinates and its fixed-size buffer.
    pub open spec fn wf(self) -> bool {
        unique_subsection_keys(self.subsections@)
            && (forall|i: int|
                0 <= i < self.subsections@.len() ==> (#[trigger] self.subsections@[i]).wf())
            && unique_session_keys(self.sessions@)
    }

    /// A fresh core: not initialized, no subsections, no sessions.
    pub fn new() -> (s: Self)
        ensures
            s.wf(),
            s@.initialized == false,
            s@.subsections == Map::<(u8, u8, u8), Seq<u8>>::empty(),
            s@.sessions == Map::<(Identity, Identity), i64>::empty(),
    {
        PixelWarState {
            canvas_meta: CanvasMeta { initialized: false },
            subsections: Vec::new(),
            sessions: Vec::new(),
        }
    }

    /// Looks the target subsection up by its identifying key.
    fn find_subsection(&self, quadrant: u8, x: u8, y: u8) -> (r: Option<usize>)
        ensures
            match r {
                Some(i) => i < self.subsections@.len()
                    && subsection_key(self.subsections@[i as int]) == (quadrant, x, y),
                None => forall|j: int|
                    0 <= j < self.subsections@.len()
                        ==> subsection_key(self.subsections@[j]) != (quadrant, x, y),
            },
    {
        let n = self.subsections.len();
        let mut i: usize = 0;
        while i < n
            invariant
                n == self.subsections@.len(),
                i <= n,
                forall|j: int|
                    0 <= j < i ==> subsection_key(self.subsections@[j]) != (quadrant, x, y),
            decreases n - i,
        {
            let s = &self.subsections[i];
            if s.quadrant == quadrant && s.x == x && s.y == y {
                return Some(i);
            }
            i = i + 1;
        }
        None
    }

    /// Looks a session record up by its identifying pair.
    fn find_session(&self, authority: Identity, ephemeral_key: Identity) -> (r: Option<usize>)
        ensures
            match r {
                Some(i) => i < self.sessions@.len()
                    && session_key(self.sessions@[i as int]) == (authority, ephemeral_key),
                None => forall|j: int|
                    0 <= j < self.sessions@.len()
                        ==> session_key(self.sessions@[j]) != (authority, ephemeral_key),
            },
    {
        let n = self.sessions.len();
        let mut i: usize = 0;
        while i < n
            invariant
                n == self.sessions@.len(),
                i <= n,
                forall|j: int|
                    0 <= j < i ==> session_key(self.sessions@[j]) != (authority, ephemeral_key),
            decreases n - i,
        {
            let s = &self.sessions[i];
            if s.authority.id == authority.id && s.ephemeral_key.id == ephemeral_key.id {
                return Some(i);
            }
            i = i + 1;
        }
        None
    }

    /// Builds the all-zero buffer a new subsection starts with.
    fn zero_pixels() -> (v: Vec<u8>)
        ensures
            v@ == zero_buffer(),
    {
        let mut v: Vec<u8> = Vec::new();
        let mut i: usize = 0;
        while i < PIXEL_BYTES
            invariant
                i <= PIXEL_BYTES,
                v@.len() == i,
                forall|j: int| 0 <= j < i ==> v@[j] == 0u8,
            decreases PIXEL_BYTES - i,
        {
            v.push(0);
            i = i + 1;
        }
        proof {
            assert(v@ =~= zero_buffer());
        }
        v
    }

    /// CanvasRegistry setup: validate the coordinates, mark the canvas
    /// initialized, and ensure the addressed subsection exists with an
    /// all-zero buffer on first creation. Idempotent: repeating the call
    /// succeeds and never resets existing pixel data.
    pub fn initialize_canvas(&mut self, quadrant: u8, x: u8, y: u8) -> (r: Result<
        (),
        PixelWarError,
    >)
        requires
            old(self).wf(),
        ensures
            final(self).wf(),
            r == init_canvas_result(quadrant, x, y),
            final(self)@ == init_canvas_transition(old(self)@, quadrant, x, y),
    {
        if quadrant >= 4 {
            return Err(PixelWarError::InvalidQuadrant);
        }
        if x >= 10 || y >= 10 {
            return Err(PixelWarError::InvalidSubsectionCoordinates);
        }
        self.canvas_meta.initialized = true;
        proof {
            lemma_subsections_view_contains(self.subsections@, (quadrant, x, y));
        }
        match self.find_subsection(quadrant, x, y) {
            Some(_) => {
                proof {
                    assert(self@ =~= init_canvas_transition(old(self)@, quadrant, x, y));
                }
            },
            None => {
                let sub = Subsection { quadrant, x, y, pixels: Self::zero_pixels() };
                let ghost s0 = self.subsections@;
                self.subsections.push(sub);
                proof {
                    assert(self.subsections@.drop_last() =~= s0);
                    assert(self.subsections@.last() == sub);
                    assert forall|i: int, j: int|
                        0 <= i < j < self.subsections@.len() implies subsection_key(
                        self.subsections@[i],
                    ) != subsection_key(self.subsections@[j]) by {
                        if j == self.subsections@.len() - 1 {
                            assert(subsection_key(s0[i]) != (quadrant, x, y));
                        }
                    }
                    assert(self@ =~= init_canvas_transition(old(self)@, quadrant, x, y));
                }
            },
        }
        Ok(())
    }

    /// SessionManager creation: a strict create of the delegation record,
    /// failing on an already-stored `(authority, ephemeral_key)` pair. The
    /// caller's control of `authority` has been proved by the envelope; the
    /// expiry value itself is not constrained.
    pub fn create_session(&mut self, authority: Identity, ephemeral_key: Identity, expiry: i64) -> (r:
        Result<(), PixelWarError>)
        requires
            old(self).wf(),
        ensures
            final(self).wf(),
            r == create_session_result(old(self)@, authority, ephemeral_key),
            final(self)@ == create_session_transition(old(self)@, authority, ephemeral_key, expiry),
    {
        proof {
            lemma_sessions_view_contains(self.sessions@, (authority, ephemeral_key));
        }
        match self.find_session(authority, ephemeral_key) {
            Some(_) => Err(PixelWarError::DuplicateSession),
            None => {
                let sess = Session { authority, ephemeral_key, expiry };
                let ghost s0 = self.sessions@;
                self.sessions.push(sess);
                proof {
                    assert(self.sessions@.drop_last() =~= s0);
                    assert(self.sessions@.last() == sess);
                    assert forall|i: int, j: int|
                        0 <= i < j < self.sessions@.len() implies session_key(self.sessions@[i])
                        != session_key(self.sessions@[j]) by {
                        if j == self.sessions@.len() - 1 {
                            assert(session_key(s0[i]) != (authority, ephemeral_key));
                        }
                    }
                    assert(self@ =~= create_session_transition(
                        old(self)@,
                        authority,
                        ephemeral_key,
                        expiry,
                    ));
                }
                Ok(())
            },
        }
    }

    /// Applies an authorized batch to the stored subsection at `idx`, whose
    /// key is the target key. Shared tail of both draw paths.
    fn draw_at(&mut self, idx: usize, pixels: &Vec<Pixel>) -> (r: Result<(), PixelWarError>)
        requires
            old(self).wf(),
            idx < old(self).subsections@.len(),
        ensures
            final(self).wf(),
            r == batch_check(pixels@),
            final(self).sessions@ == old(self).sessions@,
            final(self).canvas_meta == old(self).canvas_meta,
            r is Ok ==> final(self)@.subsections == old(self)@.subsections.insert(
                subsection_key(old(self).subsections@[idx as int]),
                apply_batch(old(self).subsections@[idx as int].pixels@, pixels@),
            ),
            r is Err ==> final(self)@.subsections == old(self)@.subsections,
    {
        let ghost s0 = self.subsections@;
        let ghost key = subsection_key(s0[idx as int]);
        proof {
            lemma_subsections_view_get(s0, idx as int);
        }
        let sub = &mut self.subsections[idx];
        let r = sub.apply_pixels(pixels);
        proof {
            let s1 = self.subsections@;
            let newsub = s1[idx as int];
            assert(s1 == s0.update(idx as int, newsub));
            assert(subsection_key(newsub) == key);
            assert forall|i: int, j: int|
                0 <= i < j < s1.len() implies subsection_key(s1[i]) != subsection_key(
                s1[j],
            ) by {
                assert(subsection_key(s1[i]) == subsection_key(s0[i]));
                assert(subsection_key(s1[j]) == subsection_key(s0[j]));
            }
            assert forall|i: int| 0 <= i < s1.len() implies (#[trigger] s1[i]).wf() by {
                if i != idx {
                    assert(s1[i] == s0[i]);
                }
            }
            lemma_subsections_view_update(s0, idx as int, newsub);
            if r is Err {
                assert(subsections_view(s0).insert(key, newsub.pixels@) =~= subsections_view(s0));
            }
        }
        r
    }

    /// The direct draw path: any caller whose control of an authority the
    /// envelope has verified (the signer flag) may draw; the batch is then
    /// validated whole and applied in order to the target subsection.
    pub fn draw_pixels_direct(
        &mut self,
        quadrant: u8,
        x: u8,
        y: u8,
        authority_is_signer: bool,
        pixels: &Vec<Pixel>,
    ) -> (r: Result<(), PixelWarError>)
        requires
            old(self).wf(),
            old(self)@.subsections.contains_key((quadrant, x, y)),
        ensures
            final(self).wf(),
            r == draw_direct_result(authority_is_signer, pixels@),
            final(self)@ == draw_direct_transition(
                old(self)@,
                (quadrant, x, y),
                authority_is_signer,
                pixels@,
            ),
    {
        if !authority_is_signer {
            return Err(PixelWarError::AuthorityMustSign);
        }
        proof {
            lemma_subsections_view_contains(self.subsections@, (quadrant, x, y));
        }
        let idx_opt = self.find_subsection(quadrant, x, y);
        let idx = idx_opt.unwrap();
        proof {
            lemma_subsections_view_get(self.subsections@, idx as int);
        }
        let r = self.draw_at(idx, pixels);
        proof {
            assert(self@ =~= draw_direct_transition(
                old(self)@,
                (quadrant, x, y),
                authority_is_signer,
                pixels@,
            ));
        }
        r
    }

    /// The delegated draw path: the caller signs as `ephemeral_signer` and
    /// names the claimed `(authority, ephemeral_key)` session pair; the
    /// stored record is validated (existence, stored authority, stored
    /// ephemeral key against the actual signer, then strict expiry against
    /// the request's one current-time snapshot) before the same mutation as
    /// the direct path. No signature of the primary authority is involved.
    pub fn draw_pixels_with_session(
        &mut self,
        quadrant: u8,
        x: u8,
        y: u8,
        authority: Identity,
        ephemeral_key: Identity,
        ephemeral_signer: Identity,
        now: i64,
        pixels: &Vec<Pixel>,
    ) -> (r: Result<(), PixelWarError>)
        requires
            old(self).wf(),
            old(self)@.subsections.contains_key((quadrant, x, y)),
        ensures
            final(self).wf(),
            r == draw_with_session_result(
                old(self)@,
                authority,
                ephemeral_key,
                ephemeral_signer,
                now,
                pixels@,
            ),
            final(self)@ == draw_with_session_transition(
                old(self)@,
                (quadrant, x, y),
                authority,
                ephemeral_key,
                ephemeral_signer,
                now,
                pixels@,
            ),
    {
        proof {
            lemma_sessions_view_contains(self.sessions@, (authority, ephemeral_key));
        }
        let sess_opt = self.find_session(authority, ephemeral_key);
        match sess_opt {
            None => Err(PixelWarError::InvalidAuthority),
            Some(i) => {
                proof {
                    lemma_sessions_view_get(self.sessions@, i as int);
                }
                let sess = &self.sessions[i];
                if sess.ephemeral_key.id != ephemeral_signer.id {
                    return Err(PixelWarError::InvalidEphemeralKey);
                }
                if now >= sess.expiry {
                    return Err(PixelWarError::SessionExpired);
                }
                proof {
                    lemma_subsections_view_contains(self.subsections@, (quadrant, x, y));
                }
                let idx_opt = self.find_subsection(quadrant, x, y);
                let idx = idx_opt.unwrap();
                proof {
                    lemma_subsections_view_get(self.subsections@, idx as int);
                }
                let r = self.draw_at(idx, pixels);
                proof {
                    assert(self@ =~= draw_with_session_transition(
                        old(self)@,
                        (quadrant, x, y),
                        authority,
                        ephemeral_key,
                        ephemeral_signer,
                        now,
                        pixels@,
                    ));
                }
                r
            },
        }
    }

    /// Whether the canvas registry has been initialized.
    pub fn is_initialized(&self) -> (r: bool)
        ensures
            r == self@.initialized,
    {
        self.canvas_meta.initialized
    }

    /// Reads one pixel's color back out of a stored subsection, or `None`
    /// when no subsection exists for the key or the pixel coordinates are
    /// out of range.
    pub fn read_pixel(&self, quadrant: u8, x: u8, y: u8, px: u8, py: u8) -> (r: Option<u8>)
        requires
            self.wf(),
        ensures
            r == if self@.subsections.contains_key((quadrant, x, y)) && px < 10 && py < 10 {
                Some(nibble_at(self@.subsections[(quadrant, x, y)], pixel_index(px, py)))
            } else {
                None::<u8>
            },
    {
        if !(px < 10 && py < 10) {
            return None;
        }
        proof {
            lemma_subsections_view_contains(self.subsections@, (quadrant, x, y));
        }
        match self.find_subsection(quadrant, x, y) {
            None => None,
            Some(i) => {
                proof {
                    lemma_subsections_view_get(self.subsections@, i as int);
                }
                let sub = &self.subsections[i];
                Some(sub.get_pixel(px, py))
            },
        }
    }

    /// Reads one raw byte of a stored subsection's packed buffer.
    pub fn subsection_byte(&self, quadrant: u8, x: u8, y: u8, i: usize) -> (r: Option<u8>)
        requires
            self.wf(),
        ensures
            r == if self@.subsections.contains_key((quadrant, x, y)) && i < PIXEL_BYTES {
                Some(self@.subsections[(quadrant, x, y)][i as int])
            } else {
                None::<u8>
            },
    {
        if i >= PIXEL_BYTES {
            return None;
        }
        proof {
            lemma_subsections_view_contains(self.subsections@, (quadrant, x, y));
        }
        match self.find_subsection(quadrant, x, y) {
            None => None,
            Some(idx) => {
                proof {
                    lemma_subsections_view_get(self.subsections@, idx as int);
                }
                let sub = &self.subsections[idx];
                Some(sub.pixels[i])
            },
        }
    }

    /// The stored expiry of a session pair, if one exists.
    pub fn session_expiry(&self, authority: Identity, ephemeral_key: Identity) -> (r: Option<i64>)
        requires
            self.wf(),
        ensures
            r == if self@.sessions.contains_key((authority, ephemeral_key)) {
                Some(self@.sessions[(authority, ephemeral_key)])
            } else {
                None::<i64>
            },
    {
        proof {
            lemma_sessions_view_contains(self.sessions@, (authority, ephemeral_key));
        }
        match self.find_session(authority, ephemeral_key) {
            None => None,
            Some(i) => {
                proof {
                    lemma_sessions_view_get(self.sessions@, i as int);
                }
                Some(self.sessions[i].expiry)
            },
        }
    }
}

/// Boundary rejection law: a draw whose batch holds any out-of-range pixel
/// fails, and under whole-batch validation the canvas is left unchanged —
/// on either path.
pub proof fn lemma_boundary_rejection(
    s: CanvasModel,
    key: (u8, u8, u8),
    authority_is_signer: bool,
    authority: Identity,
    ephemeral_key: Identity,
    signer: Identity,
    now: i64,
    pixels: Seq<Pixel>,
    j: int,
)
    requires
        0 <= j < pixels.len(),
        !pixel_valid(pixels[j]),
    ensures
        draw_direct_result(authority_is_signer, pixels) is Err,
        draw_direct_transition(s, key, authority_is_signer, pixels) == s,
        draw_with_session_result(s, authority, ephemeral_key, signer, now, pixels) is Err,
        draw_with_session_transition(s, key, authority, ephemeral_key, signer, now, pixels) == s,
{
    lemma_batch_check_ok(pixels);
}

/// Idempotent setup law: re-initializing already-valid coordinates succeeds
/// and is a no-op on top of the first call; in particular no stored pixel
/// buffer is ever reset by a repeated call.
pub proof fn lemma_initialize_canvas_idempotent(s: CanvasModel, quadrant: u8, x: u8, y: u8)
    requires
        quadrant < 4,
        x < 10,
        y < 10,
    ensures
        init_canvas_result(quadrant, x, y) is Ok,
        init_canvas_transition(init_canvas_transition(s, quadrant, x, y), quadrant, x, y)
            == init_canvas_transition(s, quadrant, x, y),
        forall|k: (u8, u8, u8)|
            s.subsections.contains_key(k)
                ==> init_canvas_transition(s, quadrant, x, y).subsections[k] == s.subsections[k],
{
    let s1 = init_canvas_transition(s, quadrant, x, y);
    assert(s1.subsections.contains_key((quadrant, x, y)));
    assert(init_canvas_transition(s1, quadrant, x, y) =~= s1);
}

/// Session expiry boundary law: with the stored pair claimed and its own
/// ephemeral key signing, a delegated draw is authorized for every current
/// time strictly below the stored expiry — the draw then succeeds exactly
/// when the batch is in range — and is rejected as expired at the expiry
/// instant and ever after.
pub proof fn lemma_session_expiry_boundary(
    s: CanvasModel,
    authority: Identity,
    ephemeral_key: Identity,
    now: i64,
    pixels: Seq<Pixel>,
)
    requires
        s.sessions.contains_key((authority, ephemeral_key)),
    ensures
        now < s.sessions[(authority, ephemeral_key)]
            ==> draw_with_session_result(s, authority, ephemeral_key, ephemeral_key, now, pixels)
            == batch_check(pixels),
        now >= s.sessions[(authority, ephemeral_key)]
            ==> draw_with_session_result(s, authority, ephemeral_key, ephemeral_key, now, pixels)
            == Err::<(), PixelWarError>(PixelWarError::SessionExpired),
{
}

/// Delegation isolation law: a live, unexpired session never authorizes a
/// signer other than its stored ephemeral key, whatever other sessions (the
/// signer's own included) the store holds; such a draw fails with
/// `InvalidEphemeralKey` and moves nothing.
pub proof fn lemma_delegation_isolation(
    s: CanvasModel,
    key: (u8, u8, u8),
    authority: Identity,
    ephemeral_key: Identity,
    signer: Identity,
    now: i64,
    pixels: Seq<Pixel>,
)
    requires
        s.sessions.contains_key((authority, ephemeral_key)),
        now < s.sessions[(authority, ephemeral_key)],
        signer != ephemeral_key,
    ensures
        draw_with_session_result(s, authority, ephemeral_key, signer, now, pixels)
            == Err::<(), PixelWarError>(PixelWarError::InvalidEphemeralKey),
        draw_with_session_transition(s, key, authority, ephemeral_key, signer, now, pixels) == s,
{
}

} // verus!


//! Session management for Squadz

use vstd::prelude::*;

use crate::encoding::{base64_url_no_pad, encode_url_no_pad};
use crate::entropy::{lemma_some_number_is_free, random_bytes, random_id, MAX_DRAWS};
use crate::models::Id;
use crate::sweep::{lemma_sweep_end, lemma_sweep_start, lemma_sweep_step};
use crate::text::same_text;
use crate::time::{plus_secs, Timestamp, NANOS_PER_SEC};

verus! {

/// Number of random bytes behind an API key: 256 bits.
pub const API_KEY_BYTES: usize = 32;

/// What every API key begins with.
pub open spec fn api_key_prefix() -> Seq<char> {
    "sqz_"@
}

/// The API key that is made of `bytes`: the prefix, then the bytes in
/// URL-safe base64 without padding.
pub open spec fn api_key_text(bytes: Seq<u8>) -> Seq<char> {
    api_key_prefix() + base64_url_no_pad(bytes)
}

/// A member session tied to a squad
#[derive(Debug)]
pub struct MemberSession {
    pub session_id: Id,
    pub member_id: Id,
    pub squad_id: Id,
    pub api_key: String,
    pub created_at: Timestamp,
    pub expires_at: Timestamp,
    pub last_seen: Timestamp,
}

/// What a [`MemberSession`] holds, as mathematical values.
pub struct MemberSessionView {
    pub session_id: Id,
    pub member_id: Id,
    pub squad_id: Id,
    pub api_key: Seq<char>,
    pub created_at: Timestamp,
    pub expires_at: Timestamp,
    pub last_seen: Timestamp,
}

impl View for MemberSession {
    type V = MemberSessionView;

    open spec fn view(&self) -> MemberSessionView {
        MemberSessionView {
            session_id: self.session_id,
            member_id: self.member_id,
            squad_id: self.squad_id,
            api_key: self.api_key@,
            created_at: self.created_at,
            expires_at: self.expires_at,
            last_seen: self.last_seen,
        }
    }
}

impl Clone for MemberSession {
    fn clone(&self) -> (copy: MemberSession)
        ensures
            copy@ == self@,
    {
        MemberSession {
            session_id: self.session_id,
            member_id: self.member_id,
            squad_id: self.squad_id,
            api_key: self.api_key.clone(),
            created_at: self.created_at,
            expires_at: self.expires_at,
            last_seen: self.last_seen,
        }
    }
}

impl MemberSessionView {
    /// Whether the session has run out at `now`: `now` lies after
    /// `expires_at`.
    pub open spec fn is_expired_at(self, now: Timestamp) -> bool {
        now@ > self.expires_at@
    }

    /// The session after it was seen at `now`.
    pub open spec fn touched(self, now: Timestamp) -> MemberSessionView {
        MemberSessionView { last_seen: now, ..self }
    }
}

/// The session that is issued at `now` for `ttl_secs` seconds.
pub open spec fn issued(
    session_id: Id,
    member_id: Id,
    squad_id: Id,
    api_key: Seq<char>,
    now: Timestamp,
    ttl_secs: u64,
) -> MemberSessionView {
    MemberSessionView {
        session_id,
        member_id,
        squad_id,
        api_key,
        created_at: now,
        expires_at: Timestamp { nanos: plus_secs(now@, ttl_secs as int) as i128 },
        last_seen: now,
    }
}

/// The API key for the given random bytes.
pub fn api_key_from_bytes(bytes: &Vec<u8>) -> (key: String)
    requires
        bytes@.len() <= usize::MAX / 2,
    ensures
        key@ == api_key_text(bytes@),
{
    let mut key = "sqz_".to_owned();
    let body = encode_url_no_pad(bytes.as_slice());
    key.append(body.as_str());
    key
}

/// An API key from 256 fresh random bits.
fn generate_api_key() -> (key: String)
    ensures
        exists|bytes: Seq<u8>| bytes.len() == API_KEY_BYTES && key@ == api_key_text(bytes),
{
    let bytes = random_bytes();
    api_key_from_bytes(&bytes)
}

impl MemberSession {
    /// A session from values that the caller has drawn.
    pub fn issue(
        session_id: Id,
        member_id: Id,
        squad_id: Id,
        api_key: String,
        now: Timestamp,
        ttl_secs: u64,
    ) -> (session: MemberSession)
        ensures
            session@ == issued(session_id, member_id, squad_id, api_key@, now, ttl_secs),
    {
        MemberSession {
            session_id,
            member_id,
            squad_id,
            api_key,
            created_at: now,
            expires_at: now.plus_secs(ttl_secs),
            last_seen: now,
        }
    }

    /// A session that starts now, with a fresh identity and a fresh key.
    pub fn new(member_id: Id, squad_id: Id, ttl_secs: u64) -> (session: MemberSession)
        ensures
            session@ == issued(
                session@.session_id,
                member_id,
                squad_id,
                session@.api_key,
                session@.created_at,
                ttl_secs,
            ),
            session@.created_at.in_unix_range(),
            session@.expires_at@ == session@.created_at@ + ttl_secs * NANOS_PER_SEC,
            exists|bytes: Seq<u8>|
                bytes.len() == API_KEY_BYTES && session@.api_key == api_key_text(bytes),
    {
        let now = Timestamp::now();
        let api_key = generate_api_key();
        MemberSession::issue(random_id(), member_id, squad_id, api_key, now, ttl_secs)
    }

    /// Whether the session has run out at `now`.
    pub fn is_expired_at(&self, now: Timestamp) -> (expired: bool)
        ensures
            expired == self@.is_expired_at(now),
    {
        now.is_after(self.expires_at)
    }

    /// Whether the session has run out by now.
    pub fn is_expired(&self) -> (expired: bool)
        ensures
            exists|now: Timestamp|
                now.in_unix_range() && expired == #[trigger] self@.is_expired_at(now),
    {
        let now = Timestamp::now();
        let expired = self.is_expired_at(now);
        assert(expired == self@.is_expired_at(now));
        expired
    }

    /// Records that the session was seen at `now`.
    pub fn touch_at(&mut self, now: Timestamp)
        ensures
            final(self)@ == old(self)@.touched(now),
    {
        self.last_seen = now;
    }

    /// Records that the session was seen now.
    pub fn touch(&mut self)
        ensures
            final(self)@ == old(self)@.touched(final(self).last_seen),
            final(self).last_seen.in_unix_range(),
    {
        self.touch_at(Timestamp::now());
    }
}

/// The views of a list of sessions, in order.
pub open spec fn session_views(sessions: Seq<MemberSession>) -> Seq<MemberSessionView> {
    sessions.map_values(|s: MemberSession| s@)
}

/// Whether some session in `sessions` goes by the key `key`.
pub open spec fn has_key(sessions: Seq<MemberSessionView>, key: Seq<char>) -> bool {
    exists|i: int| 0 <= i < sessions.len() && (#[trigger] sessions[i]).api_key == key
}

/// The place of a session with the key `key`.
pub open spec fn key_index(sessions: Seq<MemberSessionView>, key: Seq<char>) -> int {
    choose|i: int| 0 <= i < sessions.len() && (#[trigger] sessions[i]).api_key == key
}

/// The session with the key `key`, if there is one.
pub open spec fn session_for(sessions: Seq<MemberSessionView>, key: Seq<char>) -> Option<
    MemberSessionView,
> {
    if has_key(sessions, key) {
        Some(sessions[key_index(sessions, key)])
    } else {
        None
    }
}

/// Whether some session in `sessions` has the identity `id`.
pub open spec fn has_session(sessions: Seq<MemberSessionView>, id: Id) -> bool {
    exists|i: int| 0 <= i < sessions.len() && (#[trigger] sessions[i]).session_id == id
}

/// What holds of the store: no two sessions share a key.
#[verifier::opaque]
pub open spec fn store_wf(sessions: Seq<MemberSessionView>) -> bool {
    forall|i: int, j: int|
        0 <= i < j < sessions.len() ==> (#[trigger] sessions[i]).api_key != (
        #[trigger] sessions[j]).api_key
}

/// The store after `session` was put in: in the place of the session that
/// had its key, or else at the end.
pub open spec fn after_insert(sessions: Seq<MemberSessionView>, session: MemberSessionView) -> Seq<
    MemberSessionView,
> {
    if has_key(sessions, session.api_key) {
        sessions.update(key_index(sessions, session.api_key), session)
    } else {
        sessions.push(session)
    }
}

/// What validating `key` at `now` answers: the session, seen at `now`, if
/// the store has the key and the session has not run out.
pub open spec fn validate_outcome(sessions: Seq<MemberSessionView>, key: Seq<char>, now: Timestamp) -> Option<
    MemberSessionView,
> {
    match session_for(sessions, key) {
        Some(session) => if session.is_expired_at(now) {
            None
        } else {
            Some(session.touched(now))
        },
        None => None,
    }
}

/// The store after `key` was validated at `now`: a session that has run
/// out is gone, a live one was seen at `now`.
pub open spec fn after_validate(sessions: Seq<MemberSessionView>, key: Seq<char>, now: Timestamp) -> Seq<
    MemberSessionView,
> {
    if has_key(sessions, key) {
        let k = key_index(sessions, key);
        if sessions[k].is_expired_at(now) {
            sessions.remove(k)
        } else {
            sessions.update(k, sessions[k].touched(now))
        }
    } else {
        sessions
    }
}

/// The store after `key` was revoked.
pub open spec fn after_revoke(sessions: Seq<MemberSessionView>, key: Seq<char>) -> Seq<
    MemberSessionView,
> {
    if has_key(sessions, key) {
        sessions.remove(key_index(sessions, key))
    } else {
        sessions
    }
}

/// The sessions that do not belong to the member `member_id`.
pub open spec fn without_member(sessions: Seq<MemberSessionView>, member_id: Id) -> Seq<
    MemberSessionView,
> {
    sessions.filter(|s: MemberSessionView| s.member_id != member_id)
}

/// The sessions that have not run out at `now`.
pub open spec fn without_expired(sessions: Seq<MemberSessionView>, now: Timestamp) -> Seq<
    MemberSessionView,
> {
    sessions.filter(|s: MemberSessionView| !s.is_expired_at(now))
}

/// A store cannot hold all identities up to the number of its sessions:
/// one of them is free.
pub proof fn lemma_some_session_id_is_free(sessions: Seq<MemberSessionView>)
    requires
        sessions.len() < u128::MAX,
    ensures
        exists|id: int| 0 <= id <= sessions.len() && !has_session(sessions, #[trigger] (id as Id)),
{
    let used = sessions.map_values(|s: MemberSessionView| s.session_id as int);
    lemma_some_number_is_free(used);
    let free = choose|n: int| 0 <= n <= used.len() && !(#[trigger] used.contains(n));
    if has_session(sessions, free as Id) {
        let i = choose|i: int|
            0 <= i < sessions.len() && (#[trigger] sessions[i]).session_id == free as Id;
        assert(used[i] == free);
    }
    assert(!has_session(sessions, free as Id));
}

/// In a well-formed store a session is found at its own place.
pub proof fn lemma_wf_key_index(sessions: Seq<MemberSessionView>, k: int)
    requires
        store_wf(sessions),
        0 <= k < sessions.len(),
    ensures
        has_key(sessions, sessions[k].api_key),
        key_index(sessions, sessions[k].api_key) == k,
        session_for(sessions, sessions[k].api_key) == Some(sessions[k]),
{
    reveal(store_wf);
    let i = key_index(sessions, sessions[k].api_key);
    if i < k {
        assert(sessions[i].api_key != sessions[k].api_key);
    } else if k < i {
        assert(sessions[k].api_key != sessions[i].api_key);
    }
}

/// Adding a session whose key is unused keeps the store well formed.
pub proof fn lemma_push_keeps_wf(sessions: Seq<MemberSessionView>, session: MemberSessionView)
    requires
        store_wf(sessions),
        !has_key(sessions, session.api_key),
    ensures
        store_wf(sessions.push(session)),
{
    reveal(store_wf);
    let next = sessions.push(session);
    assert forall|i: int, j: int| 0 <= i < j < next.len() implies (#[trigger] next[i]).api_key != (
    #[trigger] next[j]).api_key by {
        assert(next[i] == sessions[i]);
        if j < sessions.len() {
            assert(next[j] == sessions[j]);
        }
    }
}

/// Taking a session out keeps the store well formed.
pub proof fn lemma_remove_keeps_wf(sessions: Seq<MemberSessionView>, k: int)
    requires
        store_wf(sessions),
        0 <= k < sessions.len(),
    ensures
        store_wf(sessions.remove(k)),
{
    reveal(store_wf);
    let rest = sessions.remove(k);
    assert forall|i: int, j: int| 0 <= i < j < rest.len() implies (#[trigger] rest[i]).api_key != (
    #[trigger] rest[j]).api_key by {
        let a = if i < k { i } else { i + 1 };
        let b = if j < k { j } else { j + 1 };
        assert(rest[i] == sessions[a]);
        assert(rest[j] == sessions[b]);
    }
}

/// Replacing a session by one with the same key keeps the store well
/// formed.
pub proof fn lemma_update_keeps_wf(
    sessions: Seq<MemberSessionView>,
    k: int,
    session: MemberSessionView,
)
    requires
        store_wf(sessions),
        0 <= k < sessions.len(),
        session.api_key == sessions[k].api_key,
    ensures
        store_wf(sessions.update(k, session)),
{
    reveal(store_wf);
    let next = sessions.update(k, session);
    assert forall|i: int, j: int| 0 <= i < j < next.len() implies (#[trigger] next[i]).api_key != (
    #[trigger] next[j]).api_key by {
        assert(next[i].api_key == sessions[i].api_key);
        assert(next[j].api_key == sessions[j].api_key);
    }
}

/// A key that the store does not hold validates to nothing. A key that it
/// holds validates to its session, seen at `now`, at every instant before
/// the session's `expires_at`, and to nothing, the session being dropped,
/// at every instant after it.
pub proof fn lemma_validate_window(sessions: Seq<MemberSessionView>, key: Seq<char>, now: Timestamp)
    requires
        store_wf(sessions),
    ensures
        !has_key(sessions, key) ==> validate_outcome(sessions, key, now) is None && after_validate(
            sessions,
            key,
            now,
        ) == sessions,
        has_key(sessions, key) && now@ < sessions[key_index(sessions, key)].expires_at@
            ==> validate_outcome(sessions, key, now) == Some(
            sessions[key_index(sessions, key)].touched(now),
        ),
        has_key(sessions, key) && now@ > sessions[key_index(sessions, key)].expires_at@
            ==> validate_outcome(sessions, key, now) is None && !has_key(
            after_validate(sessions, key, now),
            key,
        ),
{
    if has_key(sessions, key) {
        let k = key_index(sessions, key);
        if now@ > sessions[k].expires_at@ {
            lemma_removed_key_is_gone(sessions, k);
        }
    }
}

/// Once a session is taken out of a well-formed store, its key finds
/// nothing there.
pub proof fn lemma_removed_key_is_gone(sessions: Seq<MemberSessionView>, k: int)
    requires
        store_wf(sessions),
        0 <= k < sessions.len(),
    ensures
        !has_key(sessions.remove(k), sessions[k].api_key),
{
    let rest = sessions.remove(k);
    if has_key(rest, sessions[k].api_key) {
        let i = key_index(rest, sessions[k].api_key);
        let a = if i < k { i } else { i + 1 };
        assert(rest[i] == sessions[a]);
        lemma_wf_key_index(sessions, a);
        lemma_wf_key_index(sessions, k);
    }
}

/// A session that was put into the store is found by its key. It
/// validates, seen at `now`, at every instant up to its `expires_at`, and
/// to nothing at every instant after it.
pub proof fn lemma_inserted_session_validates(
    sessions: Seq<MemberSessionView>,
    session: MemberSessionView,
    now: Timestamp,
)
    requires
        store_wf(sessions),
    ensures
        ({
            let stored = after_insert(sessions, session);
            &&& store_wf(stored)
            &&& session_for(stored, session.api_key) == Some(session)
            &&& now@ <= session.expires_at@ ==> validate_outcome(stored, session.api_key, now)
                == Some(session.touched(now))
            &&& now@ > session.expires_at@ ==> validate_outcome(stored, session.api_key, now)
                is None
        }),
{
    let stored = after_insert(sessions, session);
    if has_key(sessions, session.api_key) {
        let k = key_index(sessions, session.api_key);
        lemma_update_keeps_wf(sessions, k, session);
        assert(stored[k] == session);
        lemma_wf_key_index(stored, k);
    } else {
        lemma_push_keeps_wf(sessions, session);
        let k = sessions.len() as int;
        assert(stored[k] == session);
        lemma_wf_key_index(stored, k);
    }
}

/// After a key was revoked the store does not hold it, and it validates
/// to nothing at every instant.
pub proof fn lemma_revoked_key_is_gone(
    sessions: Seq<MemberSessionView>,
    key: Seq<char>,
    now: Timestamp,
)
    requires
        store_wf(sessions),
    ensures
        ({
            let rest = after_revoke(sessions, key);
            &&& store_wf(rest)
            &&& !has_key(rest, key)
            &&& validate_outcome(rest, key, now) is None
            &&& after_validate(rest, key, now) == rest
        }),
{
    if has_key(sessions, key) {
        let k = key_index(sessions, key);
        lemma_remove_keeps_wf(sessions, k);
        lemma_removed_key_is_gone(sessions, k);
    }
}

/// A key that the store does not hold comes back only by an insertion
/// under that very key: validating, revoking and sweeping never bring it
/// in.
pub proof fn lemma_absent_key_stays_absent(
    sessions: Seq<MemberSessionView>,
    key: Seq<char>,
    other: Seq<char>,
    session: MemberSessionView,
    member_id: Id,
    now: Timestamp,
)
    requires
        !has_key(sessions, key),
    ensures
        !has_key(after_validate(sessions, other, now), key),
        !has_key(after_revoke(sessions, other), key),
        !has_key(without_member(sessions, member_id), key),
        !has_key(without_expired(sessions, now), key),
        session.api_key != key ==> !has_key(after_insert(sessions, session), key),
{
    if has_key(sessions, other) {
        let k = key_index(sessions, other);
        let rest = sessions.remove(k);
        if has_key(rest, key) {
            let i = key_index(rest, key);
            let a = if i < k { i } else { i + 1 };
            assert(rest[i] == sessions[a]);
        }
        let seen = sessions.update(k, sessions[k].touched(now));
        if has_key(seen, key) {
            let i = key_index(seen, key);
            assert(seen[i].api_key == sessions[i].api_key);
        }
    }
    lemma_kept_key_was_there(sessions, |s: MemberSessionView| s.member_id != member_id, key);
    lemma_kept_key_was_there(sessions, |s: MemberSessionView| !s.is_expired_at(now), key);
    let stored = after_insert(sessions, session);
    if session.api_key != key && has_key(stored, key) {
        let i = key_index(stored, key);
        if has_key(sessions, session.api_key) {
            let k = key_index(sessions, session.api_key);
            if i != k {
                assert(stored[i] == sessions[i]);
            }
        } else if i < sessions.len() {
            assert(stored[i] == sessions[i]);
        }
    }
}

/// A key that is held after a sweep was held before it.
pub proof fn lemma_kept_key_was_there(
    sessions: Seq<MemberSessionView>,
    keep: spec_fn(MemberSessionView) -> bool,
    key: Seq<char>,
)
    ensures
        has_key(sessions.filter(keep), key) ==> has_key(sessions, key),
{
    let kept = sessions.filter(keep);
    if has_key(kept, key) {
        let i = key_index(kept, key);
        assert(kept.contains(kept[i]));
        sessions.lemma_filter_contains_rev(keep, kept[i]);
        let a = choose|a: int| 0 <= a < sessions.len() && sessions[a] == kept[i];
        assert(sessions[a].api_key == key);
    }
}

/// Sweeping by member takes out every session of that member and no
/// other; sweeping at `now` takes out every session that has run out at
/// `now` and no other.
pub proof fn lemma_sweeps(sessions: Seq<MemberSessionView>, member_id: Id, now: Timestamp, i: int)
    requires
        0 <= i < sessions.len(),
    ensures
        without_member(sessions, member_id).contains(sessions[i]) <==> sessions[i].member_id
            != member_id,
        without_expired(sessions, now).contains(sessions[i]) <==> !sessions[i].is_expired_at(now),
{
    let by_member = |s: MemberSessionView| s.member_id != member_id;
    let by_expiry = |s: MemberSessionView| !s.is_expired_at(now);
    if by_member(sessions[i]) {
        sessions.lemma_filter_contains(by_member, i);
    }
    if by_expiry(sessions[i]) {
        sessions.lemma_filter_contains(by_expiry, i);
    }
    if without_member(sessions, member_id).contains(sessions[i]) {
        let kept = sessions.filter(by_member);
        let j = choose|j: int| 0 <= j < kept.len() && kept[j] == sessions[i];
        sessions.lemma_filter_pred(by_member, j);
    }
    if without_expired(sessions, now).contains(sessions[i]) {
        let kept = sessions.filter(by_expiry);
        let j = choose|j: int| 0 <= j < kept.len() && kept[j] == sessions[i];
        sessions.lemma_filter_pred(by_expiry, j);
    }
}

/// Session store for member sessions
pub struct SessionStore {
    sessions: Vec<MemberSession>,
}

impl View for SessionStore {
    type V = Seq<MemberSessionView>;

    /// The sessions in the store, oldest key first.
    closed spec fn view(&self) -> Seq<MemberSessionView> {
        session_views(self.sessions@)
    }
}

impl Default for SessionStore {
    fn default() -> (store: SessionStore)
        ensures
            store@ == Seq::<MemberSessionView>::empty(),
            store.wf(),
    {
        SessionStore::new()
    }
}

impl SessionStore {
    /// The invariant of the store.
    pub open spec fn wf(&self) -> bool {
        store_wf(self@)
    }

    pub fn new() -> (store: SessionStore)
        ensures
            store@ == Seq::<MemberSessionView>::empty(),
            store.wf(),
    {
        let store = SessionStore { sessions: Vec::new() };
        proof {
            reveal(store_wf);
            assert(store@ =~= Seq::<MemberSessionView>::empty());
        }
        store
    }

    /// The place of the session with the key `key`.
    fn find(&self, key: &str) -> (at: Option<usize>)
        ensures
            match at {
                Some(k) => k < self.sessions@.len() && self@[k as int].api_key == key@,
                None => !has_key(self@, key@),
            },
    {
        let mut i: usize = 0;
        while i < self.sessions.len()
            invariant
                i <= self.sessions@.len(),
                self@.len() == self.sessions@.len(),
                forall|j: int| 0 <= j < i ==> (#[trigger] self@[j]).api_key != key@,
            decreases self.sessions@.len() - i,
        {
            if same_text(self.sessions[i].api_key.as_str(), key) {
                return Some(i);
            }
            i += 1;
        }
        None
    }

    /// Takes out the session at the place `k`.
    fn drop_at(&mut self, k: usize)
        requires
            k < old(self)@.len(),
        ensures
            final(self)@ == old(self)@.remove(k as int),
    {
        proof {
            assert(session_views(self.sessions@.remove(k as int)) =~= session_views(
                self.sessions@,
            ).remove(k as int));
        }
        self.sessions.remove(k);
    }

    /// Puts a session into the store under its key. A session that had the
    /// same key is replaced.
    pub fn insert(&mut self, session: MemberSession)
        requires
            old(self).wf(),
        ensures
            final(self).wf(),
            final(self)@ == after_insert(old(self)@, session@),
    {
        match self.find(session.api_key.as_str()) {
            Some(k) => {
                proof {
                    lemma_wf_key_index(old(self)@, k as int);
                    lemma_update_keeps_wf(old(self)@, k as int, session@);
                    assert(session_views(self.sessions@.update(k as int, session))
                        =~= session_views(self.sessions@).update(k as int, session@));
                }
                self.sessions[k] = session;
            },
            None => {
                proof {
                    lemma_push_keeps_wf(old(self)@, session@);
                    assert(session_views(self.sessions@.push(session)) =~= session_views(
                        self.sessions@,
                    ).push(session@));
                }
                self.sessions.push(session);
            },
        }
    }

    /// Whether some session has the identity `id`.
    fn knows_session(&self, id: Id) -> (known: bool)
        ensures
            known == has_session(self@, id),
    {
        let mut i: usize = 0;
        while i < self.sessions.len()
            invariant
                i <= self.sessions@.len(),
                self@.len() == self.sessions@.len(),
                forall|j: int| 0 <= j < i ==> (#[trigger] self@[j]).session_id != id,
            decreases self.sessions@.len() - i,
        {
            if self.sessions[i].session_id == id {
                assert(self@[i as int].session_id == id);
                return true;
            }
            i += 1;
        }
        false
    }

    /// The least identity that no session in the store has.
    pub fn first_free_session_id(&self) -> (id: Id)
        ensures
            !has_session(self@, id),
            forall|j: int| 0 <= j < id ==> has_session(self@, #[trigger] (j as Id)),
            id <= self@.len(),
    {
        let count = self.sessions.len();
        let mut id: u128 = 0;
        while id <= count as u128
            invariant
                count == self@.len(),
                id <= count + 1,
                forall|j: int| 0 <= j < id ==> has_session(self@, #[trigger] (j as Id)),
            decreases count + 1 - id,
        {
            if !self.knows_session(id) {
                return id;
            }
            id += 1;
        }
        proof {
            lemma_some_session_id_is_free(self@);
        }
        id
    }

    /// Draws an identity that no session in the store has.
    ///
    /// After [`MAX_DRAWS`] draws that were all in use, the least unused
    /// identity is taken.
    fn generate_session_id(&self) -> (id: Id)
        ensures
            !has_session(self@, id),
    {
        let mut draws: usize = 0;
        while draws < MAX_DRAWS
            invariant
                draws <= MAX_DRAWS,
            decreases MAX_DRAWS - draws,
        {
            let id = random_id();
            if !self.knows_session(id) {
                return id;
            }
            draws += 1;
        }
        self.first_free_session_id()
    }

    /// Create a new session for a member
    ///
    /// The session starts now, with an identity that no session in the
    /// store has and with a fresh key.
    pub fn create(&mut self, member_id: Id, squad_id: Id, ttl_secs: u64) -> (session: MemberSession)
        requires
            old(self).wf(),
        ensures
            final(self).wf(),
            final(self)@ == after_insert(old(self)@, session@),
            session@ == issued(
                session@.session_id,
                member_id,
                squad_id,
                session@.api_key,
                session@.created_at,
                ttl_secs,
            ),
            !has_session(old(self)@, session@.session_id),
            session@.created_at.in_unix_range(),
            session@.expires_at@ == session@.created_at@ + ttl_secs * NANOS_PER_SEC,
            exists|bytes: Seq<u8>|
                bytes.len() == API_KEY_BYTES && session@.api_key == api_key_text(bytes),
    {
        let now = Timestamp::now();
        let api_key = generate_api_key();
        let session_id = self.generate_session_id();
        let session = MemberSession::issue(session_id, member_id, squad_id, api_key, now, ttl_secs);
        self.insert(session.clone());
        session
    }

    /// Validate an API key at the instant `now` and return the session if
    /// valid
    pub fn validate_at(&mut self, api_key: &str, now: Timestamp) -> (session: Option<MemberSession>)
        requires
            old(self).wf(),
        ensures
            final(self).wf(),
            final(self)@ == after_validate(old(self)@, api_key@, now),
            match session {
                Some(s) => validate_outcome(old(self)@, api_key@, now) == Some(s@),
                None => validate_outcome(old(self)@, api_key@, now) is None,
            },
    {
        let k = match self.find(api_key) {
            Some(k) => k,
            None => {
                return None;
            },
        };
        proof {
            lemma_wf_key_index(old(self)@, k as int);
        }
        if self.sessions[k].is_expired_at(now) {
            proof {
                lemma_remove_keeps_wf(old(self)@, k as int);
            }
            self.drop_at(k);
            return None;
        }
        proof {
            lemma_update_keeps_wf(old(self)@, k as int, old(self)@[k as int].touched(now));
        }
        self.sessions[k].touch_at(now);
        let copy = self.sessions[k].clone();
        proof {
            assert(self@ =~= old(self)@.update(k as int, old(self)@[k as int].touched(now)));
        }
        Some(copy)
    }

    /// Validate an API key and return the session if valid
    pub fn validate(&mut self, api_key: &str) -> (session: Option<MemberSession>)
        requires
            old(self).wf(),
        ensures
            final(self).wf(),
            exists|now: Timestamp|
                {
                    &&& now.in_unix_range()
                    &&& final(self)@ == after_validate(old(self)@, api_key@, now)
                    &&& match session {
                        Some(s) => #[trigger] validate_outcome(old(self)@, api_key@, now) == Some(
                            s@,
                        ),
                        None => validate_outcome(old(self)@, api_key@, now) is None,
                    }
                },
    {
        let now = Timestamp::now();
        let session = self.validate_at(api_key, now);
        proof {
            let outcome = validate_outcome(old(self)@, api_key@, now);
            assert(match session {
                Some(s) => outcome == Some(s@),
                None => outcome is None,
            });
        }
        session
    }

    /// Revoke a session
    pub fn revoke(&mut self, api_key: &str) -> (existed: bool)
        requires
            old(self).wf(),
        ensures
            final(self).wf(),
            existed == has_key(old(self)@, api_key@),
            final(self)@ == after_revoke(old(self)@, api_key@),
    {
        match self.find(api_key) {
            Some(k) => {
                proof {
                    lemma_wf_key_index(old(self)@, k as int);
                    lemma_remove_keeps_wf(old(self)@, k as int);
                }
                self.drop_at(k);
                true
            },
            None => false,
        }
    }

    /// Revoke all sessions for a member
    pub fn revoke_member(&mut self, member_id: &Id) -> (count: usize)
        requires
            old(self).wf(),
        ensures
            final(self).wf(),
            final(self)@ == without_member(old(self)@, *member_id),
            count == old(self)@.len() - final(self)@.len(),
    {
        let ghost keep = |s: MemberSessionView| s.member_id != *member_id;
        let ghost before = self@;
        let mut i: usize = 0;
        let mut count: usize = 0;
        proof {
            lemma_sweep_start(before, keep);
            assert(before.len() == self.sessions.len());
        }
        while i < self.sessions.len()
            invariant
                self.wf(),
                self@.len() == self.sessions@.len(),
                i <= self@.len(),
                count + self@.len() == before.len(),
                before.len() <= usize::MAX,
                keep == |s: MemberSessionView| s.member_id != *member_id,
                self@.subrange(0, i as int) == before.subrange(0, i + count).filter(keep),
                self@.subrange(i as int, self@.len() as int) == before.subrange(
                    i + count,
                    before.len() as int,
                ),
            decreases self@.len() - i,
        {
            let ghost now_at = self@;
            proof {
                lemma_sweep_step(before, now_at, keep, i as int, count as int);
            }
            if self.sessions[i].member_id != *member_id {
                i += 1;
            } else {
                proof {
                    lemma_remove_keeps_wf(self@, i as int);
                }
                self.drop_at(i);
                count += 1;
            }
        }
        proof {
            lemma_sweep_end(before, self@, keep);
        }
        count
    }

    /// Cleanup sessions that have run out at the instant `now`
    pub fn cleanup_expired_at(&mut self, now: Timestamp) -> (count: usize)
        requires
            old(self).wf(),
        ensures
            final(self).wf(),
            final(self)@ == without_expired(old(self)@, now),
            count == old(self)@.len() - final(self)@.len(),
    {
        let ghost keep = |s: MemberSessionView| !s.is_expired_at(now);
        let ghost before = self@;
        let mut i: usize = 0;
        let mut count: usize = 0;
        proof {
            lemma_sweep_start(before, keep);
            assert(before.len() == self.sessions.len());
        }
        while i < self.sessions.len()
            invariant
                self.wf(),
                self@.len() == self.sessions@.len(),
                i <= self@.len(),
                count + self@.len() == before.len(),
                before.len() <= usize::MAX,
                keep == |s: MemberSessionView| !s.is_expired_at(now),
                self@.subrange(0, i as int) == before.subrange(0, i + count).filter(keep),
                self@.subrange(i as int, self@.len() as int) == before.subrange(
                    i + count,
                    before.len() as int,
                ),
            decreases self@.len() - i,
        {
            let ghost now_at = self@;
            proof {
                lemma_sweep_step(before, now_at, keep, i as int, count as int);
            }
            if !self.sessions[i].is_expired_at(now) {
                i += 1;
            } else {
                proof {
                    lemma_remove_keeps_wf(self@, i as int);
                }
                self.drop_at(i);
                count += 1;
            }
        }
        proof {
            lemma_sweep_end(before, self@, keep);
        }
        count
    }

    /// Cleanup expired sessions
    pub fn cleanup_expired(&mut self) -> (count: usize)
        requires
            old(self).wf(),
        ensures
            final(self).wf(),
            exists|now: Timestamp|
                now.in_unix_range() && #[trigger] without_expired(old(self)@, now) == final(self)@,
            count == old(self)@.len() - final(self)@.len(),
    {
        let now = Timestamp::now();
        let count = self.cleanup_expired_at(now);
        assert(without_expired(old(self)@, now) == self@);
        count
    }

    /// Get session count (for metrics)
    pub fn count(&self) -> (count: usize)
        ensures
            count == self@.len(),
    {
        self.sessions.len()
    }
}

} // verus!

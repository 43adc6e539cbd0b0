//! Keeping sessions across restarts: what is written of each session, how
//! the written sessions are sealed with AES-256-GCM under the server's key,
//! and how they are opened and restored. Reading and writing the files, and
//! the JSON form of the sessions, are the caller's work.
use crate::auth::session::{elapsed, restored_entry, SessionEntry, SessionManager};
use crate::auth::token_generator::os_random_bytes;
use crate::error::AppError;
use crate::messages::Session;
use crate::table::{distinct_keys, has_key, lemma_pairs_map, pairs_map, StrMap};
use aes_gcm::aead::{Aead, KeyInit};
use aes_gcm::{Aes256Gcm, Nonce};
use vstd::prelude::*;

verus! {

/// Length of the encryption key, in bytes.
pub const KEY_LEN: usize = 32;

/// Length of the nonce written before the sealed sessions, in bytes.
pub const NONCE_LEN: usize = 12;

/// The longest plaintext that AES-GCM seals, in bytes (2^36, the crate's
/// `P_MAX`).
pub const MAX_SEALED_LEN: u64 = 0x10_0000_0000;

/// What is written of a session.
#[derive(Debug, Clone)]
pub struct PersistentSessionEntry {
    pub session: Session,
    /// When the session was created.
    pub created_at: u64,
    /// When the session was last used.
    pub last_active: u64,
    pub csrf_token: String,
}

/// What AES-256-GCM makes of `plaintext` under `key` and `nonce`, without
/// associated data: the ciphertext followed by the tag.
pub uninterp spec fn aes_gcm_seal(key: Seq<u8>, nonce: Seq<u8>, plaintext: Seq<u8>) -> Seq<u8>;

/// Encrypts `plaintext` with AES-256-GCM (`Aes256Gcm::new_from_slice` then
/// `Aead::encrypt` with the given nonce and no associated data). The result
/// is named by `aes_gcm_seal`. With a key of `KEY_LEN` bytes the only
/// failure is a plaintext longer than `MAX_SEALED_LEN` bytes, which the crate
/// refuses.
#[verifier::external_body]
fn aes_encrypt(key: &[u8], nonce: &[u8], plaintext: &[u8]) -> (r: Option<Vec<u8>>)
    requires
        key@.len() == KEY_LEN,
        nonce@.len() == NONCE_LEN,
    ensures
        plaintext@.len() <= MAX_SEALED_LEN ==> r is Some,
        r matches Some(c) ==> c@ == aes_gcm_seal(key@, nonce@, plaintext@),
{
    match Aes256Gcm::new_from_slice(key) {
        Ok(cipher) => match cipher.encrypt(Nonce::from_slice(nonce), plaintext) {
            Ok(c) => Some(c),
            Err(_) => None,
        },
        Err(_) => None,
    }
}

/// `r` is the text `p`.
pub open spec fn opens_to(r: Option<Vec<u8>>, p: Seq<u8>) -> bool {
    r matches Some(q) && q@ == p
}

/// Decrypts and authenticates `ciphertext` with AES-256-GCM
/// (`Aes256Gcm::new_from_slice` then `Aead::decrypt`). What AES-GCM sealed
/// under the same key and nonce, of a plaintext it accepts (at most
/// `MAX_SEALED_LEN` bytes), opens to that plaintext; for other inputs nothing
/// is stated (a forged or damaged text is refused by the tag check).
#[verifier::external_body]
fn aes_decrypt(key: &[u8], nonce: &[u8], ciphertext: &[u8]) -> (r: Option<Vec<u8>>)
    requires
        key@.len() == KEY_LEN,
        nonce@.len() == NONCE_LEN,
    ensures
        forall|p: Seq<u8>|
            p.len() <= MAX_SEALED_LEN && ciphertext@ == #[trigger] aes_gcm_seal(key@, nonce@, p) ==> opens_to(r, p),
{
    match Aes256Gcm::new_from_slice(key) {
        Ok(cipher) => match cipher.decrypt(Nonce::from_slice(nonce), ciphertext) {
            Ok(p) => Some(p),
            Err(_) => None,
        },
        Err(_) => None,
    }
}

/// The bytes of `v` from `start` on.
fn bytes_from(v: &[u8], start: usize) -> (r: Vec<u8>)
    requires
        start <= v@.len(),
    ensures
        r@ == v@.subrange(start as int, v@.len() as int),
{
    let mut out: Vec<u8> = Vec::new();
    let mut i: usize = start;
    while i < v.len()
        invariant
            start <= i <= v@.len(),
            out@ == v@.subrange(start as int, i as int),
        decreases v@.len() - i,
    {
        out.push(v[i]);
        i = i + 1;
        assert(out@ =~= v@.subrange(start as int, i as int));
    }
    out
}

/// The bytes of `v` before `end`.
fn bytes_before(v: &[u8], end: usize) -> (r: Vec<u8>)
    requires
        end <= v@.len(),
    ensures
        r@ == v@.subrange(0, end as int),
{
    let mut out: Vec<u8> = Vec::new();
    let mut i: usize = 0;
    while i < end
        invariant
            i <= end <= v@.len(),
            out@ == v@.subrange(0, i as int),
        decreases end - i,
    {
        out.push(v[i]);
        i = i + 1;
        assert(out@ =~= v@.subrange(0, i as int));
    }
    out
}

/// Checks a stored key: it must be `KEY_LEN` bytes.
pub fn key_from_bytes(data: Vec<u8>) -> (r: Result<Vec<u8>, AppError>)
    ensures
        data@.len() == KEY_LEN ==> r == Ok::<Vec<u8>, AppError>(data),
        data@.len() != KEY_LEN ==> (r matches Err(AppError::Internal(m)) && m@ == "Invalid encryption key length"@),
{
    if data.len() != KEY_LEN {
        return Err(AppError::Internal("Invalid encryption key length".to_string()));
    }
    Ok(data)
}

/// A fresh random key.
pub fn generate_key() -> (k: Vec<u8>)
    ensures
        k@.len() == KEY_LEN,
{
    os_random_bytes(KEY_LEN)
}

/// A fresh random nonce.
pub fn generate_nonce() -> (n: Vec<u8>)
    ensures
        n@.len() == NONCE_LEN,
{
    os_random_bytes(NONCE_LEN)
}

/// Seals `plaintext` under `key` and `nonce`: the nonce followed by the
/// AES-256-GCM ciphertext. A plaintext too long for AES-GCM (over
/// `MAX_SEALED_LEN` bytes) may fail, as an internal error.
pub fn seal_sessions(key: &[u8], nonce: &[u8], plaintext: &[u8]) -> (r: Result<Vec<u8>, AppError>)
    requires
        key@.len() == KEY_LEN,
        nonce@.len() == NONCE_LEN,
    ensures
        plaintext@.len() <= MAX_SEALED_LEN ==> r is Ok,
        r matches Ok(v) ==> v@ == nonce@ + aes_gcm_seal(key@, nonce@, plaintext@),
        r matches Err(e) ==> e matches AppError::Internal(m) && m@ == "Encryption failed"@,
{
    let sealed = match aes_encrypt(key, nonce, plaintext) {
        Some(c) => c,
        None => {
            return Err(AppError::Internal("Encryption failed".to_string()));
        },
    };
    let mut combined: Vec<u8> = Vec::new();
    let mut i: usize = 0;
    while i < nonce.len()
        invariant
            i <= nonce@.len(),
            combined@ == nonce@.subrange(0, i as int),
        decreases nonce@.len() - i,
    {
        combined.push(nonce[i]);
        i = i + 1;
        assert(combined@ =~= nonce@.subrange(0, i as int));
    }
    let mut j: usize = 0;
    while j < sealed.len()
        invariant
            j <= sealed@.len(),
            combined@ == nonce@ + sealed@.subrange(0, j as int),
        decreases sealed@.len() - j,
    {
        combined.push(sealed[j]);
        j = j + 1;
        assert(combined@ =~= nonce@ + sealed@.subrange(0, j as int));
    }
    assert(sealed@.subrange(0, sealed@.len() as int) =~= sealed@);
    Ok(combined)
}

/// Opens what `seal_sessions` wrote under `key`: the first `NONCE_LEN` bytes
/// are the nonce, the rest the ciphertext. A text shorter than a nonce is
/// refused as an invalid file, one that does not decrypt as a failed decryption.
pub fn open_sessions(key: &[u8], combined: &[u8]) -> (r: Result<Vec<u8>, AppError>)
    requires
        key@.len() == KEY_LEN,
    ensures
        combined@.len() < NONCE_LEN ==> (r matches Err(AppError::Internal(m)) && m@ == "Invalid session file"@),
        r matches Err(e) ==> e is Internal,
        forall|nonce: Seq<u8>, p: Seq<u8>|
            nonce.len() == NONCE_LEN && p.len() <= MAX_SEALED_LEN && combined@ == nonce + #[trigger] aes_gcm_seal(key@, nonce, p) ==> (r matches Ok(
                q,
            ) && q@ == p),
{
    if combined.len() < NONCE_LEN {
        return Err(AppError::Internal("Invalid session file".to_string()));
    }
    let nonce = bytes_before(combined, NONCE_LEN);
    let ciphertext = bytes_from(combined, NONCE_LEN);
    proof {
        assert forall|n: Seq<u8>, p: Seq<u8>|
            n.len() == NONCE_LEN && combined@ == n + #[trigger] aes_gcm_seal(key@, n, p) implies nonce@ == n
                && ciphertext@ == aes_gcm_seal(key@, n, p) by {
            assert(nonce@ =~= (n + aes_gcm_seal(key@, n, p)).subrange(0, NONCE_LEN as int));
            assert(ciphertext@ =~= (n + aes_gcm_seal(key@, n, p)).subrange(NONCE_LEN as int, combined@.len() as int));
        }
    }
    match aes_decrypt(key, nonce.as_slice(), ciphertext.as_slice()) {
        Some(p) => Ok(p),
        None => Err(AppError::Internal("Decryption failed".to_string())),
    }
}

/// What sealing and then opening under the same key gives back: the sealed text.
pub proof fn lemma_seal_open_round_trip(key: Seq<u8>, nonce: Seq<u8>, p: Seq<u8>)
    requires
        nonce.len() == NONCE_LEN,
    ensures
        (nonce + aes_gcm_seal(key, nonce, p)).subrange(0, NONCE_LEN as int) == nonce,
        (nonce + aes_gcm_seal(key, nonce, p)).subrange(NONCE_LEN as int, (nonce + aes_gcm_seal(key, nonce, p)).len() as int)
            == aes_gcm_seal(key, nonce, p),
{
    assert((nonce + aes_gcm_seal(key, nonce, p)).subrange(0, NONCE_LEN as int) =~= nonce);
    assert((nonce + aes_gcm_seal(key, nonce, p)).subrange(NONCE_LEN as int, (nonce + aes_gcm_seal(key, nonce, p)).len() as int)
        =~= aes_gcm_seal(key, nonce, p));
}

/// What is written at `now` of a session stored as `e`: its creation and last
/// use as the clock shows them from its age and idle time at `now`.
pub open spec fn persisted(e: SessionEntry, now: u64) -> PersistentSessionEntry {
    PersistentSessionEntry {
        session: e.session,
        created_at: (now - elapsed(now, e.created_at)) as u64,
        last_active: (now - elapsed(now, e.last_active)) as u64,
        csrf_token: e.csrf_token,
    }
}

/// A copy of a session.
fn copy_session(s: &Session) -> (r: Session)
    ensures
        r == *s,
{
    Session {
        token: s.token.clone(),
        meet_id: s.meet_id.clone(),
        location_name: s.location_name.clone(),
        priority: s.priority,
    }
}

/// What is written at `now` of every session.
pub fn sessions_to_persist_at(sm: &SessionManager, now: u64) -> (r: StrMap<PersistentSessionEntry>)
    requires
        sm.wf(),
    ensures
        r.wf(),
        r.map() == sm@.map_values(|e: SessionEntry| persisted(e, now)),
{
    let all = sm.get_all_sessions_at(now);
    let entries = all.entries();
    proof {
        lemma_pairs_map(all.pairs());
        assert forall|j: int| 0 <= j < entries@.len() implies #[trigger] entries@[j].1.created_at_duration <= now
            && entries@[j].1.last_active_duration <= now by {
            let k = entries@[j].0@;
            assert(all.map()[k] == entries@[j].1);
            assert(all.map().contains_key(k));
        }
    }
    let mut out: Vec<(String, PersistentSessionEntry)> = Vec::new();
    let mut i: usize = 0;
    while i < entries.len()
        invariant
            entries@ == all.pairs(),
            i <= entries@.len(),
            out@.len() == i,
            forall|j: int| 0 <= j < i ==> #[trigger] out@[j].0@ == entries@[j].0@,
            forall|j: int|
                0 <= j < i ==> #[trigger] out@[j].1 == (PersistentSessionEntry {
                    session: entries@[j].1.session,
                    created_at: (now - entries@[j].1.created_at_duration) as u64,
                    last_active: (now - entries@[j].1.last_active_duration) as u64,
                    csrf_token: entries@[j].1.csrf_token,
                }),
            forall|j: int|
                0 <= j < entries@.len() ==> #[trigger] entries@[j].1.created_at_duration <= now
                    && entries@[j].1.last_active_duration <= now,
        decreases entries@.len() - i,
    {
        let (k, e) = &entries[i];
        let p = PersistentSessionEntry {
            session: copy_session(&e.session),
            created_at: now - e.created_at_duration,
            last_active: now - e.last_active_duration,
            csrf_token: e.csrf_token.clone(),
        };
        out.push((k.clone(), p));
        i = i + 1;
    }
    proof {
        let src = all.pairs();
        let dst = out@;
        assert(distinct_keys(dst)) by {
            assert forall|a: int, b: int| 0 <= a < dst.len() && 0 <= b < dst.len() && a != b
                implies #[trigger] dst[a].0@ != #[trigger] dst[b].0@ by {
                assert(dst[a].0@ == src[a].0@);
                assert(dst[b].0@ == src[b].0@);
            }
        }
        lemma_pairs_map(src);
        lemma_pairs_map(dst);
        let target = sm@.map_values(|e: SessionEntry| persisted(e, now));
        assert forall|k: Seq<char>| pairs_map(dst).dom().contains(k) <==> target.dom().contains(k) by {
            if has_key(dst, k) {
                let j = choose|j: int| 0 <= j < dst.len() && #[trigger] dst[j].0@ == k;
                assert(src[j].0@ == k);
            }
            if has_key(src, k) {
                let j = choose|j: int| 0 <= j < src.len() && #[trigger] src[j].0@ == k;
                assert(dst[j].0@ == k);
            }
        }
        assert forall|k: Seq<char>| #[trigger] pairs_map(dst).contains_key(k) implies pairs_map(dst)[k] == target[k] by {
            let j = choose|j: int| 0 <= j < dst.len() && #[trigger] dst[j].0@ == k;
            assert(src[j].0@ == k);
            assert(pairs_map(dst)[dst[j].0@] == dst[j].1);
            assert(pairs_map(src)[src[j].0@] == src[j].1);
        }
        assert(pairs_map(dst) =~= target);
    }
    StrMap::from_pairs(out)
}

/// Restores written sessions at `now`; a session whose creation or last use
/// lies after `now` is passed over. Returns how many were restored.
pub fn restore_sessions_at(sm: &mut SessionManager, entries: &Vec<(String, PersistentSessionEntry)>, now: u64) -> (restored: usize)
    requires
        old(sm).wf(),
    ensures
        final(sm).wf(),
        final(sm).same_limits(old(sm)),
        final(sm)@ == restore_all(old(sm)@, entries@, now),
        restored == restorable_count(entries@, now),
{
    let mut restored: usize = 0;
    let mut i: usize = 0;
    while i < entries.len()
        invariant
            sm.wf(),
            sm.same_limits(old(sm)),
            i <= entries@.len(),
            restored == restorable_count(entries@.take(i as int), now),
            restorable_count(entries@.take(i as int), now) <= i,
            sm@ == restore_all(old(sm)@, entries@.take(i as int), now),
        decreases entries@.len() - i,
    {
        let (token, p) = &entries[i];
        proof {
            let t = entries@.take(i + 1);
            assert(t.drop_last() =~= entries@.take(i as int));
            assert(t.last() == entries@[i as int]);
        }
        if p.created_at <= now && p.last_active <= now {
            sm.add_session_at(
                token.clone(),
                copy_session(&p.session),
                now - p.created_at,
                now - p.last_active,
                p.csrf_token.clone(),
                now,
            );
            restored = restored + 1;
        }
        i = i + 1;
    }
    assert(entries@.take(entries@.len() as int) =~= entries@);
    restored
}

/// How many of the written `entries` are dated no later than `now`, and so
/// are restored at `now`.
pub open spec fn restorable_count(entries: Seq<(String, PersistentSessionEntry)>, now: u64) -> nat
    decreases entries.len(),
{
    if entries.len() == 0 {
        0
    } else {
        let p = entries.last().1;
        restorable_count(entries.drop_last(), now) + (if p.created_at <= now && p.last_active <= now {
            1nat
        } else {
            0nat
        })
    }
}

/// The sessions of `m` after restoring the written `entries` at `now`, in
/// order; an entry dated after `now` is passed over.
pub open spec fn restore_all(m: Map<Seq<char>, SessionEntry>, entries: Seq<(String, PersistentSessionEntry)>, now: u64) -> Map<
    Seq<char>,
    SessionEntry,
>
    decreases entries.len(),
{
    if entries.len() == 0 {
        m
    } else {
        let prev = restore_all(m, entries.drop_last(), now);
        let (token, p) = entries.last();
        if p.created_at <= now && p.last_active <= now {
            prev.insert(
                token@,
                restored_entry(
                    p.session,
                    p.csrf_token,
                    (now - p.created_at) as u64,
                    (now - p.last_active) as u64,
                    now,
                ),
            )
        } else {
            prev
        }
    }
}

/// A session written at `saved` and restored at a later `now` keeps its
/// data, CSRF token, creation time and last use, as long as the clock had not
/// gone back before the save.
pub proof fn lemma_persist_restore(e: SessionEntry, saved: u64, now: u64)
    requires
        e.created_at <= saved,
        e.last_active <= saved,
        saved <= now,
    ensures
        ({
            let p = persisted(e, saved);
            let r = restored_entry(p.session, p.csrf_token, (now - p.created_at) as u64, (now - p.last_active) as u64, now);
            &&& p.created_at <= now && p.last_active <= now
            &&& r.session == e.session
            &&& r.csrf_token == e.csrf_token
            &&& r.created_at == e.created_at
            &&& r.last_active == e.last_active
        }),
{
}

/// A written session restored at `now` (when it is dated no later).
pub open spec fn restore_one(p: PersistentSessionEntry, now: u64) -> SessionEntry {
    restored_entry(p.session, p.csrf_token, (now - p.created_at) as u64, (now - p.last_active) as u64, now)
}

/// Restoring into no sessions entries all dated no later than `now` gives
/// each written token its restored session.
proof fn lemma_restore_fresh(entries: Seq<(String, PersistentSessionEntry)>, now: u64)
    requires
        forall|j: int| 0 <= j < entries.len() ==> (#[trigger] entries[j]).1.created_at <= now
            && entries[j].1.last_active <= now,
    ensures
        restore_all(Map::empty(), entries, now) =~= pairs_map(entries).map_values(
            |p: PersistentSessionEntry| restore_one(p, now),
        ),
    decreases entries.len(),
{
    if entries.len() > 0 {
        let d = entries.drop_last();
        assert forall|j: int| 0 <= j < d.len() implies (#[trigger] d[j]).1.created_at <= now
            && d[j].1.last_active <= now by {
            assert(d[j] == entries[j]);
        }
        lemma_restore_fresh(d, now);
        assert(entries.last() == entries[entries.len() - 1]);
    }
}

/// Saving and loading sessions brings them back: the sessions of `m`
/// written at `saved` (as `sessions_to_persist_at` writes them, each token
/// once) and restored into an empty manager at a later `now` are exactly the
/// tokens of `m`, each with its session, CSRF token, creation time and last
/// use, as long as the clock had not gone back before the save.
pub proof fn lemma_save_load(
    m: Map<Seq<char>, SessionEntry>,
    entries: Seq<(String, PersistentSessionEntry)>,
    saved: u64,
    now: u64,
)
    requires
        distinct_keys(entries),
        pairs_map(entries) == m.map_values(|e: SessionEntry| persisted(e, saved)),
        forall|k: Seq<char>| #[trigger] m.contains_key(k) ==> m[k].created_at <= saved && m[k].last_active <= saved,
        saved <= now,
    ensures
        ({
            let r = restore_all(Map::empty(), entries, now);
            &&& r.dom() == m.dom()
            &&& forall|k: Seq<char>|
                #[trigger] m.contains_key(k) ==> r[k].session == m[k].session && r[k].csrf_token == m[k].csrf_token
                    && r[k].created_at == m[k].created_at && r[k].last_active == m[k].last_active
        }),
{
    lemma_pairs_map(entries);
    assert forall|j: int| 0 <= j < entries.len() implies (#[trigger] entries[j]).1.created_at <= now
        && entries[j].1.last_active <= now by {
        let k = entries[j].0@;
        assert(pairs_map(entries)[k] == entries[j].1);
        assert(pairs_map(entries).dom().contains(k));
        assert(m.contains_key(k));
        lemma_persist_restore(m[k], saved, now);
    }
    lemma_restore_fresh(entries, now);
    let r = restore_all(Map::empty(), entries, now);
    assert(r.dom() =~= m.dom());
    assert forall|k: Seq<char>| #[trigger] m.contains_key(k) implies r[k].session == m[k].session && r[k].csrf_token
        == m[k].csrf_token && r[k].created_at == m[k].created_at && r[k].last_active == m[k].last_active by {
        lemma_persist_restore(m[k], saved, now);
        assert(pairs_map(entries).contains_key(k));
    }
}

} // verus!

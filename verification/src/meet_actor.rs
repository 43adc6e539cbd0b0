//! The state machine of one live meet: the log of updates with their server
//! sequence numbers, the current value of each key, the sequence numbers that
//! each client is expected to send next, and the rules that decide when the
//! server asks its clients to help it recover its state.
//!
//! Persisting the new records and relaying them to the meet's clients is the
//! caller's work; the records that an operation appended are the ones past
//! the length that the log had before it.
use crate::error::AppError;
use crate::json::{json_reading, parse_json};
use crate::messages::Update as MessageUpdate;
use crate::protocol::{copy_record, copy_update, RecordView, Update, UpdateView, UpdateWithServerSeq};
use crate::table::{distinct_keys, has_key, lemma_pairs_map, pairs_map, StrMap};
use vstd::prelude::*;

verus! {

/// Inactivity, in milliseconds, after which the server asks for recovery.
pub const INACTIVITY_LIMIT_MS: u64 = 300_000;

/// The contents of a sequence of recorded updates.
pub open spec fn log_view(s: Seq<UpdateWithServerSeq>) -> Seq<RecordView> {
    s.map_values(|r: UpdateWithServerSeq| r@)
}

/// The contents of a sequence of updates.
pub open spec fn updates_view(s: Seq<Update>) -> Seq<UpdateView> {
    s.map_values(|u: Update| u@)
}

/// The last record of each key in `log`.
pub open spec fn latest_by_key(log: Seq<RecordView>) -> Map<Seq<char>, RecordView>
    decreases log.len(),
{
    if log.len() == 0 {
        Map::empty()
    } else {
        latest_by_key(log.drop_last()).insert(log.last().update.update_key, log.last())
    }
}

/// The current value of each key: the value of its last record in `log`.
pub open spec fn state_of(log: Seq<RecordView>) -> Map<Seq<char>, Seq<char>> {
    latest_by_key(log).map_values(|r: RecordView| r.update.update_value)
}

/// The records of `log` are numbered 1, 2, 3, ... in order.
pub open spec fn numbered(log: Seq<RecordView>) -> bool {
    forall|i: int| 0 <= i < log.len() ==> (#[trigger] log[i]).server_seq_num == i + 1
}

/// The sequence number that `client` is expected to send next (0: none expected).
pub open spec fn expected_of(expected: Map<Seq<char>, u64>, client: Seq<char>) -> u64 {
    if expected.contains_key(client) {
        expected[client]
    } else {
        0
    }
}

/// Some update of the batch skips over the number after its predecessor's.
pub open spec fn gap_in_batch(us: Seq<UpdateView>) -> bool {
    exists|i: int| 1 <= i < us.len() && #[trigger] us[i].local_seq_num > us[i - 1].local_seq_num + 1
}

/// A batch shows a gap: it starts past the expected number, or skips a
/// number inside it. An empty batch shows none.
pub open spec fn gap_detected(expected: u64, us: Seq<UpdateView>) -> bool {
    us.len() > 0 && ((expected > 0 && us[0].local_seq_num > expected) || gap_in_batch(us))
}

/// The number after `n`, wrapping to zero past the largest `u64`.
pub open spec fn next_seq(n: u64) -> u64 {
    if n == u64::MAX {
        0
    } else {
        (n + 1) as u64
    }
}

/// The expected numbers after a batch without gaps from `client`: one past
/// the batch's last number (no change for an empty batch).
pub open spec fn expect_after(expected: Map<Seq<char>, u64>, client: Seq<char>, us: Seq<UpdateView>) -> Map<
    Seq<char>,
    u64,
> {
    if us.len() == 0 {
        expected
    } else {
        expected.insert(client, next_seq(us.last().local_seq_num))
    }
}

/// The records that a batch from `client` becomes, numbered from `start + 1`.
pub open spec fn batch_records(start: nat, client: Seq<char>, priority: u8, us: Seq<UpdateView>) -> Seq<
    RecordView,
> {
    Seq::new(
        us.len(),
        |i: int|
            RecordView {
                update: us[i],
                server_seq_num: (start + i + 1) as u64,
                source_client_id: client,
                source_client_priority: priority,
            },
    )
}

/// The acknowledgements of a batch numbered from `start + 1`: for each
/// update, its local sequence number and the server sequence number it got.
pub open spec fn batch_acks(start: nat, us: Seq<UpdateView>) -> Seq<(u64, u64)> {
    Seq::new(us.len(), |i: int| (us[i].local_seq_num, (start + i + 1) as u64))
}

/// The records of `log` numbered past `since`, in order.
pub open spec fn entries_after(log: Seq<RecordView>, since: u64) -> Seq<RecordView>
    decreases log.len(),
{
    if log.len() == 0 {
        Seq::empty()
    } else if log.last().server_seq_num > since {
        entries_after(log.drop_last(), since).push(log.last())
    } else {
        entries_after(log.drop_last(), since)
    }
}

/// The records of a map, by their contents.
pub open spec fn records_view(m: Map<Seq<char>, UpdateWithServerSeq>) -> Map<Seq<char>, RecordView> {
    m.map_values(|r: UpdateWithServerSeq| r@)
}

/// The texts of a map, as character sequences.
pub open spec fn texts_view(m: Map<Seq<char>, String>) -> Map<Seq<char>, Seq<char>> {
    m.map_values(|s: String| s@)
}

/// Appending a record makes it the last of its key.
pub proof fn lemma_latest_push(log: Seq<RecordView>, r: RecordView)
    ensures
        latest_by_key(log.push(r)) == latest_by_key(log).insert(r.update.update_key, r),
        state_of(log.push(r)) == state_of(log).insert(r.update.update_key, r.update.update_value),
{
    assert(log.push(r).drop_last() == log);
    assert(state_of(log.push(r)) =~= state_of(log).insert(r.update.update_key, r.update.update_value));
}

/// On a log numbered 1, 2, 3, ..., the records past `since` are exactly the
/// log from position `since` on: a pull returns every update the client has
/// not seen and nothing else, in log order.
pub proof fn lemma_entries_after_suffix(log: Seq<RecordView>, since: u64)
    requires
        numbered(log),
    ensures
        entries_after(log, since) == log.subrange(if since < log.len() { since as int } else { log.len() as int }, log.len() as int),
    decreases log.len(),
{
    if log.len() > 0 {
        let p = log.drop_last();
        assert(numbered(p)) by {
            assert forall|i: int| 0 <= i < p.len() implies (#[trigger] p[i]).server_seq_num == i + 1 by {
                assert(p[i] == log[i]);
            }
        }
        lemma_entries_after_suffix(p, since);
        assert(log.last() == log[log.len() - 1]);
        if since < log.len() {
            assert(log.subrange(since as int, log.len() as int) =~= p.subrange(since as int, p.len() as int).push(log.last()));
        } else {
            assert(log.subrange(log.len() as int, log.len() as int) =~= Seq::<RecordView>::empty());
        }
    }
}

/// `u` placed after every update of `s`, from the end, whose timestamp is
/// not later than its own: on a timestamp-sorted `s`, the place that keeps it
/// sorted and keeps equal timestamps in arrival order.
pub open spec fn insert_by_timestamp(s: Seq<MessageUpdate>, u: MessageUpdate) -> Seq<MessageUpdate>
    decreases s.len(),
{
    if s.len() == 0 {
        seq![u]
    } else if s.last().timestamp > u.timestamp {
        insert_by_timestamp(s.drop_last(), u).push(s.last())
    } else {
        s.push(u)
    }
}

/// `us` stably sorted by timestamp.
pub open spec fn sort_by_timestamp(us: Seq<MessageUpdate>) -> Seq<MessageUpdate>
    decreases us.len(),
{
    if us.len() == 0 {
        Seq::empty()
    } else {
        insert_by_timestamp(sort_by_timestamp(us.drop_last()), us.last())
    }
}

/// Inserting at position `p`, past which every timestamp is later than
/// `u`'s and before which the last is not, is `insert_by_timestamp`.
proof fn lemma_insert_at(s: Seq<MessageUpdate>, u: MessageUpdate, p: int)
    requires
        0 <= p <= s.len(),
        forall|j: int| p <= j < s.len() ==> (#[trigger] s[j]).timestamp > u.timestamp,
        p == 0 || s[p - 1].timestamp <= u.timestamp,
    ensures
        insert_by_timestamp(s, u) == s.insert(p, u),
    decreases s.len(),
{
    if s.len() == 0 {
        assert(s.insert(p, u) =~= seq![u]);
    } else if p < s.len() {
        let d = s.drop_last();
        assert(s.last() == s[s.len() - 1]);
        assert forall|j: int| p <= j < d.len() implies (#[trigger] d[j]).timestamp > u.timestamp by {
            assert(d[j] == s[j]);
        }
        if p > 0 {
            assert(d[p - 1] == s[p - 1]);
        }
        lemma_insert_at(d, u, p);
        assert(d.insert(p, u).push(s.last()) =~= s.insert(p, u));
    } else {
        assert(s.last() == s[p - 1]);
        assert(s.push(u) =~= s.insert(p, u));
    }
}

/// Sorting keeps the number of updates.
pub proof fn lemma_sort_len(us: Seq<MessageUpdate>)
    ensures
        sort_by_timestamp(us).len() == us.len(),
    decreases us.len(),
{
    if us.len() > 0 {
        lemma_sort_len(us.drop_last());
        lemma_insert_len(sort_by_timestamp(us.drop_last()), us.last());
    }
}

/// No update of `s` has a later timestamp than one after it.
pub open spec fn timestamp_sorted(s: Seq<MessageUpdate>) -> bool {
    forall|i: int, j: int| 0 <= i < j < s.len() ==> #[trigger] s[i].timestamp <= #[trigger] s[j].timestamp
}

/// Inserting into a timestamp-sorted sequence keeps it sorted and adds
/// exactly `u`.
proof fn lemma_insert_sorted(s: Seq<MessageUpdate>, u: MessageUpdate)
    requires
        timestamp_sorted(s),
    ensures
        timestamp_sorted(insert_by_timestamp(s, u)),
        insert_by_timestamp(s, u).to_multiset() =~= s.to_multiset().insert(u),
    decreases s.len(),
{
    broadcast use vstd::seq_lib::group_to_multiset_ensures;

    if s.len() == 0 {
        assert(seq![u] =~= Seq::<MessageUpdate>::empty().push(u));
        assert(Seq::<MessageUpdate>::empty().to_multiset() =~= vstd::multiset::Multiset::empty());
    } else {
        let d = s.drop_last();
        let l = s.last();
        assert(s =~= d.push(l));
        if l.timestamp > u.timestamp {
            assert forall|i: int, j: int| 0 <= i < j < d.len() implies #[trigger] d[i].timestamp
                <= #[trigger] d[j].timestamp by {
                assert(d[i] == s[i] && d[j] == s[j]);
            }
            lemma_insert_sorted(d, u);
            let r = insert_by_timestamp(d, u);
            assert forall|k: int| 0 <= k < r.len() implies #[trigger] r[k].timestamp <= l.timestamp by {
                assert(r.contains(r[k]));
                assert(r.to_multiset().count(r[k]) > 0);
                if r[k] != u {
                    assert(d.to_multiset().count(r[k]) > 0);
                    assert(d.contains(r[k]));
                    let j = choose|j: int| 0 <= j < d.len() && d[j] == r[k];
                    assert(s[j] == d[j]);
                    assert(s[s.len() - 1] == l);
                }
            }
            assert forall|i: int, j: int| 0 <= i < j < r.push(l).len() implies #[trigger] r.push(l)[i].timestamp
                <= #[trigger] r.push(l)[j].timestamp by {
                if j == r.len() {
                    assert(r.push(l)[i] == r[i]);
                } else {
                    assert(r.push(l)[i] == r[i] && r.push(l)[j] == r[j]);
                }
            }
        } else {
            assert forall|i: int, j: int| 0 <= i < j < s.push(u).len() implies #[trigger] s.push(u)[i].timestamp
                <= #[trigger] s.push(u)[j].timestamp by {
                if j == s.len() {
                    assert(s.push(u)[i] == s[i]);
                    assert(s[s.len() - 1] == l);
                } else {
                    assert(s.push(u)[i] == s[i] && s.push(u)[j] == s[j]);
                }
            }
        }
    }
}

/// Sorting for recovery puts the updates in timestamp order and keeps each
/// of them, as many times as it came.
pub proof fn lemma_sort_orders_and_keeps(us: Seq<MessageUpdate>)
    ensures
        timestamp_sorted(sort_by_timestamp(us)),
        sort_by_timestamp(us).to_multiset() =~= us.to_multiset(),
    decreases us.len(),
{
    broadcast use vstd::seq_lib::group_to_multiset_ensures;

    if us.len() == 0 {
        assert(sort_by_timestamp(us) =~= us);
    } else {
        lemma_sort_orders_and_keeps(us.drop_last());
        lemma_insert_sorted(sort_by_timestamp(us.drop_last()), us.last());
        assert(us =~= us.drop_last().push(us.last()));
    }
}

proof fn lemma_insert_len(s: Seq<MessageUpdate>, u: MessageUpdate)
    ensures
        insert_by_timestamp(s, u).len() == s.len() + 1,
    decreases s.len(),
{
    if s.len() > 0 && s.last().timestamp > u.timestamp {
        lemma_insert_len(s.drop_last(), u);
    }
}

/// The value a recovered update carries: its text read as JSON and written
/// back compactly, or `null` when it is not JSON.
pub open spec fn recovered_value(v: Seq<char>) -> Seq<char> {
    match json_reading(v) {
        Ok(t) => t,
        Err(_) => "null"@,
    }
}

/// The record that recovery makes of `u` from `client` under number `seq`;
/// the timestamp stands in for the client's sequence number.
pub open spec fn recovered_record(u: MessageUpdate, seq: nat, client: Seq<char>, priority: u8) -> RecordView {
    RecordView {
        update: UpdateView {
            update_key: u.location@,
            update_value: recovered_value(u.value@),
            local_seq_num: u.timestamp as u64,
            after_server_seq_num: 0,
        },
        server_seq_num: seq as u64,
        source_client_id: client,
        source_client_priority: priority,
    }
}

/// Recovery passes over `u`: its key was known before recovery began and the
/// key's current record has at least `priority`.
pub open spec fn recovery_skips(log: Seq<RecordView>, initial: Set<Seq<char>>, u: MessageUpdate, priority: u8) -> bool {
    let k = u.location@;
    initial.contains(k) && latest_by_key(log).contains_key(k) && priority <= latest_by_key(log)[k].source_client_priority
}

/// The log after recovering the (sorted) updates `us` from `client`, where
/// `initial` holds the keys known before recovery began.
pub open spec fn recovery_log(
    log: Seq<RecordView>,
    initial: Set<Seq<char>>,
    client: Seq<char>,
    priority: u8,
    us: Seq<MessageUpdate>,
) -> Seq<RecordView>
    decreases us.len(),
{
    if us.len() == 0 {
        log
    } else {
        let prev = recovery_log(log, initial, client, priority, us.drop_last());
        if recovery_skips(prev, initial, us.last(), priority) {
            prev
        } else {
            prev.push(recovered_record(us.last(), (prev.len() + 1) as nat, client, priority))
        }
    }
}

/// A copy of a client update.
fn copy_message_update(u: &MessageUpdate) -> (r: MessageUpdate)
    ensures
        r == *u,
{
    MessageUpdate { location: u.location.clone(), value: u.value.clone(), timestamp: u.timestamp }
}

/// The updates stably sorted by timestamp.
fn sorted_by_timestamp(updates: &Vec<MessageUpdate>) -> (r: Vec<MessageUpdate>)
    ensures
        r@ == sort_by_timestamp(updates@),
{
    let mut out: Vec<MessageUpdate> = Vec::new();
    let mut i: usize = 0;
    while i < updates.len()
        invariant
            i <= updates@.len(),
            out@ == sort_by_timestamp(updates@.take(i as int)),
        decreases updates@.len() - i,
    {
        let u = copy_message_update(&updates[i]);
        let mut p: usize = out.len();
        while p > 0 && out[p - 1].timestamp > u.timestamp
            invariant
                p <= out@.len(),
                forall|j: int| p <= j < out@.len() ==> (#[trigger] out@[j]).timestamp > u.timestamp,
            decreases p,
        {
            p = p - 1;
        }
        proof {
            lemma_insert_at(out@, u, p as int);
            let t = updates@.take(i + 1);
            assert(t.drop_last() =~= updates@.take(i as int));
            assert(t.last() == u);
        }
        out.insert(p, u);
        i = i + 1;
    }
    assert(updates@.take(updates@.len() as int) =~= updates@);
    out
}

/// Whether some text of `v` is `k`.
fn contains_text(v: &Vec<String>, k: &str) -> (r: bool)
    ensures
        r == exists|j: int| 0 <= j < v@.len() && #[trigger] v@[j]@ == k@,
{
    let mut i: usize = 0;
    while i < v.len()
        invariant
            i <= v@.len(),
            forall|j: int| 0 <= j < i ==> #[trigger] v@[j]@ != k@,
        decreases v@.len() - i,
    {
        if crate::text::str_eq(v[i].as_str(), k) {
            return true;
        }
        i = i + 1;
    }
    false
}

/// After a batch is recorded, a pull from the number that was last before it
/// returns exactly the batch's records, in order.
pub proof fn lemma_pull_returns_batch(log: Seq<RecordView>, batch: Seq<RecordView>)
    requires
        numbered(log + batch),
    ensures
        log.len() <= u64::MAX ==> entries_after(log + batch, log.len() as u64) == batch,
{
    let all = log + batch;
    if log.len() <= u64::MAX {
        lemma_entries_after_suffix(all, log.len() as u64);
        if (log.len() as u64) < all.len() {
            assert(all.subrange(log.len() as int, all.len() as int) =~= batch);
        } else {
            assert(batch.len() == 0);
            assert(all.subrange(all.len() as int, all.len() as int) =~= batch);
        }
    }
}

/// A batch that continues exactly where the client left off (or comes from a
/// client with no expectation) and counts up one by one shows no gap.
pub proof fn lemma_consecutive_batch_has_no_gap(expected: u64, us: Seq<UpdateView>)
    requires
        us.len() > 0 ==> (expected == 0 || us[0].local_seq_num == expected),
        forall|i: int| 1 <= i < us.len() ==> #[trigger] us[i].local_seq_num == us[i - 1].local_seq_num + 1,
    ensures
        !gap_detected(expected, us),
{
}

/// Recovery only appends: the log before it is a prefix of the log after it.
pub proof fn lemma_recovery_appends(
    log: Seq<RecordView>,
    initial: Set<Seq<char>>,
    client: Seq<char>,
    priority: u8,
    us: Seq<MessageUpdate>,
)
    ensures
        recovery_log(log, initial, client, priority, us).len() >= log.len(),
        recovery_log(log, initial, client, priority, us).take(log.len() as int) == log,
    decreases us.len(),
{
    if us.len() > 0 {
        lemma_recovery_appends(log, initial, client, priority, us.drop_last());
        let prev = recovery_log(log, initial, client, priority, us.drop_last());
        if !recovery_skips(prev, initial, us.last(), priority) {
            let r = recovered_record(us.last(), (prev.len() + 1) as nat, client, priority);
            assert(prev.push(r).take(log.len() as int) =~= prev.take(log.len() as int));
        }
    }
}

/// Recovery records every update whose key the log had no record of when
/// recovery began: with only such updates, each is recorded, in order,
/// under the numbers that follow the log.
pub proof fn lemma_recovery_records_new_keys(
    log: Seq<RecordView>,
    client: Seq<char>,
    priority: u8,
    us: Seq<MessageUpdate>,
)
    requires
        forall|i: int| 0 <= i < us.len() ==> !latest_by_key(log).contains_key(#[trigger] us[i].location@),
    ensures
        recovery_log(log, latest_by_key(log).dom(), client, priority, us) == log + Seq::new(
            us.len(),
            |i: int| recovered_record(us[i], (log.len() + i + 1) as nat, client, priority),
        ),
    decreases us.len(),
{
    let target = log + Seq::new(
        us.len(),
        |i: int| recovered_record(us[i], (log.len() + i + 1) as nat, client, priority),
    );
    if us.len() == 0 {
        assert(target =~= log);
    } else {
        let d = us.drop_last();
        assert forall|i: int| 0 <= i < d.len() implies !latest_by_key(log).contains_key(#[trigger] d[i].location@) by {
            assert(d[i] == us[i]);
        }
        lemma_recovery_records_new_keys(log, client, priority, d);
        let prev = recovery_log(log, latest_by_key(log).dom(), client, priority, d);
        assert(us.last() == us[us.len() - 1]);
        assert(!recovery_skips(prev, latest_by_key(log).dom(), us.last(), priority));
        let r = recovered_record(us.last(), (prev.len() + 1) as nat, client, priority);
        assert(prev.push(r) =~= target);
    }
}

/// Recovering, into a meet with no record of key `k`, updates that all
/// carry `k` records every one of them, and `k` then holds the value of an
/// update with the latest timestamp. (`b` and `r` are the meet and the
/// answer after `handle_state_recovery`, as its contract gives them.)
pub proof fn lemma_recovery_of_a_new_key(
    a: MeetActor,
    b: MeetActor,
    client: Seq<char>,
    priority: u8,
    updates: Seq<MessageUpdate>,
    k: Seq<char>,
    r: (u64, usize),
)
    requires
        b.wf(),
        b.log() == recovery_log(a.log(), latest_by_key(a.log()).dom(), client, priority, sort_by_timestamp(updates)),
        r.1 == b.log().len() - a.log().len(),
        !latest_by_key(a.log()).contains_key(k),
        updates.len() > 0,
        forall|i: int| 0 <= i < updates.len() ==> #[trigger] updates[i].location@ == k,
    ensures
        r.1 == updates.len(),
        b.log().len() == a.log().len() + updates.len(),
        b.current_state().contains_key(k),
        exists|j: int|
            0 <= j < updates.len() && (forall|i: int| 0 <= i < updates.len() ==> #[trigger] updates[i].timestamp
                <= updates[j].timestamp) && b.current_state()[k] == recovered_value(updates[j].value@),
{
    broadcast use vstd::seq_lib::group_to_multiset_ensures;

    let s = sort_by_timestamp(updates);
    lemma_sort_orders_and_keeps(updates);
    lemma_sort_len(updates);
    assert forall|i: int| 0 <= i < s.len() implies updates.contains(#[trigger] s[i]) by {
        assert(s.contains(s[i]));
        assert(s.to_multiset().count(s[i]) > 0);
    }
    assert forall|i: int| 0 <= i < s.len() implies !latest_by_key(a.log()).contains_key(#[trigger] s[i].location@) by {
        assert(updates.contains(s[i]));
        let j = choose|j: int| 0 <= j < updates.len() && updates[j] == s[i];
        assert(updates[j].location@ == k);
    }
    lemma_recovery_records_new_keys(a.log(), client, priority, s);
    let n = s.len() - 1;
    let last = recovered_record(s[n], (a.log().len() + n + 1) as nat, client, priority);
    assert(b.log() =~= b.log().drop_last().push(last));
    lemma_latest_push(b.log().drop_last(), last);
    b.lemma_state_is_replay();
    assert(updates.contains(s[n]));
    let j = choose|j: int| 0 <= j < updates.len() && updates[j] == s[n];
    assert(s[n].location@ == k) by {
        assert(updates[j].location@ == k);
    }
    assert forall|i: int| 0 <= i < updates.len() implies #[trigger] updates[i].timestamp <= updates[j].timestamp by {
        assert(updates.contains(updates[i]));
        assert(updates.to_multiset().count(updates[i]) > 0);
        assert(s.contains(updates[i]));
        let m = choose|m: int| 0 <= m < s.len() && s[m] == updates[i];
        if m < n {
            assert(s[m].timestamp <= s[n].timestamp);
        }
    }
}

/// What taking the batch `us` from `client` at `now` makes of meet `a`: `b`,
/// with answer `r`. A gap in the batch, or one seen before and not yet
/// reported, is answered with `NeedsRecovery` and records nothing; otherwise
/// the batch is recorded under the next numbers and acknowledged with them.
pub open spec fn update_outcome(
    a: MeetActor,
    b: MeetActor,
    client: Seq<char>,
    priority: u8,
    us: Seq<UpdateView>,
    now: u64,
    r: Result<Vec<(u64, u64)>, AppError>,
) -> bool {
    let gap = gap_detected(expected_of(a.expected(), client), us);
    &&& b.wf()
    &&& b.meet_id_view() == a.meet_id_view()
    &&& b.last_update_time_view() == now
    &&& (r is Err <==> (gap || a.needs_check()))
    &&& b.needs_check() == gap
    &&& b.expected() == (if gap {
        a.expected()
    } else {
        expect_after(a.expected(), client, us)
    })
    &&& (r is Err ==> b.log() == a.log() && (r->Err_0 matches AppError::NeedsRecovery { meet_id, last_known_seq }
        && meet_id@ == a.meet_id_view() && last_known_seq == a.seq()))
    &&& (r matches Ok(acks) ==> acks@ == batch_acks(a.log().len(), us) && b.log() == a.log() + batch_records(
        a.log().len(),
        client,
        priority,
        us,
    ))
}

/// Two batches in a row from one client: when the first is taken (`r1` is
/// `Ok`) and the second starts at the number right after the first batch's
/// last number and counts up one by one, the second is taken as well, its
/// updates acknowledged with their local numbers and the server numbers
/// that follow the first batch's, and recorded after it.
pub proof fn lemma_next_batch_taken(
    a: MeetActor,
    b: MeetActor,
    c: MeetActor,
    client: Seq<char>,
    p1: u8,
    p2: u8,
    us: Seq<UpdateView>,
    vs: Seq<UpdateView>,
    now1: u64,
    now2: u64,
    r1: Result<Vec<(u64, u64)>, AppError>,
    r2: Result<Vec<(u64, u64)>, AppError>,
)
    requires
        a.wf(),
        update_outcome(a, b, client, p1, us, now1, r1),
        update_outcome(b, c, client, p2, vs, now2, r2),
        r1 is Ok,
        us.len() > 0,
        vs.len() > 0,
        us.last().local_seq_num < u64::MAX,
        vs[0].local_seq_num == us.last().local_seq_num + 1,
        forall|i: int| 1 <= i < vs.len() ==> #[trigger] vs[i].local_seq_num == vs[i - 1].local_seq_num + 1,
    ensures
        r2 matches Ok(acks) && acks@.len() == vs.len() && forall|i: int|
            0 <= i < vs.len() ==> #[trigger] acks@[i] == (vs[i].local_seq_num, (a.log().len() + us.len() + i + 1) as u64),
        c.log().len() == a.log().len() + us.len() + vs.len(),
{
    assert(!gap_in_batch(vs));
    assert(b.log().len() == a.log().len() + us.len());
    let acks = r2->Ok_0;
    assert forall|i: int| 0 <= i < vs.len() implies #[trigger] acks@[i] == (
        vs[i].local_seq_num,
        (a.log().len() + us.len() + i + 1) as u64,
    ) by {
        assert(acks@ == batch_acks(b.log().len(), vs));
    }
}

/// What asking at `now` whether a meet needs recovery answers (`r`) and
/// does to its inactivity clock: it does when a gap was seen, or when it has
/// been inactive longer than the limit; the clock restarts at `now` when
/// inactivity was the reason.
pub open spec fn recovery_check(a: MeetActor, b: MeetActor, now: u64, r: bool) -> bool {
    &&& r == (a.needs_check() || (now >= a.last_update_time_view() && now - a.last_update_time_view()
        > INACTIVITY_LIMIT_MS))
    &&& b.last_update_time_view() == (if !a.needs_check() && r {
        now
    } else {
        a.last_update_time_view()
    })
}

/// One live meet.
pub struct MeetActor {
    meet_id: String,
    state: StrMap<String>,
    updates: Vec<UpdateWithServerSeq>,
    server_seq: u64,
    updates_by_key: StrMap<UpdateWithServerSeq>,
    expected_client_seq: StrMap<u64>,
    last_update_time: u64,
    need_consistency_check: bool,
}

impl MeetActor {
    /// The meet's identifier.
    pub closed spec fn meet_id_view(&self) -> Seq<char> {
        self.meet_id@
    }

    /// The log of recorded updates, in order.
    pub closed spec fn log(&self) -> Seq<RecordView> {
        log_view(self.updates@)
    }

    /// The number of the last recorded update (0 when there is none).
    pub closed spec fn seq(&self) -> u64 {
        self.server_seq
    }

    /// The number that each client is expected to send next.
    pub closed spec fn expected(&self) -> Map<Seq<char>, u64> {
        self.expected_client_seq.map()
    }

    /// When the last batch of updates arrived (or inactivity was last noticed).
    pub closed spec fn last_update_time_view(&self) -> u64 {
        self.last_update_time
    }

    /// A gap was seen and the next check asks for recovery.
    pub closed spec fn needs_check(&self) -> bool {
        self.need_consistency_check
    }

    /// The current value of each key.
    pub closed spec fn current_state(&self) -> Map<Seq<char>, Seq<char>> {
        texts_view(self.state.map())
    }

    /// The tables agree with the log: the log is numbered 1, 2, 3, ...,
    /// its length is the last number, and each key's record and value are
    /// those of the key's last record in the log.
    pub closed spec fn wf(&self) -> bool {
        &&& self.state.wf()
        &&& self.updates_by_key.wf()
        &&& self.expected_client_seq.wf()
        &&& self.server_seq == self.updates@.len()
        &&& numbered(self.log())
        &&& records_view(self.updates_by_key.map()) == latest_by_key(self.log())
        &&& texts_view(self.state.map()) == state_of(self.log())
    }

    /// The state is the log replayed: every key holds the value of its last record.
    pub proof fn lemma_state_is_replay(&self)
        requires
            self.wf(),
        ensures
            self.current_state() == state_of(self.log()),
            self.seq() == self.log().len(),
            numbered(self.log()),
    {
    }

    /// A meet with an empty log, created at `now`.
    pub fn new_at(meet_id: String, now: u64) -> (a: Self)
        ensures
            a.wf(),
            a.meet_id_view() == meet_id@,
            a.log() == Seq::<RecordView>::empty(),
            a.expected() == Map::<Seq<char>, u64>::empty(),
            a.last_update_time_view() == now,
            !a.needs_check(),
    {
        let a = MeetActor {
            meet_id,
            state: StrMap::new(),
            updates: Vec::new(),
            server_seq: 0,
            updates_by_key: StrMap::new(),
            expected_client_seq: StrMap::new(),
            last_update_time: now,
            need_consistency_check: false,
        };
        proof {
            assert(records_view(a.updates_by_key.map()) =~= latest_by_key(a.log()));
            assert(texts_view(a.state.map()) =~= state_of(a.log()));
        }
        a
    }

    /// A meet with an empty log, created at the current time.
    pub fn new(meet_id: String) -> (a: Self)
        ensures
            a.wf(),
            a.meet_id_view() == meet_id@,
            a.log() == Seq::<RecordView>::empty(),
            a.expected() == Map::<Seq<char>, u64>::empty(),
            !a.needs_check(),
    {
        MeetActor::new_at(meet_id, crate::clock::now_millis())
    }

    /// The meet's identifier.
    pub fn meet_id(&self) -> (r: &String)
        ensures
            r@ == self.meet_id_view(),
    {
        &self.meet_id
    }

    /// The number of the last recorded update.
    pub fn server_seq(&self) -> (r: u64)
        ensures
            r == self.seq(),
    {
        self.server_seq
    }

    /// The number of recorded updates.
    pub fn log_len(&self) -> (n: usize)
        requires
            self.wf(),
        ensures
            n == self.log().len(),
    {
        self.updates.len()
    }

    /// The recorded update at position `i` of the log.
    pub fn record_at(&self, i: usize) -> (r: &UpdateWithServerSeq)
        requires
            self.wf(),
            i < self.log().len(),
        ensures
            r@ == self.log()[i as int],
    {
        &self.updates[i]
    }

    /// Checks a batch from `client_id` for gaps in its sequence numbers. A gap
    /// sets the flag that asks for recovery at the next check; a batch without
    /// gaps records the number expected next from the client.
    pub fn detect_sequence_gaps(&mut self, client_id: &str, updates: &[Update]) -> (gap: bool)
        requires
            old(self).wf(),
        ensures
            final(self).wf(),
            final(self).log() == old(self).log(),
            final(self).seq() == old(self).seq(),
            final(self).meet_id_view() == old(self).meet_id_view(),
            final(self).last_update_time_view() == old(self).last_update_time_view(),
            gap == gap_detected(expected_of(old(self).expected(), client_id@), updates_view(updates@)),
            gap ==> final(self).needs_check() && final(self).expected() == old(self).expected(),
            !gap ==> final(self).needs_check() == old(self).needs_check() && final(self).expected()
                == expect_after(old(self).expected(), client_id@, updates_view(updates@)),
    {
        let ghost us = updates_view(updates@);
        if updates.len() == 0 {
            return false;
        }
        let expected: u64 = match self.expected_client_seq.get(client_id) {
            Some(e) => *e,
            None => 0,
        };
        let first = updates[0].local_seq_num;
        assert(us[0] == updates@[0]@);
        if expected > 0 && first > expected {
            self.need_consistency_check = true;
            return true;
        }
        let mut prev = first;
        let mut i: usize = 1;
        while i < updates.len()
            invariant
                1 <= i <= updates@.len(),
                *self == *old(self),
                old(self).wf(),
                us == updates_view(updates@),
                prev == updates@[i - 1].local_seq_num,
                forall|j: int| 1 <= j < i ==> !(#[trigger] us[j].local_seq_num > us[j - 1].local_seq_num + 1),
            decreases updates@.len() - i,
        {
            let cur = updates[i].local_seq_num;
            assert(us[i as int] == updates@[i as int]@ && us[i - 1] == updates@[i - 1]@);
            if cur > prev && cur - prev > 1 {
                assert(us[i as int].local_seq_num > us[i - 1].local_seq_num + 1);
                assert(gap_in_batch(us));
                self.need_consistency_check = true;
                return true;
            }
            prev = cur;
            i = i + 1;
        }
        assert(!gap_in_batch(us));
        let last = updates[updates.len() - 1].local_seq_num;
        assert(us.last() == updates@[updates@.len() - 1]@);
        let next: u64 = if last == u64::MAX {
            0
        } else {
            last + 1
        };
        self.expected_client_seq.insert(client_id.to_owned(), next);
        false
    }

    /// Whether the server should ask for recovery at `now`: a gap was seen
    /// since the last check (the flag is then cleared), or nothing has
    /// arrived for longer than `INACTIVITY_LIMIT_MS` (the quiet period then
    /// starts over at `now`).
    pub fn needs_state_recovery_at(&mut self, now: u64) -> (r: bool)
        requires
            old(self).wf(),
        ensures
            final(self).wf(),
            final(self).log() == old(self).log(),
            final(self).seq() == old(self).seq(),
            final(self).meet_id_view() == old(self).meet_id_view(),
            final(self).expected() == old(self).expected(),
            r == (old(self).needs_check() || (now >= old(self).last_update_time_view() && now
                - old(self).last_update_time_view() > INACTIVITY_LIMIT_MS)),
            !final(self).needs_check(),
            final(self).last_update_time_view() == (if !old(self).needs_check() && r {
                now
            } else {
                old(self).last_update_time_view()
            }),
    {
        if self.need_consistency_check {
            self.need_consistency_check = false;
            return true;
        }
        if now >= self.last_update_time && now - self.last_update_time > INACTIVITY_LIMIT_MS {
            self.last_update_time = now;
            return true;
        }
        false
    }

    /// Whether the server should ask for recovery at the current time.
    pub fn needs_state_recovery(&mut self) -> (r: bool)
        requires
            old(self).wf(),
        ensures
            final(self).wf(),
            final(self).log() == old(self).log(),
            final(self).seq() == old(self).seq(),
            final(self).meet_id_view() == old(self).meet_id_view(),
            final(self).expected() == old(self).expected(),
            !final(self).needs_check(),
            exists|now: u64| #[trigger] recovery_check(*old(self), *final(self), now, r),
    {
        let now = crate::clock::now_millis();
        let r = self.needs_state_recovery_at(now);
        assert(recovery_check(*old(self), *self, now, r));
        r
    }

    /// Takes a batch of updates from `client_id` at `now`. When the batch
    /// shows a gap, or a gap was seen before and not yet reported, nothing is
    /// recorded and the answer is `NeedsRecovery` with the last recorded
    /// number. Otherwise each update is recorded under the next sequence
    /// number and acknowledged with it.
    pub fn handle_update_at(&mut self, client_id: String, priority: u8, updates: Vec<Update>, now: u64) -> (r: Result<
        Vec<(u64, u64)>,
        AppError,
    >)
        requires
            old(self).wf(),
            old(self).seq() + updates@.len() <= u64::MAX,
        ensures
            update_outcome(*old(self), *final(self), client_id@, priority, updates_view(updates@), now, r),
    {
        let ghost us = updates_view(updates@);
        let ghost n0 = self.log().len();
        let ghost log0 = self.log();
        self.last_update_time = now;
        let gaps = self.detect_sequence_gaps(client_id.as_str(), updates.as_slice());
        let recovery = if gaps {
            true
        } else {
            self.needs_state_recovery_at(now)
        };
        if recovery {
            return Err(AppError::NeedsRecovery { meet_id: self.meet_id.clone(), last_known_seq: self.server_seq });
        }
        let mut acks: Vec<(u64, u64)> = Vec::new();
        let mut i: usize = 0;
        while i < updates.len()
            invariant
                self.wf(),
                us == updates_view(updates@),
                i <= updates@.len(),
                n0 == log0.len(),
                n0 + updates@.len() <= u64::MAX,
                self.seq() == n0 + i,
                self.log() == log0 + batch_records(n0, client_id@, priority, us).take(i as int),
                acks@ == batch_acks(n0, us).take(i as int),
                self.meet_id_view() == old(self).meet_id_view(),
                self.last_update_time_view() == now,
                !self.needs_check(),
                self.expected() == expect_after(old(self).expected(), client_id@, us),
            decreases updates@.len() - i,
        {
            let seq = self.server_seq + 1;
            let rec = UpdateWithServerSeq {
                update: copy_update(&updates[i]),
                server_seq_num: seq,
                source_client_id: client_id.clone(),
                source_client_priority: priority,
            };
            let ghost rv = rec@;
            self.apply_record(rec);
            let local = updates[i].local_seq_num;
            acks.push((local, seq));
            proof {
                let recs = batch_records(n0, client_id@, priority, us);
                assert(rv == recs[i as int]);
                assert(recs.take(i + 1) =~= recs.take(i as int).push(rv));
                assert(self.log() =~= log0 + recs.take(i + 1));
                assert(batch_acks(n0, us).take(i + 1) =~= batch_acks(n0, us).take(i as int).push(
                    (local, seq),
                ));
            }
            i = i + 1;
        }
        proof {
            assert(batch_records(n0, client_id@, priority, us).take(us.len() as int) =~= batch_records(
                n0,
                client_id@,
                priority,
                us,
            ));
            assert(batch_acks(n0, us).take(us.len() as int) =~= batch_acks(n0, us));
        }
        Ok(acks)
    }

    /// Takes a batch of updates from `client_id` at the current time.
    pub fn handle_update(&mut self, client_id: String, priority: u8, updates: Vec<Update>) -> (r: Result<
        Vec<(u64, u64)>,
        AppError,
    >)
        requires
            old(self).wf(),
            old(self).seq() + updates@.len() <= u64::MAX,
        ensures
            final(self).wf(),
            exists|now: u64| #[trigger] update_outcome(*old(self), *final(self), client_id@, priority, updates_view(updates@), now, r),
    {
        self.handle_update_at(client_id, priority, updates, crate::clock::now_millis())
    }

    /// The recorded updates numbered past `since`, in log order.
    pub fn get_updates_since(&self, since: u64) -> (r: Vec<UpdateWithServerSeq>)
        requires
            self.wf(),
        ensures
            log_view(r@) == entries_after(self.log(), since),
    {
        let mut out: Vec<UpdateWithServerSeq> = Vec::new();
        let mut i: usize = 0;
        while i < self.updates.len()
            invariant
                i <= self.updates@.len(),
                log_view(out@) == entries_after(self.log().take(i as int), since),
            decreases self.updates@.len() - i,
        {
            let ghost before = out@;
            let u = &self.updates[i];
            proof {
                let t = self.log().take(i + 1);
                assert(t.drop_last() =~= self.log().take(i as int));
                assert(t.last() == u@);
            }
            if u.server_seq_num > since {
                out.push(copy_record(u));
                assert(log_view(out@) =~= log_view(before).push(u@));
            }
            i = i + 1;
        }
        assert(self.log().take(self.updates@.len() as int) =~= self.log());
        out
    }

    /// The current value of each key, as JSON text.
    pub fn get_state(&self) -> (r: StrMap<String>)
        requires
            self.wf(),
        ensures
            r.wf(),
            texts_view(r.map()) == state_of(self.log()),
    {
        let entries = self.state.entries();
        let mut out: Vec<(String, String)> = Vec::new();
        let mut i: usize = 0;
        while i < entries.len()
            invariant
                entries@ == self.state.pairs(),
                i <= entries@.len(),
                out@.len() == i,
                forall|j: int| 0 <= j < i ==> #[trigger] out@[j] == entries@[j],
            decreases entries@.len() - i,
        {
            let (k, v) = &entries[i];
            out.push((k.clone(), v.clone()));
            i = i + 1;
        }
        assert(out@ =~= self.state.pairs());
        StrMap::from_pairs(out)
    }

    /// The keys that have a record, each once.
    fn known_keys(&self) -> (v: Vec<String>)
        requires
            self.wf(),
        ensures
            forall|k: Seq<char>|
                latest_by_key(self.log()).contains_key(k) <==> exists|j: int| 0 <= j < v@.len() && #[trigger] v@[j]@ == k,
    {
        let entries = self.updates_by_key.entries();
        let mut out: Vec<String> = Vec::new();
        let mut i: usize = 0;
        while i < entries.len()
            invariant
                entries@ == self.updates_by_key.pairs(),
                i <= entries@.len(),
                out@.len() == i,
                forall|j: int| 0 <= j < i ==> #[trigger] out@[j]@ == entries@[j].0@,
            decreases entries@.len() - i,
        {
            out.push(entries[i].0.clone());
            i = i + 1;
        }
        proof {
            let pairs = self.updates_by_key.pairs();
            lemma_pairs_map(pairs);
            assert(records_view(self.updates_by_key.map()).dom() == self.updates_by_key.map().dom());
            assert forall|k: Seq<char>|
                latest_by_key(self.log()).contains_key(k) <==> exists|j: int| 0 <= j < out@.len() && #[trigger] out@[j]@ == k by {
                if latest_by_key(self.log()).contains_key(k) {
                    assert(has_key(pairs, k));
                    let j = choose|j: int| 0 <= j < pairs.len() && #[trigger] pairs[j].0@ == k;
                    assert(out@[j]@ == k);
                }
                if exists|j: int| 0 <= j < out@.len() && #[trigger] out@[j]@ == k {
                    let j = choose|j: int| 0 <= j < out@.len() && #[trigger] out@[j]@ == k;
                    assert(pairs[j].0@ == k);
                    assert(has_key(pairs, k));
                }
            }
        }
        out
    }

    /// Rebuilds the meet's state from updates that a client sent back. The
    /// updates are taken in timestamp order (arrival order among equal
    /// timestamps); one whose key was known before recovery began is passed
    /// over when the key's current record has at least `priority`. Each other
    /// update is recorded under the next sequence number, its value read as
    /// JSON (or `null`). Returns the last sequence number and how many updates
    /// were recorded. Nothing is relayed.
    pub fn handle_state_recovery(&mut self, client_id: String, priority: u8, updates: Vec<MessageUpdate>) -> (r: (
        u64,
        usize,
    ))
        requires
            old(self).wf(),
            old(self).seq() + updates@.len() <= u64::MAX,
        ensures
            final(self).wf(),
            final(self).meet_id_view() == old(self).meet_id_view(),
            final(self).expected() == old(self).expected(),
            final(self).last_update_time_view() == old(self).last_update_time_view(),
            final(self).needs_check() == old(self).needs_check(),
            final(self).log() == recovery_log(
                old(self).log(),
                latest_by_key(old(self).log()).dom(),
                client_id@,
                priority,
                sort_by_timestamp(updates@),
            ),
            r.0 == final(self).seq(),
            r.1 == final(self).log().len() - old(self).log().len(),
    {
        let ghost log0 = self.log();
        let ghost initial = latest_by_key(log0).dom();
        if updates.len() == 0 {
            assert(sort_by_timestamp(updates@) =~= Seq::<MessageUpdate>::empty());
            return (self.server_seq, 0);
        }
        let sorted = sorted_by_timestamp(&updates);
        proof {
            lemma_sort_len(updates@);
        }
        let existing_keys = self.known_keys();
        let mut applied: usize = 0;
        let mut i: usize = 0;
        while i < sorted.len()
            invariant
                self.wf(),
                i <= sorted@.len(),
                log0.len() + sorted@.len() <= u64::MAX,
                initial == latest_by_key(log0).dom(),
                forall|k: Seq<char>| initial.contains(k) <==> exists|j: int| 0 <= j < existing_keys@.len() && #[trigger] existing_keys@[j]@ == k,
                self.log() == recovery_log(log0, initial, client_id@, priority, sorted@.take(i as int)),
                self.log().len() <= log0.len() + i,
                applied == self.log().len() - log0.len(),
                self.meet_id_view() == old(self).meet_id_view(),
                self.expected() == old(self).expected(),
                self.last_update_time_view() == old(self).last_update_time_view(),
                self.needs_check() == old(self).needs_check(),
            decreases sorted@.len() - i,
        {
            let u = &sorted[i];
            let ghost prev = self.log();
            proof {
                let t = sorted@.take(i + 1);
                assert(t.drop_last() =~= sorted@.take(i as int));
                assert(t.last() == *u);
            }
            let known = contains_text(&existing_keys, u.location.as_str());
            let skip = if known {
                match self.updates_by_key.get(u.location.as_str()) {
                    Some(e) => priority <= e.source_client_priority,
                    None => false,
                }
            } else {
                false
            };
            proof {
                assert(records_view(self.updates_by_key.map()) == latest_by_key(prev));
                assert(skip == recovery_skips(prev, initial, *u, priority));
            }
            if !skip {
                let value = match parse_json(u.value.as_str()) {
                    Ok(t) => t,
                    Err(_) => "null".to_string(),
                };
                let seq = self.server_seq + 1;
                let rec = UpdateWithServerSeq {
                    update: Update {
                        update_key: u.location.clone(),
                        update_value: value,
                        local_seq_num: u.timestamp as u64,
                        after_server_seq_num: 0,
                    },
                    server_seq_num: seq,
                    source_client_id: client_id.clone(),
                    source_client_priority: priority,
                };
                assert(rec@ == recovered_record(*u, (prev.len() + 1) as nat, client_id@, priority));
                self.apply_record(rec);
                applied = applied + 1;
            }
            i = i + 1;
        }
        assert(sorted@.take(sorted@.len() as int) =~= sorted@);
        (self.server_seq, applied)
    }

    /// Records `rec`, which carries the next sequence number.
    fn apply_record(&mut self, rec: UpdateWithServerSeq)
        requires
            old(self).wf(),
            rec.server_seq_num == old(self).seq() + 1,
        ensures
            final(self).wf(),
            final(self).log() == old(self).log().push(rec@),
            final(self).seq() == rec.server_seq_num,
            final(self).meet_id_view() == old(self).meet_id_view(),
            final(self).expected() == old(self).expected(),
            final(self).last_update_time_view() == old(self).last_update_time_view(),
            final(self).needs_check() == old(self).needs_check(),
    {
        let ghost old_log = self.log();
        let ghost old_by_key = self.updates_by_key.map();
        let ghost old_state = self.state.map();
        self.state.insert(rec.update.update_key.clone(), rec.update.update_value.clone());
        self.updates_by_key.insert(rec.update.update_key.clone(), copy_record(&rec));
        self.server_seq = rec.server_seq_num;
        self.updates.push(rec);
        proof {
            let r = rec@;
            assert(self.log() =~= old_log.push(r));
            lemma_latest_push(old_log, r);
            assert(records_view(self.updates_by_key.map()) =~= records_view(old_by_key).insert(
                r.update.update_key,
                r,
            ));
            assert(texts_view(self.state.map()) =~= texts_view(old_state).insert(
                r.update.update_key,
                r.update.update_value,
            ));
            assert forall|i: int| 0 <= i < self.log().len() implies (#[trigger] self.log()[i]).server_seq_num
                == i + 1 by {
                if i < old_log.len() {
                    assert(self.log()[i] == old_log[i]);
                }
            }
        }
    }
}

} // verus!

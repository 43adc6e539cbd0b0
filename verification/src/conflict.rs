//! Priority-based resolution of concurrent updates to the same location.
use crate::messages::{Update, UpdateWithMetadata};
use vstd::prelude::*;

verus! {

/// The first position of `p` whose update is for location `loc`, or -1.
pub open spec fn find_location(p: Seq<UpdateWithMetadata>, loc: Seq<char>) -> int
    decreases p.len(),
{
    if p.len() == 0 {
        -1
    } else {
        let r = find_location(p.drop_last(), loc);
        if r >= 0 {
            r
        } else if p.last().update.location@ == loc {
            p.len() - 1
        } else {
            -1
        }
    }
}

/// The resolution of `us`: one update per location, locations in order of
/// first appearance; for each, the update with the highest priority, the
/// later one among equals.
pub open spec fn resolve(us: Seq<UpdateWithMetadata>) -> Seq<UpdateWithMetadata>
    decreases us.len(),
{
    if us.len() == 0 {
        Seq::empty()
    } else {
        let p = resolve(us.drop_last());
        let u = us.last();
        let k = find_location(p, u.update.location@);
        if k < 0 {
            p.push(u)
        } else if u.priority >= p[k].priority {
            p.update(k, u)
        } else {
            p
        }
    }
}

/// Some update of `us` is for location `loc`.
pub open spec fn has_location(us: Seq<UpdateWithMetadata>, loc: Seq<char>) -> bool {
    exists|i: int| 0 <= i < us.len() && #[trigger] us[i].update.location@ == loc
}

proof fn lemma_find_location(p: Seq<UpdateWithMetadata>, loc: Seq<char>)
    ensures
        -1 <= find_location(p, loc) < p.len(),
        find_location(p, loc) >= 0 ==> p[find_location(p, loc)].update.location@ == loc,
        find_location(p, loc) < 0 <==> !has_location(p, loc),
        find_location(p, loc) >= 0 ==> forall|j: int|
            0 <= j < find_location(p, loc) ==> #[trigger] p[j].update.location@ != loc,
    decreases p.len(),
{
    if p.len() > 0 {
        let d = p.drop_last();
        lemma_find_location(d, loc);
        if find_location(d, loc) < 0 {
            assert forall|j: int| 0 <= j < p.len() - 1 implies #[trigger] p[j].update.location@ != loc by {
                assert(d[j] == p[j]);
                if p[j].update.location@ == loc {
                    assert(has_location(d, loc));
                }
            }
            if has_location(p, loc) && p.last().update.location@ != loc {
                let i = choose|i: int| 0 <= i < p.len() && #[trigger] p[i].update.location@ == loc;
                assert(d[i] == p[i]);
            }
        } else {
            assert(p[find_location(d, loc)] == d[find_location(d, loc)]);
            assert forall|j: int| 0 <= j < find_location(p, loc) implies #[trigger] p[j].update.location@ != loc by {
                assert(d[j] == p[j]);
            }
            let i = find_location(d, loc);
            assert(p[i].update.location@ == loc);
        }
    }
}

/// The resolution keeps one update per location: its locations are
/// distinct, they are exactly the locations of the input, and the update kept
/// for a location is one of the input's updates for it whose priority no
/// other update for that location exceeds.
pub proof fn lemma_resolve(us: Seq<UpdateWithMetadata>)
    ensures
        forall|a: int, b: int|
            0 <= a < b < resolve(us).len() ==> #[trigger] resolve(us)[a].update.location@
                != #[trigger] resolve(us)[b].update.location@,
        forall|loc: Seq<char>| #[trigger] has_location(resolve(us), loc) <==> has_location(us, loc),
        forall|k: int|
            0 <= k < resolve(us).len() ==> exists|i: int| 0 <= i < us.len() && us[i] == #[trigger] resolve(us)[k],
        forall|k: int, j: int|
            0 <= k < resolve(us).len() && 0 <= j < us.len() && us[j].update.location@ == #[trigger] resolve(
                us,
            )[k].update.location@ ==> #[trigger] us[j].priority <= resolve(us)[k].priority,
    decreases us.len(),
{
    if us.len() > 0 {
        let d = us.drop_last();
        let p = resolve(d);
        let u = us.last();
        let loc = u.update.location@;
        lemma_resolve(d);
        lemma_find_location(p, loc);
        let k = find_location(p, loc);
        let r = resolve(us);
        assert(u == us[us.len() - 1]);
        assert forall|i: int| 0 <= i < d.len() implies d[i] == us[i] by {}
        // every location of `p` is one of `d`'s, hence of `us`'s
        assert forall|l: Seq<char>| #[trigger] has_location(r, l) <==> has_location(us, l) by {
            if has_location(us, l) {
                let i = choose|i: int| 0 <= i < us.len() && #[trigger] us[i].update.location@ == l;
                if i < d.len() {
                    assert(d[i].update.location@ == l);
                    assert(has_location(d, l));
                    assert(has_location(p, l));
                    let m = choose|m: int| 0 <= m < p.len() && #[trigger] p[m].update.location@ == l;
                    if k >= 0 && m == k {
                        assert(r[m].update.location@ == l);
                    } else {
                        assert(r[m] == p[m]);
                    }
                } else {
                    if k < 0 {
                        assert(r[p.len() as int] == u);
                    } else {
                        assert(r[k].update.location@ == l);
                    }
                }
            }
            if has_location(r, l) {
                let m = choose|m: int| 0 <= m < r.len() && #[trigger] r[m].update.location@ == l;
                if m < p.len() && !(k >= 0 && m == k) {
                    assert(r[m] == p[m]);
                    assert(has_location(p, l));
                    assert(has_location(d, l));
                    let i = choose|i: int| 0 <= i < d.len() && #[trigger] d[i].update.location@ == l;
                    assert(us[i].update.location@ == l);
                } else if m < p.len() {
                    assert(p[k].update.location@ == l);
                    assert(has_location(p, l));
                    assert(has_location(d, l));
                    let i = choose|i: int| 0 <= i < d.len() && #[trigger] d[i].update.location@ == l;
                    assert(us[i].update.location@ == l);
                } else {
                    assert(us[us.len() - 1].update.location@ == l);
                }
            }
        }
        assert forall|a: int, b: int| 0 <= a < b < r.len() implies #[trigger] r[a].update.location@
            != #[trigger] r[b].update.location@ by {
            if k < 0 {
                if b == p.len() {
                    assert(r[a] == p[a]);
                    if p[a].update.location@ == loc {
                        assert(has_location(p, loc));
                    }
                } else {
                    assert(r[a] == p[a] && r[b] == p[b]);
                }
            } else {
                if a == k {
                    assert(r[b] == p[b]);
                    assert(p[k].update.location@ == loc);
                } else if b == k {
                    assert(r[a] == p[a]);
                    assert(p[k].update.location@ == loc);
                } else {
                    assert(r[a] == p[a] && r[b] == p[b]);
                }
            }
        }
        assert forall|m: int| 0 <= m < r.len() implies exists|i: int| 0 <= i < us.len() && us[i] == #[trigger] r[m] by {
            if (k < 0 && m == p.len()) || (k >= 0 && m == k && u.priority >= p[k].priority) {
                assert(us[us.len() - 1] == r[m]);
            } else {
                assert(r[m] == p[m]);
                let i = choose|i: int| 0 <= i < d.len() && d[i] == #[trigger] p[m];
                assert(us[i] == r[m]);
            }
        }
        assert forall|m: int, j: int|
            0 <= m < r.len() && 0 <= j < us.len() && us[j].update.location@ == #[trigger] r[m].update.location@
                implies #[trigger] us[j].priority <= r[m].priority by {
            if j == us.len() - 1 {
                if k < 0 {
                    if m < p.len() {
                        assert(r[m] == p[m]);
                        assert(has_location(p, loc));
                    }
                } else {
                    if m != k {
                        assert(r[m] == p[m]);
                        assert(p[k].update.location@ == loc);
                        assert(p[m].update.location@ == loc);
                        if m < k {
                        } else {
                        }
                    }
                }
            } else {
                assert(us[j] == d[j]);
                if k < 0 && m == p.len() {
                    assert(d[j].update.location@ == loc);
                    assert(has_location(d, loc));
                    assert(has_location(p, loc));
                } else if k >= 0 && m == k {
                    assert(p[k].update.location@ == d[j].update.location@);
                    assert(d[j].priority <= p[k].priority);
                } else {
                    assert(r[m] == p[m]);
                }
            }
        }
    }
}

/// A copy of an update with its metadata.
pub fn copy_with_metadata(u: &UpdateWithMetadata) -> (r: UpdateWithMetadata)
    ensures
        r == *u,
{
    UpdateWithMetadata {
        update: Update { location: u.update.location.clone(), value: u.update.value.clone(), timestamp: u.update.timestamp },
        source_client: u.source_client.clone(),
        server_seq: u.server_seq,
        priority: u.priority,
    }
}

/// The position in `p` of the first update for `loc`.
fn position_of_location(p: &Vec<UpdateWithMetadata>, loc: &str) -> (r: Option<usize>)
    ensures
        match r {
            Some(k) => k < p@.len() && k as int == find_location(p@, loc@),
            None => find_location(p@, loc@) < 0,
        },
{
    proof {
        lemma_find_location(p@, loc@);
    }
    let mut i: usize = 0;
    while i < p.len()
        invariant
            i <= p@.len(),
            forall|j: int| 0 <= j < i ==> #[trigger] p@[j].update.location@ != loc@,
            -1 <= find_location(p@, loc@) < p@.len(),
            find_location(p@, loc@) >= 0 ==> p@[find_location(p@, loc@)].update.location@ == loc@,
            find_location(p@, loc@) < 0 <==> !has_location(p@, loc@),
            find_location(p@, loc@) >= 0 ==> forall|j: int|
                0 <= j < find_location(p@, loc@) ==> #[trigger] p@[j].update.location@ != loc@,
        decreases p@.len() - i,
    {
        if crate::text::str_eq(p[i].update.location.as_str(), loc) {
            return Some(i);
        }
        i = i + 1;
    }
    None
}

/// Keeps one update per location: the one with the highest priority (the
/// later one among equals), locations in order of first appearance.
pub fn resolve_conflicts(updates: &[UpdateWithMetadata]) -> (r: Vec<UpdateWithMetadata>)
    ensures
        r@ == resolve(updates@),
{
    let mut out: Vec<UpdateWithMetadata> = Vec::new();
    let mut i: usize = 0;
    while i < updates.len()
        invariant
            i <= updates@.len(),
            out@ == resolve(updates@.take(i as int)),
        decreases updates@.len() - i,
    {
        let u = &updates[i];
        proof {
            let t = updates@.take(i + 1);
            assert(t.drop_last() =~= updates@.take(i as int));
            assert(t.last() == *u);
        }
        match position_of_location(&out, u.update.location.as_str()) {
            None => {
                out.push(copy_with_metadata(u));
            },
            Some(k) => {
                if u.priority >= out[k].priority {
                    out.set(k, copy_with_metadata(u));
                }
            },
        }
        i = i + 1;
    }
    assert(updates@.take(updates@.len() as int) =~= updates@);
    out
}

} // verus!

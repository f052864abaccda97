//! Counting the receivers that a message still has to reach.
//!
//! The receivers of a channel are modelled by the multiset of their positions: a receiver at
//! position `p` reads the message with number `p` next.
use vstd::multiset::Multiset;
use vstd::prelude::*;

verus! {

/// The number of receivers that have not read the message with number `pos` yet.
pub open spec fn behind(cursors: Multiset<nat>, pos: nat) -> nat {
    cursors.filter(|p: nat| p <= pos).len()
}

/// The multiset of positions after one receiver has gone from `from` to `to`.
pub open spec fn moved(cursors: Multiset<nat>, from: nat, to: nat) -> Multiset<nat> {
    cursors.remove(from).insert(to)
}

/// A receiver that joins at `q` has to read what comes at `q` or later.
pub proof fn lemma_behind_insert(cursors: Multiset<nat>, q: nat, pos: nat)
    ensures
        behind(cursors.insert(q), pos) == behind(cursors, pos) + if q <= pos {
            1nat
        } else {
            0nat
        },
{
    let f = |p: nat| p <= pos;
    if q <= pos {
        assert(cursors.insert(q).filter(f) =~= cursors.filter(f).insert(q));
    } else {
        assert(cursors.insert(q).filter(f) =~= cursors.filter(f));
    }
}

/// A receiver that leaves from `q` no longer counts for what comes at `q` or later.
pub proof fn lemma_behind_remove(cursors: Multiset<nat>, q: nat, pos: nat)
    requires
        cursors.contains(q),
    ensures
        behind(cursors, pos) == behind(cursors.remove(q), pos) + if q <= pos {
            1nat
        } else {
            0nat
        },
{
    lemma_behind_insert(cursors.remove(q), q, pos);
    assert(cursors.remove(q).insert(q) =~= cursors);
}

/// How a receiver that goes from `from` to `to` changes the count.
pub proof fn lemma_behind_moved(cursors: Multiset<nat>, from: nat, to: nat, pos: nat)
    requires
        cursors.contains(from),
    ensures
        behind(moved(cursors, from, to), pos) + (if from <= pos {
            1nat
        } else {
            0nat
        }) == behind(cursors, pos) + if to <= pos {
            1nat
        } else {
            0nat
        },
{
    lemma_behind_remove(cursors, from, pos);
    lemma_behind_insert(cursors.remove(from), to, pos);
}

/// A receiver that goes elsewhere is still one receiver.
pub proof fn lemma_moved_len(cursors: Multiset<nat>, from: nat, to: nat)
    requires
        cursors.contains(from),
    ensures
        moved(cursors, from, to).len() == cursors.len(),
        moved(cursors, from, to).contains(to),
        moved(cursors, from, from) =~= cursors,
        moved(cursors, from, to).remove(to) =~= cursors.remove(from),
        forall|p: nat| #[trigger]
            moved(cursors, from, to).contains(p) ==> p == to || cursors.contains(p),
{
}

/// Later messages are awaited by at least as many receivers as earlier ones.
pub proof fn lemma_behind_monotone(cursors: Multiset<nat>, a: nat, b: nat)
    requires
        a <= b,
    ensures
        behind(cursors, a) <= behind(cursors, b),
    decreases cursors.len(),
{
    if cursors.len() == 0 {
        assert(cursors.filter(|p: nat| p <= a) =~= Multiset::<nat>::empty());
    } else {
        let q = cursors.choose();
        lemma_behind_remove(cursors, q, a);
        lemma_behind_remove(cursors, q, b);
        lemma_behind_monotone(cursors.remove(q), a, b);
    }
}

/// A receiver between two messages is awaited at the later one only.
pub proof fn lemma_behind_strict(cursors: Multiset<nat>, a: nat, q: nat, b: nat)
    requires
        cursors.contains(q),
        a < q <= b,
    ensures
        behind(cursors, a) < behind(cursors, b),
{
    lemma_behind_remove(cursors, q, a);
    lemma_behind_remove(cursors, q, b);
    lemma_behind_monotone(cursors.remove(q), a, b);
}

/// Where every receiver is at `pos` or before, all of them are behind.
pub proof fn lemma_behind_all(cursors: Multiset<nat>, pos: nat)
    requires
        forall|p: nat| cursors.contains(p) ==> p <= pos,
    ensures
        behind(cursors, pos) == cursors.len(),
{
    let f = |p: nat| p <= pos;
    assert forall|v: nat| #[trigger] cursors.filter(f).count(v) == cursors.count(v) by {
        if cursors.count(v) > 0 {
            assert(cursors.contains(v));
        }
    }
    assert(cursors.filter(f) =~= cursors);
}

/// Somebody is behind exactly where some receiver is at `pos` or before.
pub proof fn lemma_behind_witness(cursors: Multiset<nat>, pos: nat)
    ensures
        behind(cursors, pos) > 0 <==> exists|p: nat| cursors.contains(p) && p <= pos,
{
    let f = |p: nat| p <= pos;
    if behind(cursors, pos) > 0 {
        let p = cursors.filter(f).choose();
        assert(cursors.filter(f).count(p) > 0);
        assert(cursors.contains(p) && p <= pos);
    }
    if exists|p: nat| cursors.contains(p) && p <= pos {
        let p = choose|p: nat| cursors.contains(p) && p <= pos;
        lemma_behind_remove(cursors, p, pos);
    }
}

} // verus!

//! Point-in-time index membership: replay the change log backwards from a
//! base roster.
//!
//! The base roster is the set of members on the anchor date (the most recent
//! date the static data knows).  To reconstruct membership on an earlier
//! date, every change that became effective strictly after that date is
//! undone: a symbol it removed is put back, a symbol it added is taken out.

use vstd::prelude::*;

verus! {

use crate::date::Date;
use crate::snp::SnP;
use crate::snp_update::SnpTicker;
use crate::snp_update::SnpUpdate;

/// Whether `u` is undone when reconstructing membership for `date`: only
/// changes strictly after the queried date are undone; a change is already
/// in force on its own effective date.
pub open spec fn applies_after(u: SnpUpdate, date: Date) -> bool {
    u.date.idx() > date.idx()
}

/// Undoing one later change: a symbol it removed is put back, a symbol it
/// added is taken out (if present).
pub open spec fn undo_update(s: Set<SnP>, u: SnpUpdate) -> Set<SnP> {
    let with_removed = match u.removed_ticker {
        SnpTicker::Available(t) => s.insert(t),
        SnpTicker::NotAvailable => s,
    };
    match u.added_ticker {
        SnpTicker::Available(t) => with_removed.remove(t),
        SnpTicker::NotAvailable => with_removed,
    }
}

/// Membership on `date`: the base roster with every later change undone.
pub open spec fn replay(roster: Set<SnP>, events: Seq<SnpUpdate>, date: Date) -> Set<SnP>
    decreases events.len(),
{
    if events.len() == 0 {
        roster
    } else {
        let prev = replay(roster, events.drop_last(), date);
        if applies_after(events.last(), date) {
            undo_update(prev, events.last())
        } else {
            prev
        }
    }
}

/// Whether undoing `u` can change the membership of symbol `s`.
pub open spec fn touches(u: SnpUpdate, s: SnP) -> bool {
    u.removed_ticker == SnpTicker::Available(s) || u.added_ticker == SnpTicker::Available(s)
}

fn member_index(v: &Vec<SnP>, t: SnP) -> (r: Option<usize>)
    ensures
        match r {
            Some(i) => i < v@.len() && v@[i as int] == t,
            None => !v@.contains(t),
        },
{
    let mut i: usize = 0;
    while i < v.len()
        invariant
            0 <= i <= v@.len(),
            forall|j: int| 0 <= j < i ==> v@[j] != t,
        decreases v@.len() - i,
    {
        if v[i] == t {
            return Some(i);
        }
        i = i + 1;
    }
    None
}

fn roster_insert(v: &mut Vec<SnP>, t: SnP)
    requires
        old(v)@.no_duplicates(),
    ensures
        final(v)@.no_duplicates(),
        final(v)@.to_set() == old(v)@.to_set().insert(t),
{
    match member_index(v, t) {
        Some(_) => {
            proof {
                assert(v@.to_set() =~= v@.to_set().insert(t));
            }
        },
        None => {
            v.push(t);
            proof {
                assert(v@.drop_last() == old(v)@);
                assert(v@.to_set() =~= old(v)@.to_set().insert(t)) by {
                    assert(forall|x: SnP| old(v)@.contains(x) ==> #[trigger] v@.contains(x)) by {
                        assert(forall|j: int|
                            0 <= j < old(v)@.len() ==> v@[j] == #[trigger] old(v)@[j]);
                    }
                    assert(v@.contains(t)) by {
                        assert(v@[v@.len() - 1] == t);
                    }
                    assert(forall|x: SnP| #[trigger] v@.contains(x) ==> old(v)@.contains(x) || x == t);
                }
            }
        },
    }
}

fn roster_remove(v: &mut Vec<SnP>, t: SnP)
    requires
        old(v)@.no_duplicates(),
    ensures
        final(v)@.no_duplicates(),
        final(v)@.to_set() == old(v)@.to_set().remove(t),
{
    match member_index(v, t) {
        Some(i) => {
            v.remove(i);
            proof {
                let pre = old(v)@;
                let post = v@;
                assert(post == pre.remove(i as int));
                assert(post.no_duplicates()) by {
                    assert(forall|a: int, b: int|
                        0 <= a < b < post.len() ==> #[trigger] post[a] != #[trigger] post[b]) by {
                        assert(forall|a: int|
                            0 <= a < post.len() ==> #[trigger] post[a] == if a < i {
                                pre[a]
                            } else {
                                pre[a + 1]
                            });
                    }
                }
                assert(post.to_set() =~= pre.to_set().remove(t)) by {
                    assert forall|x: SnP| #[trigger] post.contains(x) implies pre.contains(x) && x
                        != t by {
                        let j = choose|j: int| 0 <= j < post.len() && post[j] == x;
                        if j < i {
                            assert(pre[j] == x);
                        } else {
                            assert(pre[j + 1] == x);
                        }
                    }
                    assert forall|x: SnP| pre.contains(x) && x != t implies #[trigger] post.contains(
                        x,
                    ) by {
                        let j = choose|j: int| 0 <= j < pre.len() && pre[j] == x;
                        if j < i {
                            assert(post[j] == x);
                        } else {
                            assert(j != i);
                            assert(post[j - 1] == x);
                        }
                    }
                }
            }
        },
        None => {
            proof {
                assert(v@.to_set() =~= v@.to_set().remove(t));
            }
        },
    }
}

/// Index membership on `date`, reconstructed from the base roster valid on
/// the anchor date and the change log.  The result is a set: no duplicates,
/// and its contents are exactly `replay` of the inputs.  Meaningful for
/// queries at or before the anchor date; later changes simply do not exist.
pub fn get_snp_by_date(roster: &Vec<SnP>, events: &Vec<SnpUpdate>, date: &Date) -> (r: Vec<SnP>)
    requires
        date.wf(),
        forall|i: int| 0 <= i < events@.len() ==> (#[trigger] events@[i]).date.wf(),
    ensures
        r@.no_duplicates(),
        r@.to_set() == replay(roster@.to_set(), events@, *date),
{
    let mut work: Vec<SnP> = Vec::new();
    let mut i: usize = 0;
    while i < roster.len()
        invariant
            0 <= i <= roster@.len(),
            work@.no_duplicates(),
            work@.to_set() == roster@.take(i as int).to_set(),
        decreases roster@.len() - i,
    {
        roster_insert(&mut work, roster[i]);
        proof {
            assert(roster@.take(i + 1).drop_last() == roster@.take(i as int));
            assert(roster@.take(i + 1).to_set() =~= roster@.take(i as int).to_set().insert(
                roster@[i as int],
            )) by {
                let a = roster@.take(i as int);
                let b = roster@.take(i + 1);
                assert(forall|x: SnP| a.contains(x) ==> #[trigger] b.contains(x)) by {
                    assert(forall|j: int| 0 <= j < a.len() ==> b[j] == #[trigger] a[j]);
                }
                assert(b.contains(roster@[i as int])) by {
                    assert(b[i as int] == roster@[i as int]);
                }
                assert(forall|x: SnP| #[trigger] b.contains(x) ==> a.contains(x) || x == roster@[i
                    as int]);
            }
        }
        i = i + 1;
    }
    proof {
        assert(roster@.take(roster@.len() as int) == roster@);
    }
    let day = date.day_number();
    let mut k: usize = 0;
    while k < events.len()
        invariant
            0 <= k <= events@.len(),
            date.wf(),
            day == date.idx(),
            forall|j: int| 0 <= j < events@.len() ==> (#[trigger] events@[j]).date.wf(),
            work@.no_duplicates(),
            work@.to_set() == replay(roster@.to_set(), events@.take(k as int), *date),
        decreases events@.len() - k,
    {
        let u = events[k];
        if u.date.day_number() > day {
            match u.removed_ticker {
                SnpTicker::Available(t) => roster_insert(&mut work, t),
                SnpTicker::NotAvailable => (),
            }
            match u.added_ticker {
                SnpTicker::Available(t) => roster_remove(&mut work, t),
                SnpTicker::NotAvailable => (),
            }
        }
        proof {
            assert(events@.take(k + 1).drop_last() == events@.take(k as int));
            assert(events@.take(k + 1).last() == events@[k as int]);
        }
        k = k + 1;
    }
    proof {
        assert(events@.take(events@.len() as int) == events@);
    }
    work
}

/// Membership of a single symbol is unchanged between two query dates when
/// no change effective in between (after `d1`, at or before `d2`) touches
/// it: whatever holds on the earlier date still holds on the later one.
pub proof fn lemma_resolve_stable_between_queries(
    roster: Set<SnP>,
    events: Seq<SnpUpdate>,
    d1: Date,
    d2: Date,
    s: SnP,
)
    requires
        d1.idx() <= d2.idx(),
        forall|i: int|
            0 <= i < events.len() && d1.idx() < (#[trigger] events[i]).date.idx() <= d2.idx()
                ==> !touches(events[i], s),
    ensures
        replay(roster, events, d1).contains(s) == replay(roster, events, d2).contains(s),
    decreases events.len(),
{
    if events.len() > 0 {
        let u = events.last();
        let rest = events.drop_last();
        assert(events[events.len() - 1] == u);
        assert(forall|i: int| 0 <= i < rest.len() ==> #[trigger] rest[i] == events[i]);
        lemma_resolve_stable_between_queries(roster, rest, d1, d2, s);
    }
}

/// The events that touch no symbol of any other applicable event: among the
/// changes undone for `date`, no symbol is the subject of two of them.
pub open spec fn isolated_touches(events: Seq<SnpUpdate>, date: Date) -> bool {
    forall|u: SnpUpdate, v: SnpUpdate, s: SnP|
        #![trigger touches(u, s), touches(v, s)]
        events.contains(u) && events.contains(v) && u != v && applies_after(u, date)
            && applies_after(v, date) && touches(u, s) ==> !touches(v, s)
}

/// Whether some change undone for `date` touches `s`.
pub open spec fn touched_for(events: Seq<SnpUpdate>, date: Date, s: SnP) -> bool {
    exists|u: SnpUpdate|
        #[trigger] events.contains(u) && applies_after(u, date) && touches(u, s)
}

/// What replay decides for one symbol: if some undone change touches it, that
/// change alone decides (an undone addition expels it, an undone removal
/// readmits it); otherwise the roster decides.
pub open spec fn decide_member(roster: Set<SnP>, events: Seq<SnpUpdate>, date: Date, s: SnP) -> bool {
    if touched_for(events, date, s) {
        let u = choose|u: SnpUpdate|
            #[trigger] events.contains(u) && applies_after(u, date) && touches(u, s);
        u.added_ticker != SnpTicker::Available(s)
    } else {
        roster.contains(s)
    }
}

/// Under `isolated_touches`, replay membership equals `decide_member`.
pub proof fn lemma_replay_is_decide(roster: Set<SnP>, events: Seq<SnpUpdate>, date: Date, s: SnP)
    requires
        isolated_touches(events, date),
    ensures
        replay(roster, events, date).contains(s) == decide_member(roster, events, date, s),
    decreases events.len(),
{
    if events.len() == 0 {
        assert(!touched_for(events, date, s));
    } else {
        let u = events.last();
        let rest = events.drop_last();
        assert(forall|x: SnpUpdate| rest.contains(x) ==> #[trigger] events.contains(x)) by {
            assert(forall|i: int| 0 <= i < rest.len() ==> #[trigger] rest[i] == events[i]);
        }
        assert(events.contains(u)) by {
            assert(events[events.len() - 1] == u);
        }
        assert(isolated_touches(rest, date));
        lemma_replay_is_decide(roster, rest, date, s);
        if applies_after(u, date) && touches(u, s) {
            assert(touched_for(events, date, s));
            let c = choose|c: SnpUpdate|
                #[trigger] events.contains(c) && applies_after(c, date) && touches(c, s);
            assert(c == u);
        } else {
            assert(touched_for(events, date, s) == touched_for(rest, date, s)) by {
                if touched_for(events, date, s) {
                    let c = choose|c: SnpUpdate|
                        #[trigger] events.contains(c) && applies_after(c, date) && touches(c, s);
                    assert(c != u);
                    let i = choose|i: int| 0 <= i < events.len() && events[i] == c;
                    assert(i < events.len() - 1);
                    assert(rest[i] == c);
                    assert(rest.contains(c));
                    assert(touched_for(rest, date, s));
                }
                if touched_for(rest, date, s) {
                    let c = choose|c: SnpUpdate|
                        #[trigger] rest.contains(c) && applies_after(c, date) && touches(c, s);
                    assert(events.contains(c));
                    assert(touched_for(events, date, s));
                }
            }
            if touched_for(events, date, s) {
                let c1 = choose|c: SnpUpdate|
                    #[trigger] events.contains(c) && applies_after(c, date) && touches(c, s);
                let c2 = choose|c: SnpUpdate|
                    #[trigger] rest.contains(c) && applies_after(c, date) && touches(c, s);
                assert(events.contains(c2));
                assert(c1 == c2);
            }
        }
    }
}

/// Replay does not depend on the order of the change log: any permutation
/// of a log whose undone changes touch pairwise disjoint symbols
/// reconstructs the same membership set.
///
/// The disjointness premise is necessary: when two undone changes touch the
/// same symbol (one added it, another removed it), the two orders disagree.
pub proof fn lemma_resolve_order_irrelevant(
    roster: Set<SnP>,
    events1: Seq<SnpUpdate>,
    events2: Seq<SnpUpdate>,
    date: Date,
)
    requires
        events1.to_multiset() == events2.to_multiset(),
        isolated_touches(events1, date),
    ensures
        replay(roster, events1, date) == replay(roster, events2, date),
{
    events1.to_multiset_ensures();
    events2.to_multiset_ensures();
    assert forall|x: SnpUpdate| #[trigger] events1.contains(x) implies events2.contains(x) by {
        assert(events1.to_multiset().count(x) > 0);
        assert(events2.to_multiset().count(x) > 0);
    }
    assert forall|x: SnpUpdate| #[trigger] events2.contains(x) implies events1.contains(x) by {
        assert(events2.to_multiset().count(x) > 0);
        assert(events1.to_multiset().count(x) > 0);
    }
    assert(isolated_touches(events2, date));
    assert forall|s: SnP| #[trigger]
        replay(roster, events1, date).contains(s) == replay(roster, events2, date).contains(
        s,
    ) by {
        lemma_replay_is_decide(roster, events1, date, s);
        lemma_replay_is_decide(roster, events2, date, s);
        assert(touched_for(events1, date, s) == touched_for(events2, date, s)) by {
            if touched_for(events1, date, s) {
                let c = choose|c: SnpUpdate|
                    #[trigger] events1.contains(c) && applies_after(c, date) && touches(c, s);
                assert(events2.contains(c));
                assert(touched_for(events2, date, s));
            }
            if touched_for(events2, date, s) {
                let c = choose|c: SnpUpdate|
                    #[trigger] events2.contains(c) && applies_after(c, date) && touches(c, s);
                assert(events1.contains(c));
                assert(touched_for(events1, date, s));
            }
        }
        if touched_for(events1, date, s) {
            let c1 = choose|c: SnpUpdate|
                #[trigger] events1.contains(c) && applies_after(c, date) && touches(c, s);
            let c2 = choose|c: SnpUpdate|
                #[trigger] events2.contains(c) && applies_after(c, date) && touches(c, s);
            assert(events1.contains(c2));
            assert(c1 == c2);
        }
    }
    assert(replay(roster, events1, date) =~= replay(roster, events2, date));
}

} // verus!

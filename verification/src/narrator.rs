use vstd::prelude::*;

use crate::conditions::{condition_value, CheckError};
use crate::events::{key_lt, sort_key, Event, EventKey, EventView};
use crate::order::{lemma_text_lt_irreflexive, lemma_text_lt_total, lemma_text_lt_transitive, text_less};
use crate::world::{World, WorldView};

verus! {

broadcast use {vstd::std_specs::vec::group_vec_axioms, vstd::seq_lib::group_seq_properties};

/// The values of a list of events.
pub open spec fn event_views(s: Seq<Event>) -> Seq<EventView> {
    s.map_values(|e: Event| e@)
}

/// The condition of the event holds in the world.
pub open spec fn can_trigger(e: EventView, w: WorldView) -> bool {
    condition_value(e.condition, w) == Ok::<bool, CheckError>(true)
}

/// The condition of every event can be checked in the world.
pub open spec fn all_checkable(s: Seq<EventView>, w: WorldView) -> bool {
    forall|i: int| 0 <= i < s.len() ==> #[trigger] condition_value(s[i].condition, w) is Ok
}

/// The events that can be triggered in the world, in their order.
pub open spec fn available(s: Seq<EventView>, w: WorldView) -> Seq<EventView> {
    s.filter(|e: EventView| can_trigger(e, w))
}

/// The events ordered by their keys in the world: no event comes before one
/// whose key is smaller.
pub open spec fn sorted_by_key(s: Seq<EventView>, w: WorldView) -> bool {
    forall|i: int, j: int|
        0 <= i < j < s.len() ==> !key_lt(#[trigger] sort_key(s[j], w), #[trigger] sort_key(s[i], w))
}

/// The events whose key in the world is `k`, in their order.
pub open spec fn with_key(s: Seq<EventView>, w: WorldView, k: EventKey) -> Seq<EventView> {
    s.filter(|e: EventView| sort_key(e, w) == k)
}

/// The key of a tuple as `sort_key` returns it.
pub open spec fn key_of(t: (usize, String, String, String)) -> EventKey {
    EventKey { last_event: t.0, item: t.1@, character: t.2@, name: t.3@ }
}

/// No key comes before itself.
pub proof fn lemma_key_lt_irreflexive(a: EventKey)
    ensures
        !key_lt(a, a),
{
    lemma_text_lt_irreflexive(a.name);
}

/// Of two different keys, one comes before the other.
pub proof fn lemma_key_lt_total(a: EventKey, b: EventKey)
    ensures
        a != b ==> key_lt(a, b) || key_lt(b, a),
{
    lemma_text_lt_total(a.item, b.item);
    lemma_text_lt_total(a.character, b.character);
    lemma_text_lt_total(a.name, b.name);
}

/// The order of keys is transitive.
pub proof fn lemma_key_lt_transitive(a: EventKey, b: EventKey, c: EventKey)
    requires
        key_lt(a, b),
        key_lt(b, c),
    ensures
        key_lt(a, c),
{
    if a.last_event == b.last_event && b.last_event == c.last_event {
        if a.item == b.item && b.item == c.item {
            if a.character == b.character && b.character == c.character {
                lemma_text_lt_transitive(a.name, b.name, c.name);
            } else if a.character == b.character {
                assert(key_lt(a, c));
            } else if b.character == c.character {
                assert(key_lt(a, c));
            } else {
                lemma_text_lt_transitive(a.character, b.character, c.character);
                if a.character == c.character {
                    lemma_text_lt_irreflexive(a.character);
                }
            }
        } else if a.item == b.item {
            assert(key_lt(a, c));
        } else if b.item == c.item {
            assert(key_lt(a, c));
        } else {
            lemma_text_lt_transitive(a.item, b.item, c.item);
            if a.item == c.item {
                lemma_text_lt_irreflexive(a.item);
            }
        }
    }
}

/// Whether the key `a` comes before the key `b`.
fn key_less(a: &(usize, String, String, String), b: &(usize, String, String, String)) -> (r: bool)
    ensures
        r == key_lt(key_of(*a), key_of(*b)),
{
    proof {
        lemma_text_lt_irreflexive(a.1@);
        lemma_text_lt_irreflexive(a.2@);
    }
    if a.0 != b.0 {
        return a.0 < b.0;
    }
    if text_less(a.1.as_str(), b.1.as_str()) {
        return true;
    }
    if text_less(b.1.as_str(), a.1.as_str()) {
        return false;
    }
    proof {
        lemma_text_lt_total(a.1@, b.1@);
    }
    if text_less(a.2.as_str(), b.2.as_str()) {
        return true;
    }
    if text_less(b.2.as_str(), a.2.as_str()) {
        return false;
    }
    proof {
        lemma_text_lt_total(a.2@, b.2@);
    }
    text_less(a.3.as_str(), b.3.as_str())
}

/// Inserting an event after every event whose key is not greater and before
/// every event whose key is greater keeps the order, and puts it last among
/// the events of its key.
proof fn lemma_insert_sorted(s: Seq<EventView>, w: WorldView, x: EventView, j: int)
    requires
        sorted_by_key(s, w),
        0 <= j <= s.len(),
        j > 0 ==> !key_lt(sort_key(x, w), sort_key(s[j - 1], w)),
        forall|i: int| j <= i < s.len() ==> key_lt(sort_key(x, w), #[trigger] sort_key(s[i], w)),
    ensures
        sorted_by_key(s.insert(j, x), w),
        forall|k: EventKey|
            #[trigger] with_key(s.insert(j, x), w, k) == if sort_key(x, w) == k {
                with_key(s, w, k).push(x)
            } else {
                with_key(s, w, k)
            },
{
    let t = s.insert(j, x);
    let kx = sort_key(x, w);
    assert forall|a: int, b: int| 0 <= a < b < t.len() implies !key_lt(
        #[trigger] sort_key(t[b], w),
        #[trigger] sort_key(t[a], w),
    ) by {
        if b < j {
            assert(t[a] == s[a] && t[b] == s[b]);
        } else if b == j {
            // t[a] == s[a] with a < j: its key is not greater than that of s[j - 1]
            let ka = sort_key(s[a], w);
            let kl = sort_key(s[j - 1], w);
            assert(t[a] == s[a]);
            if key_lt(kx, ka) {
                if a < j - 1 {
                    assert(!key_lt(sort_key(s[j - 1], w), sort_key(s[a], w)));
                    lemma_key_lt_total(ka, kl);
                    if ka != kl {
                        lemma_key_lt_transitive(kx, ka, kl);
                    }
                }
            }
        } else if a == j {
            assert(t[b] == s[b - 1]);
            let kb = sort_key(s[b - 1], w);
            assert(key_lt(kx, kb));
            if key_lt(kb, kx) {
                lemma_key_lt_transitive(kx, kb, kx);
                lemma_key_lt_irreflexive(kx);
            }
        } else if a < j {
            assert(t[a] == s[a] && t[b] == s[b - 1]);
        } else {
            assert(t[a] == s[a - 1] && t[b] == s[b - 1]);
        }
    }
    assert forall|k: EventKey| #[trigger] with_key(t, w, k) == if kx == k {
        with_key(s, w, k).push(x)
    } else {
        with_key(s, w, k)
    } by {
        let p = |e: EventView| sort_key(e, w) == k;
        let lo = s.subrange(0, j);
        let hi = s.subrange(j, s.len() as int);
        assert(t =~= lo + seq![x] + hi);
        assert(s =~= lo + hi);
        Seq::filter_distributes_over_add(lo + seq![x], hi, p);
        Seq::filter_distributes_over_add(lo, seq![x], p);
        Seq::filter_distributes_over_add(lo, hi, p);
        assert(seq![x].filter(p) == if p(x) { seq![x] } else { Seq::<EventView>::empty() }) by {
            Seq::<EventView>::empty().lemma_filter_push(x, p);
            assert(Seq::<EventView>::empty().push(x) =~= seq![x]);
            assert(Seq::<EventView>::empty().filter(p) =~= Seq::<EventView>::empty()) by {
                reveal(Seq::filter);
            }
        }
        if kx == k {
            assert forall|i: int| 0 <= i < hi.len() implies !p(hi[i]) by {
                assert(hi[i] == s[j + i]);
                assert(key_lt(kx, sort_key(s[j + i], w)));
                lemma_key_lt_irreflexive(kx);
            }
            hi.lemma_all_neg_filter_empty(p);
            assert(hi.filter(p) =~= Seq::<EventView>::empty());
            assert(with_key(t, w, k) =~= with_key(s, w, k).push(x));
        } else {
            assert(with_key(t, w, k) =~= with_key(s, w, k));
        }
    }
}

/// The events whose condition holds in the world, in their order.
pub fn available_events(events: Vec<Event>, world: &World) -> (r: Vec<Event>)
    requires
        world.wf(),
        all_checkable(event_views(events@), world@),
    ensures
        event_views(r@) == available(event_views(events@), world@),
{
    let ghost orig = event_views(events@);
    let ghost w = world@;
    let mut rest = events;
    let mut out: Vec<Event> = Vec::new();
    let ghost mut done: int = 0;
    while rest.len() > 0
        invariant
            world.wf(),
            w == world@,
            all_checkable(orig, w),
            0 <= done <= orig.len(),
            event_views(rest@) == orig.subrange(done, orig.len() as int),
            event_views(out@) == available(orig.subrange(0, done), w),
        decreases rest.len(),
    {
        let ghost before = event_views(rest@);
        let ghost rest_before = rest@;
        let e = rest.remove(0);
        proof {
            assert(before[0] == e@);
            assert(before.len() == rest_before.len());
            assert(orig.subrange(done, orig.len() as int)[0] == orig[done]);
            assert(orig[done] == e@);
            assert(rest@ =~= rest_before.subrange(1, rest_before.len() as int));
            assert(event_views(rest@) =~= before.subrange(1, before.len() as int));
            assert(event_views(rest@) =~= orig.subrange(done + 1, orig.len() as int));
            assert(condition_value(orig[done].condition, w) is Ok);
        }
        let keep = e.can_be_triggered(world);
        let ghost prev = event_views(out@);
        if keep {
            out.push(e);
        }
        proof {
            let p = |x: EventView| can_trigger(x, w);
            assert(orig.subrange(0, done + 1) =~= orig.subrange(0, done).push(orig[done]));
            orig.subrange(0, done).lemma_filter_push(orig[done], p);
            if keep {
                assert(event_views(out@) =~= prev.push(e@));
            } else {
                assert(event_views(out@) =~= prev);
            }
            done = done + 1;
        }
    }
    proof {
        assert(orig.subrange(0, done) =~= orig);
    }
    out
}

/// The events whose condition holds in the world, ordered by their keys; of
/// events with the same key, the earlier comes first.
pub fn available_events_sorted(events: Vec<Event>, world: &World) -> (r: Vec<Event>)
    requires
        world.wf(),
        all_checkable(event_views(events@), world@),
    ensures
        event_views(r@).to_multiset() == available(event_views(events@), world@).to_multiset(),
        sorted_by_key(event_views(r@), world@),
        forall|k: EventKey|
            #[trigger] with_key(event_views(r@), world@, k) == with_key(
                available(event_views(events@), world@),
                world@,
                k,
            ),
{
    let avail = available_events(events, world);
    let ghost orig = event_views(avail@);
    let ghost w = world@;
    let mut rest = avail;
    let mut out: Vec<Event> = Vec::new();
    let mut keys: Vec<(usize, String, String, String)> = Vec::new();
    let ghost mut done: int = 0;
    proof {
        assert(orig.subrange(0, 0) =~= Seq::<EventView>::empty());
        assert(event_views(out@) =~= Seq::<EventView>::empty());
        assert forall|k: EventKey| #[trigger] with_key(event_views(out@), w, k) == with_key(
            orig.subrange(0, done),
            w,
            k,
        ) by {
            reveal(Seq::filter);
        }
    }
    while rest.len() > 0
        invariant
            world.wf(),
            w == world@,
            0 <= done <= orig.len(),
            event_views(rest@) == orig.subrange(done, orig.len() as int),
            keys.len() == out.len(),
            forall|i: int| 0 <= i < out.len() ==> key_of(#[trigger] keys@[i]) == sort_key(out@[i]@, w),
            sorted_by_key(event_views(out@), w),
            event_views(out@).to_multiset() == orig.subrange(0, done).to_multiset(),
            forall|k: EventKey|
                #[trigger] with_key(event_views(out@), w, k) == with_key(orig.subrange(0, done), w, k),
        decreases rest.len(),
    {
        let ghost before = event_views(rest@);
        let ghost rest_before = rest@;
        let e = rest.remove(0);
        proof {
            assert(before[0] == e@);
            assert(before.len() == rest_before.len());
            assert(orig.subrange(done, orig.len() as int)[0] == orig[done]);
            assert(orig[done] == e@);
            assert(rest@ =~= rest_before.subrange(1, rest_before.len() as int));
            assert(event_views(rest@) =~= before.subrange(1, before.len() as int));
            assert(event_views(rest@) =~= orig.subrange(done + 1, orig.len() as int));
        }
        let key = e.sort_key(world);
        let mut j = out.len();
        while j > 0 && key_less(&key, &keys[j - 1])
            invariant
                j <= out.len(),
                keys.len() == out.len(),
                forall|i: int| 0 <= i < out.len() ==> key_of(#[trigger] keys@[i]) == sort_key(out@[i]@, w),
                key_of(key) == sort_key(e@, w),
                forall|i: int| j <= i < out.len() ==> key_lt(key_of(key), key_of(#[trigger] keys@[i])),
            decreases j,
        {
            j -= 1;
        }
        let ghost prev = event_views(out@);
        let ghost pkeys = keys@;
        let ghost pout = out@;
        proof {
            assert forall|i: int| j <= i < prev.len() implies key_lt(sort_key(e@, w), #[trigger] sort_key(prev[i], w)) by {
                assert(key_lt(key_of(key), key_of(keys@[i])));
            }
            if j > 0 {
                assert(key_of(keys@[j - 1]) == sort_key(prev[j - 1], w));
            }
            lemma_insert_sorted(prev, w, e@, j as int);
        }
        out.insert(j, e);
        keys.insert(j, key);
        proof {
            let p = |x: EventView| sort_key(x, w) == sort_key(e@, w);
            assert(event_views(out@) =~= prev.insert(j as int, e@));
            assert(orig.subrange(0, done + 1) =~= orig.subrange(0, done).push(e@));
            vstd::seq_lib::to_multiset_insert(prev, j as int, e@);
            vstd::seq_lib::to_multiset_build(orig.subrange(0, done), e@);
            assert forall|i: int| 0 <= i < out.len() implies key_of(#[trigger] keys@[i]) == sort_key(out@[i]@, w) by {
                if i < j {
                    assert(keys@[i] == pkeys[i] && out@[i] == pout[i]);
                } else if i > j {
                    assert(keys@[i] == pkeys[i - 1] && out@[i] == pout[i - 1]);
                }
            }
            assert forall|k: EventKey| #[trigger] with_key(event_views(out@), w, k) == with_key(
                orig.subrange(0, done + 1),
                w,
                k,
            ) by {
                let q = |x: EventView| sort_key(x, w) == k;
                orig.subrange(0, done).lemma_filter_push(e@, q);
                assert(with_key(prev, w, k) == with_key(orig.subrange(0, done), w, k));
            }
            done = done + 1;
        }
    }
    proof {
        assert(orig.subrange(0, done) =~= orig);
    }
    out
}

} // verus!

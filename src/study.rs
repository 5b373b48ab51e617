use vstd::prelude::*;
use rand::seq::SliceRandom;
use crate::card::{can_transition, proficiency_of, transitioned, Card, Proficiency};
use crate::time::Timestamp;

verus! {

/// The two kinds of session: learning cards never studied, and reviewing cards that are due.
/// Both record verdicts the same way and hand them to the card's transition.
#[derive(Debug, Clone, Copy, PartialEq, Eq, Structural)]
pub enum SessionKind {
    Learn,
    Review,
}

impl SessionKind {
    pub open spec fn admits_spec(self, c: Card, now: Timestamp) -> bool {
        match self {
            SessionKind::Learn => proficiency_of(c.level as int) == Proficiency::Inactive,
            SessionKind::Review => c.due_at(now),
        }
    }

    /// Whether a session of this kind takes the card at `now`.
    pub fn admits(&self, c: &Card, now: Timestamp) -> (r: bool)
        ensures
            r == self.admits_spec(*c, now),
    {
        match self {
            SessionKind::Learn => c.proficiency() == Proficiency::Inactive,
            SessionKind::Review => c.is_due_in(now),
        }
    }
}

/// The cards of a working set that a session of kind `kind` takes at `now`, in order.
pub open spec fn admitted(kind: SessionKind, cards: Seq<(String, Card)>, now: Timestamp) -> Seq<
    (String, Card),
>
    decreases cards.len(),
{
    if cards.len() == 0 {
        Seq::empty()
    } else {
        let before = admitted(kind, cards.drop_last(), now);
        if kind.admits_spec(cards.last().1, now) {
            before.push(cards.last())
        } else {
            before
        }
    }
}

/// Relies on rand's `SliceRandom::shuffle` with `thread_rng`: the same elements, in an
/// order drawn at random.
#[verifier::external_body]
fn shuffle<T>(v: &mut Vec<T>)
    ensures
        final(v)@.to_multiset() == old(v)@.to_multiset(),
{
    v.shuffle(&mut rand::thread_rng());
}

/// The queue of a session: the cards that it takes, in random order, at most `count` of them
/// where a count is given.
pub fn select_cards(
    kind: SessionKind,
    cards: Vec<(String, Card)>,
    now: Timestamp,
    count: Option<usize>,
) -> (r: Vec<(String, Card)>)
    ensures
        exists|order: Seq<(String, Card)>|
            #![trigger order.to_multiset()]
            order.to_multiset() == admitted(kind, cards@, now).to_multiset() && r@ == match count {
                Some(n) => if n < order.len() {
                    order.subrange(0, n as int)
                } else {
                    order
                },
                None => order,
            },
{
    let mut chosen: Vec<(String, Card)> = Vec::new();
    let mut rest = cards;
    let ghost all = rest@;
    let ghost mut seen: Seq<(String, Card)> = Seq::empty();
    while rest.len() > 0
        invariant
            all == cards@,
            all == seen + rest@,
            chosen@ == admitted(kind, seen, now),
        decreases rest.len(),
    {
        let ghost before = rest@;
        let w = rest.remove(0);
        proof {
            assert(seen.push(w).drop_last() == seen);
            assert(seen.push(w) + rest@ =~= seen + before);
            seen = seen.push(w);
        }
        if kind.admits(&w.1, now) {
            chosen.push(w);
        }
    }
    assert(seen =~= all);
    shuffle(&mut chosen);
    match count {
        Some(n) => {
            chosen.truncate(n);
        },
        None => {},
    }
    chosen
}

/// Whether every recorded card can take its verdict at `now` without an overflow.
pub fn verdicts_fit(results: &Vec<(String, Card, bool)>, now: Timestamp) -> (r: bool)
    ensures
        r == forall|i: int|
            0 <= i < results@.len() ==> can_transition(
                (#[trigger] results@[i]).1,
                results@[i].2,
                now,
            ),
{
    if now.seconds > i64::MAX - crate::card::MAX_INTERVAL {
        assert(results@.len() > 0 ==> !can_transition(results@[0].1, results@[0].2, now));
        return results.len() == 0;
    }
    let mut i: usize = 0;
    while i < results.len()
        invariant
            i <= results.len(),
            now.seconds <= i64::MAX - crate::card::MAX_INTERVAL,
            forall|j: int|
                0 <= j < i ==> can_transition((#[trigger] results@[j]).1, results@[j].2, now),
        decreases results.len() - i,
    {
        let c = &results[i].1;
        let remembered = results[i].2;
        if c.level > 0 && (c.total_count == u32::MAX || (remembered && c.correct_count
            == u32::MAX)) {
            return false;
        }
        i = i + 1;
    }
    true
}

/// Applies to each recorded card its verdict at `now`, as `Card::review_at` does, keeping
/// each card's deck.
pub fn apply_verdicts(results: Vec<(String, Card, bool)>, now: Timestamp) -> (r: Vec<
    (String, Card),
>)
    requires
        forall|i: int|
            0 <= i < results@.len() ==> can_transition(
                (#[trigger] results@[i]).1,
                results@[i].2,
                now,
            ),
    ensures
        r@.len() == results@.len(),
        forall|i: int|
            0 <= i < r@.len() ==> (#[trigger] r@[i]).0 == results@[i].0 && transitioned(
                results@[i].1,
                results@[i].2,
                now,
                r@[i].1,
            ),
{
    let mut r: Vec<(String, Card)> = Vec::new();
    let mut rest = results;
    let ghost all = rest@;
    while rest.len() > 0
        invariant
            all == results@,
            forall|i: int|
                0 <= i < all.len() ==> can_transition((#[trigger] all[i]).1, all[i].2, now),
            r@.len() + rest@.len() == all.len(),
            rest@ == all.subrange(r@.len() as int, all.len() as int),
            forall|i: int|
                0 <= i < r@.len() ==> (#[trigger] r@[i]).0 == all[i].0 && transitioned(
                    all[i].1,
                    all[i].2,
                    now,
                    r@[i].1,
                ),
        decreases rest.len(),
    {
        let ghost k = r@.len() as int;
        let (path, mut card, remembered) = rest.remove(0);
        assert(all[k] == (path, card, remembered));
        assert(can_transition(all[k].1, all[k].2, now));
        card.review_at(remembered, now);
        r.push((path, card));
        assert(rest@ =~= all.subrange(r@.len() as int, all.len() as int));
    }
    r
}

/// Cards among `cards` that are due at `now`.
pub open spec fn due_count(cards: Seq<Card>, now: Timestamp) -> nat
    decreases cards.len(),
{
    if cards.len() == 0 {
        0
    } else {
        due_count(cards.drop_last(), now) + if cards.last().due_at(now) {
            1nat
        } else {
            0nat
        }
    }
}

/// How many of a deck's cards are due at `now`.
pub fn count_due(cards: &Vec<Card>, now: Timestamp) -> (r: usize)
    ensures
        r == due_count(cards@, now),
{
    let mut n: usize = 0;
    let mut i: usize = 0;
    while i < cards.len()
        invariant
            i <= cards.len(),
            n == due_count(cards@.subrange(0, i as int), now),
            n <= i,
        decreases cards.len() - i,
    {
        assert(cards@.subrange(0, i + 1).drop_last() == cards@.subrange(0, i as int));
        if cards[i].is_due_in(now) {
            n = n + 1;
        }
        i = i + 1;
    }
    assert(cards@.subrange(0, cards.len() as int) == cards@);
    n
}

/// Cards among `cards` that are critical.
pub open spec fn critical_count(cards: Seq<Card>) -> nat
    decreases cards.len(),
{
    if cards.len() == 0 {
        0
    } else {
        critical_count(cards.drop_last()) + if cards.last().is_critical() {
            1nat
        } else {
            0nat
        }
    }
}

/// Cards among `cards` of proficiency `p`.
pub open spec fn proficiency_count(cards: Seq<Card>, p: Proficiency) -> nat
    decreases cards.len(),
{
    if cards.len() == 0 {
        0
    } else {
        proficiency_count(cards.drop_last(), p) + if proficiency_of(cards.last().level as int)
            == p {
            1nat
        } else {
            0nat
        }
    }
}

/// How many cards are critical.
pub fn count_critical(cards: &Vec<Card>) -> (r: usize)
    ensures
        r == critical_count(cards@),
{
    let mut n: usize = 0;
    let mut i: usize = 0;
    while i < cards.len()
        invariant
            i <= cards.len(),
            n == critical_count(cards@.subrange(0, i as int)),
            n <= i,
        decreases cards.len() - i,
    {
        assert(cards@.subrange(0, i + 1).drop_last() == cards@.subrange(0, i as int));
        if cards[i].critical() {
            n = n + 1;
        }
        i = i + 1;
    }
    assert(cards@.subrange(0, cards.len() as int) == cards@);
    n
}

/// How many cards have proficiency `p`.
pub fn count_proficiency(cards: &Vec<Card>, p: Proficiency) -> (r: usize)
    ensures
        r == proficiency_count(cards@, p),
{
    let mut n: usize = 0;
    let mut i: usize = 0;
    while i < cards.len()
        invariant
            i <= cards.len(),
            n == proficiency_count(cards@.subrange(0, i as int), p),
            n <= i,
        decreases cards.len() - i,
    {
        assert(cards@.subrange(0, i + 1).drop_last() == cards@.subrange(0, i as int));
        if cards[i].proficiency() == p {
            n = n + 1;
        }
        i = i + 1;
    }
    assert(cards@.subrange(0, cards.len() as int) == cards@);
    n
}

/// The earliest due time among `cards`, if any card has one.
pub fn earliest_due(cards: &Vec<Card>) -> (r: Option<Timestamp>)
    ensures
        r.is_none() <==> forall|i: int| 0 <= i < cards@.len() ==> (#[trigger] cards@[i]).due_time.is_none(),
        r matches Some(t) ==> (exists|i: int| 0 <= i < cards@.len() && (#[trigger] cards@[i]).due_time == Some(t))
            && forall|i: int|
            0 <= i < cards@.len() ==> match (#[trigger] cards@[i]).due_time {
                Some(d) => t.at_or_before(d),
                None => true,
            },
{
    let mut best: Option<Timestamp> = None;
    let mut i: usize = 0;
    while i < cards.len()
        invariant
            i <= cards.len(),
            best.is_none() <==> forall|j: int| 0 <= j < i ==> (#[trigger] cards@[j]).due_time.is_none(),
            best matches Some(t) ==> (exists|j: int| 0 <= j < i && (#[trigger] cards@[j]).due_time == Some(t))
                && forall|j: int|
                0 <= j < i ==> match (#[trigger] cards@[j]).due_time {
                    Some(d) => t.at_or_before(d),
                    None => true,
                },
        decreases cards.len() - i,
    {
        match cards[i].due_time {
            Some(d) => {
                let replace = match best {
                    Some(t) => !t.is_at_or_before(&d),
                    None => true,
                };
                if replace {
                    best = Some(d);
                }
            },
            None => {},
        }
        i = i + 1;
    }
    best
}

} // verus!

use vstd::prelude::*;
use std::collections::VecDeque;
use crate::card::Card;

verus! {

/// The four answers that a card on show takes.
#[derive(Debug)]
pub enum Choice {
    /// Put the card at the back of the queue; it can no longer count as remembered.
    ShowAgain,
    /// Replace the card's notes and show it again at once.
    EditNotes(String),
    /// Record the card with its verdict.
    Next,
    /// Drop the card from the session without an outcome.
    Finish,
}

/// The state of a review or learn session: the cards still to show, the cards recorded with
/// their verdict, and the identities (deck path, row) of the cards that were shown again.
pub struct Session {
    queue: VecDeque<(String, Card)>,
    results: Vec<(String, Card, bool)>,
    shown_again: Vec<(String, Option<usize>)>,
}

pub struct SessionView {
    pub queue: Seq<(String, Card)>,
    pub results: Seq<(String, Card, bool)>,
    pub shown_again: Seq<(Seq<char>, Option<usize>)>,
}

impl View for Session {
    type V = SessionView;

    closed spec fn view(&self) -> SessionView {
        SessionView {
            queue: self.queue@,
            results: self.results@,
            shown_again: self.shown_again@.map_values(|e: (String, Option<usize>)| (e.0@, e.1)),
        }
    }
}

/// The identity of a working card: its deck's path and its row.
pub open spec fn key_of(w: (String, Card)) -> (Seq<char>, Option<usize>) {
    (w.0@, w.1.line_number)
}

/// The session `before` once the card at the front of its queue got `choice`; a session
/// whose queue is empty stays as it is.
pub open spec fn step(before: SessionView, choice: Choice) -> SessionView {
    if before.queue.len() == 0 {
        before
    } else {
        let head = before.queue[0];
        let rest = before.queue.drop_first();
        match choice {
            Choice::ShowAgain => SessionView {
                queue: rest.push(head),
                results: before.results,
                shown_again: if before.shown_again.contains(key_of(head)) {
                    before.shown_again
                } else {
                    before.shown_again.push(key_of(head))
                },
            },
            Choice::EditNotes(notes) => SessionView {
                queue: before.queue.update(0, (head.0, Card { notes: notes, ..head.1 })),
                results: before.results,
                shown_again: before.shown_again,
            },
            Choice::Next => SessionView {
                queue: rest,
                results: before.results.push(
                    (head.0, head.1, !before.shown_again.contains(key_of(head))),
                ),
                shown_again: before.shown_again,
            },
            Choice::Finish => SessionView {
                queue: rest,
                results: before.results,
                shown_again: before.shown_again,
            },
        }
    }
}

fn shown_before(shown: &Vec<(String, Option<usize>)>, path: &String, line: Option<usize>) -> (r:
    bool)
    ensures
        r == shown@.map_values(|e: (String, Option<usize>)| (e.0@, e.1)).contains((path@, line)),
{
    let ghost keys = shown@.map_values(|e: (String, Option<usize>)| (e.0@, e.1));
    let mut i: usize = 0;
    while i < shown.len()
        invariant
            i <= shown.len(),
            keys == shown@.map_values(|e: (String, Option<usize>)| (e.0@, e.1)),
            forall|j: int| 0 <= j < i ==> keys[j] != (path@, line),
        decreases shown.len() - i,
    {
        let same_line = match (shown[i].1, line) {
            (Some(a), Some(b)) => a == b,
            (None, None) => true,
            _ => false,
        };
        if same_line && shown[i].0 == *path {
            assert(keys[i as int] == (path@, line));
            return true;
        }
        i = i + 1;
    }
    false
}

impl Session {
    /// A session over `queue`, in the order given, with nothing recorded yet.
    pub fn new(queue: VecDeque<(String, Card)>) -> (r: Session)
        ensures
            r@.queue == queue@,
            r@.results.len() == 0,
            r@.shown_again.len() == 0,
    {
        let r = Session { queue, results: Vec::new(), shown_again: Vec::new() };
        assert(r@.shown_again =~= Seq::empty());
        r
    }

    /// The card on show, at the front of the queue; `None` once the session is over.
    pub fn current(&self) -> (r: Option<&(String, Card)>)
        ensures
            match r {
                Some(w) => self@.queue.len() > 0 && *w == self@.queue[0],
                None => self@.queue.len() == 0,
            },
    {
        if self.queue.len() > 0 {
            Some(&self.queue[0])
        } else {
            None
        }
    }

    /// How many cards are still queued, the one on show included.
    pub fn remaining(&self) -> (r: usize)
        ensures
            r == self@.queue.len(),
    {
        self.queue.len()
    }

    /// The session is over once its queue is empty.
    pub fn is_finished(&self) -> (r: bool)
        ensures
            r == (self@.queue.len() == 0),
    {
        self.queue.len() == 0
    }

    /// The cards recorded so far, each with its verdict.
    pub fn results(&self) -> (r: &Vec<(String, Card, bool)>)
        ensures
            r@ == self@.results,
    {
        &self.results
    }

    /// Ends the session, handing out the recorded cards with their verdicts.
    pub fn into_results(self) -> (r: Vec<(String, Card, bool)>)
        ensures
            r@ == self@.results,
    {
        self.results
    }

    /// Applies the answer given to the card on show.
    pub fn respond(&mut self, choice: Choice)
        requires
            old(self)@.queue.len() > 0,
        ensures
            final(self)@ == step(old(self)@, choice),
    {
        let ghost before = self@;
        let ghost c = choice;
        let head = self.queue.pop_front();
        let (path, mut card) = match head {
            Some(w) => w,
            None => {
                proof {
                    assert(false);
                }
                return;
            },
        };
        match choice {
            Choice::ShowAgain => {
                let line = card.line_number;
                if !shown_before(&self.shown_again, &path, line) {
                    let key = (path.clone(), line);
                    self.shown_again.push(key);
                }
                self.queue.push_back((path, card));
                proof {
                    assert(self@.queue =~= before.queue.drop_first().push(before.queue[0]));
                    assert(self@.shown_again =~= step(before, c).shown_again);
                }
            },
            Choice::EditNotes(notes) => {
                card.notes = notes;
                self.queue.push_front((path, card));
                proof {
                    assert(self@.shown_again =~= before.shown_again);
                    assert(self@.queue =~= before.queue.update(
                        0,
                        (before.queue[0].0, Card { notes: card.notes, ..before.queue[0].1 }),
                    ));
                }
            },
            Choice::Next => {
                let line = card.line_number;
                let remembered = !shown_before(&self.shown_again, &path, line);
                self.results.push((path, card, remembered));
                proof {
                    assert(self@.queue =~= before.queue.drop_first());
                }
            },
            Choice::Finish => {
                proof {
                    assert(self@.queue =~= before.queue.drop_first());
                }
            },
        }
    }
}

/// The session `start` after the first `n` of `choices`.
pub open spec fn run_to(start: SessionView, choices: Seq<Choice>, n: int) -> SessionView
    decreases n,
{
    if n <= 0 {
        start
    } else {
        step(run_to(start, choices, n - 1), choices[n - 1])
    }
}

/// Choice `j` was show-again, given while the card with identity `k` was on show.
pub open spec fn shown_again_at(
    start: SessionView,
    choices: Seq<Choice>,
    j: int,
    k: (Seq<char>, Option<usize>),
) -> bool {
    &&& choices[j] is ShowAgain
    &&& run_to(start, choices, j).queue.len() > 0
    &&& key_of(run_to(start, choices, j).queue[0]) == k
}

/// Show-again was chosen on the identity `k` among the first `n` choices.
pub open spec fn shown_again_before(
    start: SessionView,
    choices: Seq<Choice>,
    n: int,
    k: (Seq<char>, Option<usize>),
) -> bool {
    exists|j: int| 0 <= j < n && #[trigger] shown_again_at(start, choices, j, k)
}

/// Result `i` of the session after `n` choices was recorded by choice `m`: a `Next` given
/// while its card was on show, with the verdict `false` exactly when show-again had been
/// chosen on that card's identity before.
pub open spec fn recorded_at(start: SessionView, choices: Seq<Choice>, n: int, m: int, i: int) -> bool {
    let at = run_to(start, choices, m);
    &&& 0 <= m < n
    &&& choices[m] is Next
    &&& at.queue.len() > 0
    &&& at.results.len() == i
    &&& run_to(start, choices, n).results[i] == (
        at.queue[0].0,
        at.queue[0].1,
        !shown_again_before(start, choices, m, key_of(at.queue[0])),
    )
}

/// Result `i` of the session after `n` choices was recorded by one of those choices, as
/// `recorded_at` says.
pub open spec fn was_recorded(start: SessionView, choices: Seq<Choice>, n: int, i: int) -> bool {
    exists|m: int| #[trigger] recorded_at(start, choices, n, m, i)
}

/// From a session with no identity shown again, after any `n` choices an identity has been
/// shown again exactly when show-again was chosen on it.
pub proof fn lemma_shown_again_records_choices(start: SessionView, choices: Seq<Choice>, n: int)
    requires
        start.shown_again.len() == 0,
        0 <= n <= choices.len(),
    ensures
        forall|k: (Seq<char>, Option<usize>)|
            #[trigger] run_to(start, choices, n).shown_again.contains(k) <==> shown_again_before(
                start,
                choices,
                n,
                k,
            ),
    decreases n,
{
    if n > 0 {
        lemma_shown_again_records_choices(start, choices, n - 1);
        let prev = run_to(start, choices, n - 1);
        let cur = run_to(start, choices, n);
        assert(cur == step(prev, choices[n - 1]));
        assert forall|k: (Seq<char>, Option<usize>)|
            #[trigger] cur.shown_again.contains(k) <==> shown_again_before(start, choices, n, k) by {
            if shown_again_before(start, choices, n - 1, k) {
                let j = choose|j: int| 0 <= j < n - 1 && #[trigger] shown_again_at(start, choices, j, k);
                assert(shown_again_at(start, choices, j, k));
            }
            if shown_again_before(start, choices, n, k) {
                let j = choose|j: int| 0 <= j < n && #[trigger] shown_again_at(start, choices, j, k);
                if j < n - 1 {
                    assert(shown_again_before(start, choices, n - 1, k));
                }
            }
            if shown_again_at(start, choices, n - 1, k) {
                assert(shown_again_before(start, choices, n, k));
            }
            if prev.queue.len() > 0 && choices[n - 1] is ShowAgain {
                let key = key_of(prev.queue[0]);
                if !prev.shown_again.contains(key) {
                    if cur.shown_again.contains(k) && !prev.shown_again.contains(k) {
                        let i = choose|i: int| 0 <= i < cur.shown_again.len() && cur.shown_again[i] == k;
                        if i < prev.shown_again.len() {
                            assert(prev.shown_again[i] == k);
                        }
                    }
                    if prev.shown_again.contains(k) {
                        let i = choose|i: int| 0 <= i < prev.shown_again.len() && prev.shown_again[i] == k;
                        assert(cur.shown_again[i] == k);
                    }
                    assert(cur.shown_again[cur.shown_again.len() - 1] == key);
                }
            }
        }
    }
}

/// The verdicts of a session follow the answers given: from a fresh session, after any `n`
/// choices, each recorded card was recorded by a `Next` given while it was on show, and its
/// verdict is `false` exactly when show-again had been chosen on its identity before that.
pub proof fn lemma_verdicts_follow_show_again(start: SessionView, choices: Seq<Choice>, n: int)
    requires
        start.results.len() == 0,
        start.shown_again.len() == 0,
        0 <= n <= choices.len(),
    ensures
        forall|i: int|
            0 <= i < run_to(start, choices, n).results.len() ==> #[trigger] was_recorded(
                start,
                choices,
                n,
                i,
            ),
    decreases n,
{
    if n > 0 {
        lemma_verdicts_follow_show_again(start, choices, n - 1);
        lemma_shown_again_records_choices(start, choices, n - 1);
        let prev = run_to(start, choices, n - 1);
        let cur = run_to(start, choices, n);
        assert(cur == step(prev, choices[n - 1]));
        assert forall|i: int| 0 <= i < cur.results.len() implies #[trigger] was_recorded(
            start,
            choices,
            n,
            i,
        ) by {
            if i < prev.results.len() {
                assert(was_recorded(start, choices, n - 1, i));
                let m = choose|m: int| #[trigger] recorded_at(start, choices, n - 1, m, i);
                assert(cur.results[i] == prev.results[i]);
                assert(recorded_at(start, choices, n, m, i));
            } else {
                let head = prev.queue[0];
                assert(prev.shown_again.contains(key_of(head)) == shown_again_before(
                    start,
                    choices,
                    n - 1,
                    key_of(head),
                ));
                assert(recorded_at(start, choices, n, n - 1, i));
            }
        }
    }
}

} // verus!

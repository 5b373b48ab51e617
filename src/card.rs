use vstd::prelude::*;
use crate::time::{now, Timestamp};

verus! {

/// Seconds in an hour and in a day.
pub const HOUR: i64 = 3600;
pub const DAY: i64 = 86400;

/// The longest interval of the ladder, reached from level 9 on.
pub const MAX_INTERVAL: i64 = 15724800;

/// How well a card is known, derived from its level.
#[derive(Debug, Clone, Copy, PartialEq, Eq, Structural, PartialOrd, Ord, Hash)]
pub enum Proficiency {
    Inactive,
    Apprentice,
    Guru,
    Master,
    Enlightened,
    Burned,
}

/// The proficiency ladder: 0 and below, 1..4, 5..6, 7, 8, 9 and above.
pub open spec fn proficiency_of(level: int) -> Proficiency {
    if level <= 0 {
        Proficiency::Inactive
    } else if level <= 4 {
        Proficiency::Apprentice
    } else if level <= 6 {
        Proficiency::Guru
    } else if level <= 7 {
        Proficiency::Master
    } else if level <= 8 {
        Proficiency::Enlightened
    } else {
        Proficiency::Burned
    }
}

pub open spec fn proficiency_label(p: Proficiency) -> Seq<char> {
    match p {
        Proficiency::Inactive => "Inactive"@,
        Proficiency::Apprentice => "Apprentice"@,
        Proficiency::Guru => "Guru"@,
        Proficiency::Master => "Master"@,
        Proficiency::Enlightened => "Enlightened"@,
        Proficiency::Burned => "Burned"@,
    }
}

impl Proficiency {
    /// The name under which the proficiency is shown.
    pub fn label(&self) -> (r: &'static str)
        ensures
            r@ == proficiency_label(*self),
    {
        match self {
            Proficiency::Inactive => "Inactive",
            Proficiency::Apprentice => "Apprentice",
            Proficiency::Guru => "Guru",
            Proficiency::Master => "Master",
            Proficiency::Enlightened => "Enlightened",
            Proficiency::Burned => "Burned",
        }
    }
}

/// Every proficiency, from the lowest to the highest.
pub fn list_proficiencies() -> (r: Vec<Proficiency>)
    ensures
        r@ == seq![
            Proficiency::Inactive,
            Proficiency::Apprentice,
            Proficiency::Guru,
            Proficiency::Master,
            Proficiency::Enlightened,
            Proficiency::Burned,
        ],
{
    vec![
        Proficiency::Inactive,
        Proficiency::Apprentice,
        Proficiency::Guru,
        Proficiency::Master,
        Proficiency::Enlightened,
        Proficiency::Burned,
    ]
}

/// The review interval, in seconds, that follows reaching `level`; defined from level 1 on.
pub open spec fn interval_of(level: int) -> int
    recommends
        level >= 1,
{
    if level == 1 {
        4 * (HOUR as int)
    } else if level == 2 {
        8 * (HOUR as int)
    } else if level == 3 {
        DAY as int
    } else if level == 4 {
        3 * (DAY as int)
    } else if level == 5 {
        7 * (DAY as int)
    } else if level == 6 {
        14 * (DAY as int)
    } else if level == 7 {
        30 * (DAY as int)
    } else if level == 8 {
        122 * (DAY as int)
    } else {
        182 * (DAY as int)
    }
}

/// The interval of the ladder for a level of 1 or more.
pub fn due_interval(level: i8) -> (r: i64)
    requires
        level >= 1,
    ensures
        r == interval_of(level as int),
        0 < r <= MAX_INTERVAL,
{
    match level {
        1 => 4 * HOUR,
        2 => 8 * HOUR,
        3 => DAY,
        4 => 3 * DAY,
        5 => 7 * DAY,
        6 => 14 * DAY,
        7 => 30 * DAY,
        8 => 122 * DAY,
        _ => 182 * DAY,
    }
}

/// The level that a transition leads to: a learnt card starts at 1; a review climbs
/// one step (up to 9) when remembered and falls two (down to 1) when not.
pub open spec fn next_level(level: int, remembered: bool) -> int {
    if level <= 0 {
        1
    } else if remembered {
        if level + 1 < 9 { level + 1 } else { 9 }
    } else {
        if level - 2 > 1 { level - 2 } else { 1 }
    }
}

/// A flashcard with its schedule. `line_number` is the card's row in its deck when it
/// was loaded, and `None` for a card that was never saved.
#[derive(Debug, Clone)]
pub struct Card {
    pub line_number: Option<usize>,
    pub front: String,
    pub back: String,
    pub notes: String,
    pub level: i8,
    pub due_time: Option<Timestamp>,
    pub correct_count: u32,
    pub total_count: u32,
}

/// `after` is `before` once a verdict was applied at `now`: the level moves along the
/// ladder, the card falls due one interval of its new level after `now`, and a review
/// (not a first learning) counts the answer.
pub open spec fn transitioned(before: Card, remembered: bool, now: Timestamp, after: Card) -> bool {
    &&& after.level == next_level(before.level as int, remembered)
    &&& after.due_time == Some(now.later_by(interval_of(after.level as int)))
    &&& after.correct_count == (if before.level > 0 && remembered {
        before.correct_count + 1
    } else {
        before.correct_count as int
    })
    &&& after.total_count == (if before.level > 0 {
        before.total_count + 1
    } else {
        before.total_count as int
    })
    &&& after.line_number == before.line_number
    &&& after.front == before.front
    &&& after.back == before.back
    &&& after.notes == before.notes
}

/// A transition at `now` cannot overflow: the latest due time fits, and so do the counters
/// that a review raises.
pub open spec fn can_transition(c: Card, remembered: bool, now: Timestamp) -> bool {
    &&& now.seconds <= i64::MAX - MAX_INTERVAL
    &&& c.level > 0 ==> c.total_count < u32::MAX
    &&& c.level > 0 && remembered ==> c.correct_count < u32::MAX
}

/// What `review_checked` does at `now`: the verdict applies exactly when `now` leaves room
/// for the longest interval, and otherwise the card stays as it was.
pub open spec fn reviewed_at(before: Card, remembered: bool, now: Timestamp, done: bool, after: Card) -> bool {
    &&& done == (now.seconds <= i64::MAX - MAX_INTERVAL)
    &&& done ==> transitioned(before, remembered, now, after)
    &&& !done ==> after == before
}

impl Card {
    /// A card that was never studied.
    pub fn new(front: String, back: String, notes: String) -> (r: Card)
        ensures
            r.front == front,
            r.back == back,
            r.notes == notes,
            r.line_number.is_none(),
            r.level == 0,
            r.due_time.is_none(),
            r.correct_count == 0,
            r.total_count == 0,
    {
        Card {
            line_number: None,
            front,
            back,
            notes,
            level: 0,
            due_time: None,
            correct_count: 0,
            total_count: 0,
        }
    }

    /// A copy of the card, field for field.
    pub fn duplicate(&self) -> (r: Card)
        ensures
            r == *self,
    {
        Card {
            line_number: self.line_number,
            front: self.front.clone(),
            back: self.back.clone(),
            notes: self.notes.clone(),
            level: self.level,
            due_time: self.due_time,
            correct_count: self.correct_count,
            total_count: self.total_count,
        }
    }

    pub fn proficiency(&self) -> (r: Proficiency)
        ensures
            r == proficiency_of(self.level as int),
    {
        if self.level <= 0 {
            Proficiency::Inactive
        } else if self.level <= 4 {
            Proficiency::Apprentice
        } else if self.level <= 6 {
            Proficiency::Guru
        } else if self.level <= 7 {
            Proficiency::Master
        } else if self.level <= 8 {
            Proficiency::Enlightened
        } else {
            Proficiency::Burned
        }
    }

    /// The share of reviews answered correctly, as the fraction
    /// (correct_count, total_count); `None` before the first review.
    pub fn correctness(&self) -> (r: Option<(u32, u32)>)
        ensures
            r == (if self.total_count == 0 {
                None
            } else {
                Some((self.correct_count, self.total_count))
            }),
    {
        if self.total_count == 0 {
            None
        } else {
            Some((self.correct_count, self.total_count))
        }
    }

    pub open spec fn is_critical(self) -> bool {
        &&& proficiency_of(self.level as int) == Proficiency::Apprentice
        &&& self.total_count > 0
        &&& 4 * self.correct_count < 3 * self.total_count
    }

    /// An apprentice card that was reviewed and answered correctly less than three times in four.
    pub fn critical(&self) -> (r: bool)
        ensures
            r == self.is_critical(),
    {
        self.proficiency() == Proficiency::Apprentice && self.total_count > 0 && 4 * (
        self.correct_count as u64) < 3 * (self.total_count as u64)
    }

    pub open spec fn due_at(self, t: Timestamp) -> bool {
        match self.due_time {
            Some(d) => d.at_or_before(t),
            None => false,
        }
    }

    /// The card has a due time and it has arrived by `t`.
    pub fn is_due_in(&self, t: Timestamp) -> (r: bool)
        ensures
            r == self.due_at(t),
    {
        match &self.due_time {
            Some(d) => d.is_at_or_before(&t),
            None => false,
        }
    }

    /// Applies a verdict at `now`. An inactive card is learnt: level 1, its counters left
    /// as they are. Any other card is reviewed: its level climbs or falls along the ladder,
    /// `total_count` counts the review and `correct_count` a remembered one. Either way the
    /// card falls due one interval of its new level after `now`.
    pub fn review_at(&mut self, remembered: bool, now: Timestamp)
        requires
            can_transition(*old(self), remembered, now),
        ensures
            transitioned(*old(self), remembered, now, *final(self)),
    {
        if self.level <= 0 {
            self.level = 1;
        } else {
            if remembered {
                self.level = if self.level < 8 { self.level + 1 } else { 9 };
                self.correct_count = self.correct_count + 1;
            } else {
                self.level = if self.level > 3 { self.level - 2 } else { 1 };
            }
            self.total_count = self.total_count + 1;
        }
        let interval = due_interval(self.level);
        self.due_time = Some(now.add_seconds(interval));
    }

    /// Applies a verdict at `now` where the due time that follows fits: returns `true` and
    /// transitions the card as `review_at` does when `now` leaves room for the longest
    /// interval, and otherwise returns `false` and leaves the card as it was.
    pub fn review_checked(&mut self, remembered: bool, now: Timestamp) -> (done: bool)
        requires
            old(self).level > 0 ==> old(self).total_count < u32::MAX,
            old(self).level > 0 && remembered ==> old(self).correct_count < u32::MAX,
        ensures
            reviewed_at(*old(self), remembered, now, done, *final(self)),
    {
        if now.seconds <= i64::MAX - MAX_INTERVAL {
            self.review_at(remembered, now);
            true
        } else {
            false
        }
    }

    /// Applies a verdict at the current time, as `review_checked` does with the clock's reading.
    pub fn review(&mut self, remembered: bool) -> (done: bool)
        requires
            old(self).level > 0 ==> old(self).total_count < u32::MAX,
            old(self).level > 0 && remembered ==> old(self).correct_count < u32::MAX,
        ensures
            exists|t: Timestamp| reviewed_at(*old(self), remembered, t, done, *final(self)),
    {
        let t = now();
        let done = self.review_checked(remembered, t);
        assert(reviewed_at(*old(self), remembered, t, done, *self));
        done
    }

    /// The card is due now.
    pub fn is_due(&self) -> (r: bool)
        ensures
            r ==> self.due_time.is_some(),
    {
        self.is_due_in(now())
    }
}

/// The ladder of review intervals: 4 and 8 hours for levels 1 and 2; 1, 3, 7, 14, 30 and 122
/// days for levels 3 to 8; 182 days from level 9 on.
pub proof fn lemma_interval_ladder()
    ensures
        interval_of(1) == 4 * 3600,
        interval_of(2) == 8 * 3600,
        interval_of(3) == 86400,
        interval_of(4) == 3 * 86400,
        interval_of(5) == 7 * 86400,
        interval_of(6) == 14 * 86400,
        interval_of(7) == 30 * 86400,
        interval_of(8) == 122 * 86400,
        forall|level: int| level >= 9 ==> #[trigger] interval_of(level) == 182 * 86400,
{
}

/// A forgotten card falls two levels but not below 1, a remembered one climbs one level but
/// not above 9, and an inactive card goes to level 1 whatever the verdict, its counters
/// untouched.
pub proof fn lemma_transition_levels(before: Card, remembered: bool, now: Timestamp, after: Card)
    requires
        transitioned(before, remembered, now, after),
    ensures
        before.level >= 1 && !remembered ==> after.level == if before.level - 2 > 1 {
            before.level - 2
        } else {
            1
        },
        before.level >= 1 && remembered ==> after.level == if before.level + 1 < 9 {
            before.level + 1
        } else {
            9
        },
        before.level <= 0 ==> after.level == 1 && after.correct_count == before.correct_count
            && after.total_count == before.total_count,
{
}

} // verus!

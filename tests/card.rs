use recall::card::{due_interval, list_proficiencies, Card, Proficiency};
use recall::time::Timestamp;

fn card_at(level: i8, correct: u32, total: u32) -> Card {
    let mut c = Card::new("front".to_string(), "back".to_string(), "notes".to_string());
    c.level = level;
    c.correct_count = correct;
    c.total_count = total;
    if level > 0 {
        c.due_time = Some(Timestamp { seconds: 1_000, nanos: 0 });
    }
    c
}

const NOW: Timestamp = Timestamp { seconds: 1_700_000_000, nanos: 250 };

#[test]
fn interval_ladder_matches_levels_one_to_nine() {
    let expected: [i64; 9] = [
        4 * 3600,
        8 * 3600,
        86400,
        3 * 86400,
        7 * 86400,
        14 * 86400,
        30 * 86400,
        122 * 86400,
        182 * 86400,
    ];
    for (i, want) in expected.iter().enumerate() {
        assert_eq!(due_interval(i as i8 + 1), *want);
    }
    assert_eq!(due_interval(50), 182 * 86400);
}

#[test]
fn new_card_is_blank() {
    let c = Card::new("a".to_string(), "b".to_string(), "c".to_string());
    assert_eq!(c.level, 0);
    assert_eq!(c.due_time, None);
    assert_eq!(c.correct_count, 0);
    assert_eq!(c.total_count, 0);
    assert_eq!(c.line_number, None);
    assert_eq!(c.proficiency(), Proficiency::Inactive);
}

#[test]
fn proficiency_follows_the_level_ladder() {
    let cases: [(i8, Proficiency); 11] = [
        (-3, Proficiency::Inactive),
        (0, Proficiency::Inactive),
        (1, Proficiency::Apprentice),
        (4, Proficiency::Apprentice),
        (5, Proficiency::Guru),
        (6, Proficiency::Guru),
        (7, Proficiency::Master),
        (8, Proficiency::Enlightened),
        (9, Proficiency::Burned),
        (12, Proficiency::Burned),
        (127, Proficiency::Burned),
    ];
    for (level, want) in cases.iter() {
        assert_eq!(card_at(*level, 0, 0).proficiency(), *want);
    }
}

#[test]
fn proficiencies_are_listed_in_order() {
    assert_eq!(
        list_proficiencies(),
        vec![
            Proficiency::Inactive,
            Proficiency::Apprentice,
            Proficiency::Guru,
            Proficiency::Master,
            Proficiency::Enlightened,
            Proficiency::Burned
        ]
    );
    assert_eq!(Proficiency::Enlightened.label(), "Enlightened");
    assert_eq!(Proficiency::Inactive.label(), "Inactive");
}

#[test]
fn learning_sets_level_one_and_keeps_counters() {
    for remembered in [true, false] {
        let mut c = card_at(0, 2, 5);
        c.review_at(remembered, NOW);
        assert_eq!(c.level, 1);
        assert_eq!(c.correct_count, 2);
        assert_eq!(c.total_count, 5);
        assert_eq!(c.due_time, Some(Timestamp { seconds: NOW.seconds + 4 * 3600, nanos: 250 }));
    }
}

#[test]
fn forgetting_drops_two_levels_but_not_below_one() {
    let mut c = card_at(5, 3, 4);
    c.review_at(false, NOW);
    assert_eq!(c.level, 3);
    assert_eq!(c.correct_count, 3);
    assert_eq!(c.total_count, 5);
    assert_eq!(c.due_time, Some(Timestamp { seconds: NOW.seconds + 86400, nanos: 250 }));

    let mut c = card_at(2, 0, 1);
    c.review_at(false, NOW);
    assert_eq!(c.level, 1);
    assert_eq!(c.due_time, Some(Timestamp { seconds: NOW.seconds + 4 * 3600, nanos: 250 }));
}

#[test]
fn remembering_climbs_one_level_up_to_nine() {
    let mut c = card_at(8, 1, 1);
    c.review_at(true, NOW);
    assert_eq!(c.level, 9);
    assert_eq!(c.correct_count, 2);
    assert_eq!(c.total_count, 2);
    assert_eq!(c.due_time, Some(Timestamp { seconds: NOW.seconds + 182 * 86400, nanos: 250 }));

    let mut c = card_at(9, 0, 0);
    c.review_at(true, NOW);
    assert_eq!(c.level, 9);

    let mut c = card_at(3, 0, 0);
    c.review_at(true, NOW);
    assert_eq!(c.level, 4);
    assert_eq!(c.due_time, Some(Timestamp { seconds: NOW.seconds + 3 * 86400, nanos: 250 }));
}

#[test]
fn review_with_the_clock_schedules_the_card() {
    let mut c = card_at(0, 0, 0);
    assert!(c.review(true));
    assert_eq!(c.level, 1);
    assert!(c.due_time.is_some());
    assert!(!c.is_due());
}

#[test]
fn correctness_is_absent_before_any_review() {
    assert_eq!(card_at(3, 0, 0).correctness(), None);
    assert_eq!(card_at(3, 3, 4).correctness(), Some((3, 4)));
    assert_eq!(card_at(3, 0, 7).correctness(), Some((0, 7)));
}

#[test]
fn critical_only_for_struggling_apprentice_cards() {
    assert!(card_at(2, 2, 4).critical());
    assert!(card_at(4, 0, 1).critical());
    assert!(!card_at(2, 3, 4).critical());
    assert!(!card_at(2, 0, 0).critical());
    assert!(!card_at(5, 0, 4).critical());
    assert!(!card_at(9, 0, 4).critical());
    assert!(!card_at(0, 0, 4).critical());
}

#[test]
fn due_means_the_due_time_has_arrived() {
    let c = card_at(3, 0, 0);
    assert!(c.is_due_in(Timestamp { seconds: 1_000, nanos: 0 }));
    assert!(c.is_due_in(Timestamp { seconds: 2_000, nanos: 0 }));
    assert!(!c.is_due_in(Timestamp { seconds: 999, nanos: 999_999_999 }));
    assert!(!card_at(0, 0, 0).is_due_in(NOW));
    let mut leap = card_at(3, 0, 0);
    leap.due_time = Some(Timestamp { seconds: 59, nanos: 1_500_000_000 });
    assert!(!leap.is_due_in(Timestamp { seconds: 59, nanos: 999_999_999 }));
    assert!(leap.is_due_in(Timestamp { seconds: 60, nanos: 0 }));
}

#[test]
fn duplicate_copies_every_field() {
    let mut c = card_at(4, 1, 2);
    c.line_number = Some(7);
    let d = c.duplicate();
    assert_eq!(d.front, c.front);
    assert_eq!(d.notes, c.notes);
    assert_eq!(d.line_number, Some(7));
    assert_eq!(d.due_time, c.due_time);
    assert_eq!(d.total_count, 2);
}

#[test]
fn review_checked_refuses_a_clock_without_room() {
    let mut c = card_at(4, 1, 2);
    assert!(c.review_checked(false, NOW));
    assert_eq!(c.level, 2);
    assert_eq!(c.total_count, 3);
    assert_eq!(c.due_time, Some(Timestamp { seconds: NOW.seconds + 8 * 3600, nanos: 250 }));

    let late = Timestamp { seconds: i64::MAX - 100, nanos: 0 };
    let mut d = card_at(4, 1, 2);
    assert!(!d.review_checked(true, late));
    assert_eq!(d.level, 4);
    assert_eq!(d.correct_count, 1);
    assert_eq!(d.total_count, 2);
    assert_eq!(d.due_time, Some(Timestamp { seconds: 1_000, nanos: 0 }));

    let edge = Timestamp { seconds: i64::MAX - 182 * 86400, nanos: 0 };
    let mut e = card_at(0, 0, 0);
    assert!(e.review_checked(true, edge));
    assert_eq!(e.level, 1);
}

#[test]
fn seconds_until_counts_whole_seconds_ahead() {
    let a = Timestamp { seconds: 100, nanos: 500_000_000 };
    assert_eq!(a.seconds_until(&Timestamp { seconds: 103, nanos: 400_000_000 }), Some(2));
    assert_eq!(a.seconds_until(&Timestamp { seconds: 103, nanos: 500_000_000 }), Some(3));
    assert_eq!(a.seconds_until(&a), Some(0));
    assert_eq!(a.seconds_until(&Timestamp { seconds: 100, nanos: 499_999_999 }), None);
    let far = Timestamp { seconds: i64::MIN, nanos: 0 };
    assert_eq!(far.seconds_until(&Timestamp { seconds: i64::MAX, nanos: 0 }), Some(u64::MAX as u128));
}

use recall::card::Card;
use recall::deck::{get_lists, is_deck_file, list_exists, List};
use recall::row::{card_from_fields, card_line, cards_from_lines, lines_of_cards, Field};
use recall::time::Timestamp;

fn card(front: &str, back: &str, notes: &str) -> Card {
    Card::new(front.to_string(), back.to_string(), notes.to_string())
}

#[test]
fn deck_name_is_the_file_stem() {
    let l = List::new("./words.jsonl", false).unwrap();
    assert_eq!(l.name(), "words");
    assert_eq!(l.path(), "./words.jsonl");
    assert!(List::new("./words.jsonl", true).is_none());
    assert!(List::new("", false).is_none());
}

#[test]
fn deck_files_are_recognised_by_extension() {
    assert!(is_deck_file("./a.jsonl"));
    assert!(!is_deck_file("./a.json"));
    assert!(!is_deck_file("./jsonl"));
    let entries = vec![
        ("./b.jsonl".to_string(), false),
        ("./notes.txt".to_string(), false),
        ("./dir.jsonl".to_string(), true),
        ("./a.jsonl".to_string(), false),
    ];
    let lists = get_lists(entries);
    let names: Vec<&str> = lists.iter().map(|l| l.name()).collect();
    assert_eq!(names, vec!["b", "a"]);
    assert!(list_exists(&lists, "a"));
    assert!(!list_exists(&lists, "dir"));
    assert!(!list_exists(&lists, "notes"));
}

#[test]
fn a_card_is_written_as_a_positional_row() {
    let mut c = card("hund", "dog", "");
    assert_eq!(card_line(&c), r#"["hund","dog","",0,null,0,0]"#);
    c.level = 3;
    c.due_time = Some(Timestamp { seconds: 0, nanos: 0 });
    c.correct_count = 2;
    c.total_count = 5;
    assert_eq!(card_line(&c), r#"["hund","dog","",3,"1970-01-01T00:00:00+00:00",2,5]"#);
}

#[test]
fn save_then_load_reproduces_the_cards() {
    let mut a = card("κατάλογος", "catalogue \"quoted\"", "line one\nline two");
    a.level = 7;
    a.due_time = Some(Timestamp { seconds: 1_700_000_123, nanos: 456_789_000 });
    a.correct_count = 11;
    a.total_count = 12;
    let mut b = card("", "", "");
    b.level = -2;
    let c = card("猫", "cat", "🐈");
    let saved = vec![a.clone(), b.clone(), c.clone()];
    let lines = lines_of_cards(&saved);
    assert_eq!(lines.len(), 3);
    let loaded = cards_from_lines(&lines);
    assert_eq!(loaded.len(), 3);
    for (i, (got, want)) in loaded.iter().zip(saved.iter()).enumerate() {
        assert_eq!(got.front, want.front);
        assert_eq!(got.back, want.back);
        assert_eq!(got.notes, want.notes);
        assert_eq!(got.level, want.level);
        assert_eq!(got.due_time, want.due_time);
        assert_eq!(got.correct_count, want.correct_count);
        assert_eq!(got.total_count, want.total_count);
        assert_eq!(got.line_number, Some(i));
    }
}

#[test]
fn save_then_load_of_an_empty_deck() {
    let lines = lines_of_cards(&Vec::new());
    assert!(lines.is_empty());
    assert!(cards_from_lines(&lines).is_empty());
}

#[test]
fn malformed_lines_are_skipped() {
    let lines = vec![
        r#"["a","b","c",1,null,0,0]"#.to_string(),
        "".to_string(),
        "not json".to_string(),
        r#"{"front":"x"}"#.to_string(),
        r#"["d"]"#.to_string(),
    ];
    let cards = cards_from_lines(&lines);
    assert_eq!(cards.len(), 2);
    assert_eq!(cards[0].front, "a");
    assert_eq!(cards[0].level, 1);
    assert_eq!(cards[0].line_number, Some(0));
    assert_eq!(cards[1].front, "d");
    assert_eq!(cards[1].back, "");
    assert_eq!(cards[1].line_number, Some(1));
}

#[test]
fn unreadable_fields_fall_back_to_defaults() {
    let lines = vec![
        r#"[1,"b",null,300,"yesterday",-1,4294967296]"#.to_string(),
        r#"["a","b","c",-128,"2024-02-29T12:30:00+02:00",4294967295,2.0]"#.to_string(),
    ];
    let cards = cards_from_lines(&lines);
    assert_eq!(cards.len(), 2);
    assert_eq!(cards[0].front, "");
    assert_eq!(cards[0].back, "b");
    assert_eq!(cards[0].notes, "");
    assert_eq!(cards[0].level, 0);
    assert_eq!(cards[0].due_time, None);
    assert_eq!(cards[0].correct_count, 0);
    assert_eq!(cards[0].total_count, 0);
    assert_eq!(cards[1].level, -128);
    assert_eq!(cards[1].due_time, Some(Timestamp { seconds: 1_709_202_600, nanos: 0 }));
    assert_eq!(cards[1].correct_count, 4_294_967_295);
    assert_eq!(cards[1].total_count, 0);
}

#[test]
fn card_from_fields_reads_by_position() {
    let fields = vec![
        Field::Text("f".to_string()),
        Field::Number(Some(5)),
        Field::Text("n".to_string()),
        Field::Number(Some(4)),
        Field::Other,
        Field::Number(None),
        Field::Number(Some(9)),
    ];
    let c = card_from_fields(&fields);
    assert_eq!(c.front, "f");
    assert_eq!(c.back, "");
    assert_eq!(c.notes, "n");
    assert_eq!(c.level, 4);
    assert_eq!(c.due_time, None);
    assert_eq!(c.correct_count, 0);
    assert_eq!(c.total_count, 9);
    assert_eq!(c.line_number, None);
}

use vstd::prelude::*;
use crate::card::Card;
use crate::time::{format_rfc3339, parse_rfc3339, rfc3339_instant, rfc3339_text, instant_pair, Timestamp};

verus! {

/// One value of a deck row as the decoder sees it: a string, a number (with its value
/// where that is an integer that fits an `i64`), or anything else.
#[derive(Debug)]
pub enum Field {
    Text(String),
    Number(Option<i64>),
    Other,
}

/// The mathematical value of a `Field`.
pub enum FieldView {
    Text(Seq<char>),
    Number(Option<i64>),
    Other,
}

impl View for Field {
    type V = FieldView;

    open spec fn view(&self) -> FieldView {
        match self {
            Field::Text(s) => FieldView::Text(s@),
            Field::Number(n) => FieldView::Number(*n),
            Field::Other => FieldView::Other,
        }
    }
}

pub open spec fn fields_view(fs: Seq<Field>) -> Seq<FieldView> {
    fs.map_values(|f: Field| f@)
}

/// The values of the JSON array that `serde_json::from_str` reads from a line, or `None`
/// where the line is no JSON array.
pub uninterp spec fn json_row_of(line: Seq<char>) -> Option<Seq<FieldView>>;

/// The line that `serde_json::to_string` writes for the row
/// `[front, back, notes, level, due, correct, total]`, with `null` for a missing due time.
pub uninterp spec fn row_json_of(
    front: Seq<char>,
    back: Seq<char>,
    notes: Seq<char>,
    level: i8,
    due: Option<Seq<char>>,
    correct: u32,
    total: u32,
) -> Seq<char>;

pub open spec fn option_fields_view(r: Option<Vec<Field>>) -> Option<Seq<FieldView>> {
    match r {
        Some(v) => Some(fields_view(v@)),
        None => None,
    }
}

/// Relies on `serde_json::from_str` into a `Vec<serde_json::Value>`, and on
/// `serde_json::Number::as_i64` for numbers: the array's values, one field each.
#[verifier::external_body]
fn parse_row(line: &str) -> (r: Option<Vec<Field>>)
    ensures
        option_fields_view(r) == json_row_of(line@),
{
    let values: Vec<serde_json::Value> = serde_json::from_str(line).ok()?;
    Some(values.into_iter().map(|v| match v {
        serde_json::Value::String(s) => Field::Text(s),
        serde_json::Value::Number(n) => Field::Number(n.as_i64()),
        _ => Field::Other,
    }).collect())
}

/// Relies on `serde_json::to_string` of a tuple, which it writes as a JSON array.
#[verifier::external_body]
fn row_json(
    front: &str,
    back: &str,
    notes: &str,
    level: i8,
    due: Option<String>,
    correct: u32,
    total: u32,
) -> (r: String)
    ensures
        r@ == row_json_of(front@, back@, notes@, level, crate::time::text_view(due), correct, total),
{
    serde_json::to_string(&(front, back, notes, level, due, correct, total)).unwrap_or_default()
}

/// The text at position `i` of a row, empty where it is missing or no string.
pub open spec fn text_at(fs: Seq<FieldView>, i: int) -> Seq<char> {
    if 0 <= i < fs.len() {
        match fs[i] {
            FieldView::Text(s) => s,
            _ => Seq::empty(),
        }
    } else {
        Seq::empty()
    }
}

/// The integer at position `i` of a row, 0 where it is missing or outside `lo..=hi`.
pub open spec fn int_at(fs: Seq<FieldView>, i: int, lo: int, hi: int) -> int {
    if 0 <= i < fs.len() {
        match fs[i] {
            FieldView::Number(Some(x)) => if lo <= x <= hi { x as int } else { 0 },
            _ => 0,
        }
    } else {
        0
    }
}

/// The due time at position `i` of a row: the instant that its text names, if any.
pub open spec fn due_at_field(fs: Seq<FieldView>, i: int) -> Option<(i64, u32)> {
    if 0 <= i < fs.len() {
        match fs[i] {
            FieldView::Text(s) => rfc3339_instant(s),
            _ => None,
        }
    } else {
        None
    }
}

/// `c` holds what the row `[front, back, notes, level, due, correct, total]` says, each
/// field that is missing or of the wrong kind read as its default.
pub open spec fn card_from_row(c: Card, fs: Seq<FieldView>) -> bool {
    &&& c.front@ == text_at(fs, 0)
    &&& c.back@ == text_at(fs, 1)
    &&& c.notes@ == text_at(fs, 2)
    &&& c.level as int == int_at(fs, 3, i8::MIN as int, i8::MAX as int)
    &&& instant_pair(c.due_time) == due_at_field(fs, 4)
    &&& c.correct_count as int == int_at(fs, 5, 0, u32::MAX as int)
    &&& c.total_count as int == int_at(fs, 6, 0, u32::MAX as int)
}

fn text_field(fields: &Vec<Field>, i: usize) -> (r: String)
    ensures
        r@ == text_at(fields_view(fields@), i as int),
{
    if i < fields.len() {
        match &fields[i] {
            Field::Text(s) => s.clone(),
            _ => String::new(),
        }
    } else {
        String::new()
    }
}

fn int_field(fields: &Vec<Field>, i: usize, lo: i64, hi: i64) -> (r: i64)
    requires
        lo <= 0 <= hi,
    ensures
        r as int == int_at(fields_view(fields@), i as int, lo as int, hi as int),
        lo <= r <= hi,
{
    if i < fields.len() {
        match &fields[i] {
            Field::Number(Some(x)) => if lo <= *x && *x <= hi { *x } else { 0 },
            _ => 0,
        }
    } else {
        0
    }
}

/// The card that a row holds; it has no row identity yet.
pub fn card_from_fields(fields: &Vec<Field>) -> (r: Card)
    ensures
        card_from_row(r, fields_view(fields@)),
        r.line_number.is_none(),
{
    let front = text_field(fields, 0);
    let back = text_field(fields, 1);
    let notes = text_field(fields, 2);
    let level = int_field(fields, 3, i8::MIN as i64, i8::MAX as i64) as i8;
    let due_time: Option<Timestamp> = if 4 < fields.len() {
        match &fields[4] {
            Field::Text(s) => parse_rfc3339(s.as_str()),
            _ => None,
        }
    } else {
        None
    };
    let correct_count = int_field(fields, 5, 0, u32::MAX as i64) as u32;
    let total_count = int_field(fields, 6, 0, u32::MAX as i64) as u32;
    Card {
        line_number: None,
        front,
        back,
        notes,
        level,
        due_time,
        correct_count,
        total_count,
    }
}

/// The rows that a deck's lines hold: the lines that are JSON arrays, in order.
pub open spec fn rows_of(lines: Seq<Seq<char>>) -> Seq<Seq<FieldView>>
    decreases lines.len(),
{
    if lines.len() == 0 {
        Seq::empty()
    } else {
        let before = rows_of(lines.drop_last());
        match json_row_of(lines.last()) {
            Some(fs) => before.push(fs),
            None => before,
        }
    }
}

pub open spec fn lines_view(lines: Seq<String>) -> Seq<Seq<char>> {
    lines.map_values(|l: String| l@)
}

/// Loads a deck from its lines. Each line that is a JSON array becomes a card, whose row
/// identity is its position among the cards; other lines are skipped.
pub fn cards_from_lines(lines: &Vec<String>) -> (r: Vec<Card>)
    ensures
        r@.len() == rows_of(lines_view(lines@)).len(),
        forall|i: int|
            0 <= i < r@.len() ==> card_from_row(#[trigger] r@[i], rows_of(lines_view(lines@))[i])
                && r@[i].line_number == Some(i as usize),
{
    let mut r: Vec<Card> = Vec::new();
    let mut i: usize = 0;
    while i < lines.len()
        invariant
            i <= lines.len(),
            r@.len() == rows_of(lines_view(lines@).subrange(0, i as int)).len(),
            forall|j: int|
                0 <= j < r@.len() ==> card_from_row(
                    #[trigger] r@[j],
                    rows_of(lines_view(lines@).subrange(0, i as int))[j],
                ) && r@[j].line_number == Some(j as usize),
        decreases lines.len() - i,
    {
        let ghost prefix = lines_view(lines@).subrange(0, i as int);
        let ghost next = lines_view(lines@).subrange(0, i + 1);
        assert(next.drop_last() == prefix);
        assert(next.last() == lines@[i as int]@);
        match parse_row(lines[i].as_str()) {
            Some(fields) => {
                let mut card = card_from_fields(&fields);
                card.line_number = Some(r.len());
                r.push(card);
            },
            None => {},
        }
        i = i + 1;
    }
    assert(lines_view(lines@).subrange(0, lines.len() as int) == lines_view(lines@));
    r
}

/// The due time of a card as a row writes it: its RFC 3339 text, if it has one.
pub open spec fn due_text(c: Card) -> Option<Seq<char>> {
    match c.due_time {
        Some(t) => rfc3339_text(t.seconds, t.nanos),
        None => None,
    }
}

/// The line that holds a card.
pub open spec fn row_text(c: Card) -> Seq<char> {
    row_json_of(
        c.front@,
        c.back@,
        c.notes@,
        c.level,
        due_text(c),
        c.correct_count,
        c.total_count,
    )
}

/// The line that holds a card: `[front, back, notes, level, due, correct, total]`.
pub fn card_line(c: &Card) -> (r: String)
    ensures
        r@ == row_text(*c),
{
    let due = match &c.due_time {
        Some(t) => format_rfc3339(t),
        None => None,
    };
    row_json(
        c.front.as_str(),
        c.back.as_str(),
        c.notes.as_str(),
        c.level,
        due,
        c.correct_count,
        c.total_count,
    )
}

/// The lines that save a deck: one per card, in the order given.
pub fn lines_of_cards(cards: &Vec<Card>) -> (r: Vec<String>)
    ensures
        r@.len() == cards@.len(),
        forall|i: int| 0 <= i < r@.len() ==> (#[trigger] r@[i])@ == row_text(cards@[i]),
{
    let mut r: Vec<String> = Vec::new();
    let mut i: usize = 0;
    while i < cards.len()
        invariant
            i <= cards.len(),
            r@.len() == i,
            forall|j: int| 0 <= j < i ==> (#[trigger] r@[j])@ == row_text(cards@[j]),
        decreases cards.len() - i,
    {
        r.push(card_line(&cards[i]));
        i = i + 1;
    }
    r
}

/// The row that a card's line writes, value by value.
pub open spec fn row_of_card(c: Card) -> Seq<FieldView> {
    seq![
        FieldView::Text(c.front@),
        FieldView::Text(c.back@),
        FieldView::Text(c.notes@),
        FieldView::Number(Some(c.level as i64)),
        match due_text(c) {
            Some(s) => FieldView::Text(s),
            None => FieldView::Other,
        },
        FieldView::Number(Some(c.correct_count as i64)),
        FieldView::Number(Some(c.total_count as i64)),
    ]
}

/// A card read back from the row that it writes has the same front, back, notes, level and
/// counters, and the due time that its RFC 3339 text names.
pub proof fn lemma_row_round_trip(c: Card, d: Card)
    requires
        card_from_row(d, row_of_card(c)),
    ensures
        d.front@ == c.front@,
        d.back@ == c.back@,
        d.notes@ == c.notes@,
        d.level == c.level,
        d.correct_count == c.correct_count,
        d.total_count == c.total_count,
        instant_pair(d.due_time) == match due_text(c) {
            Some(s) => rfc3339_instant(s),
            None => None,
        },
{
}

} // verus!

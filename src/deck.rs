use vstd::prelude::*;
use vstd::string::StringExecFns;
use crate::card::Card;
use crate::time::text_view;

verus! {

/// The file stem that `std::path::Path::file_stem` gives for a path.
pub uninterp spec fn file_stem_of(path: Seq<char>) -> Option<Seq<char>>;

/// The extension that `std::path::Path::extension` gives for a path.
pub uninterp spec fn extension_of(path: Seq<char>) -> Option<Seq<char>>;

/// Relies on std's `Path::file_stem`: the final component of the path without its extension.
#[verifier::external_body]
fn file_stem(path: &str) -> (r: Option<String>)
    ensures
        text_view(r) == file_stem_of(path@),
{
    std::path::Path::new(path).file_stem().and_then(|s| s.to_str()).map(|s| s.to_string())
}

/// Relies on std's `Path::extension`: what follows the last dot of the final component.
#[verifier::external_body]
fn extension(path: &str) -> (r: Option<String>)
    ensures
        text_view(r) == extension_of(path@),
{
    std::path::Path::new(path).extension().and_then(|s| s.to_str()).map(|s| s.to_string())
}

/// A deck: the file that holds it and its name, the file's stem.
#[derive(Debug)]
pub struct List {
    path: String,
    name: String,
}

impl View for List {
    type V = (Seq<char>, Seq<char>);

    closed spec fn view(&self) -> (Seq<char>, Seq<char>) {
        (self.path@, self.name@)
    }
}

/// The deck that a path holds: none for a directory or a path without a file stem.
pub open spec fn deck_at(path: Seq<char>, is_dir: bool) -> Option<(Seq<char>, Seq<char>)> {
    if is_dir {
        None
    } else {
        match file_stem_of(path) {
            Some(stem) => Some((path, stem)),
            None => None,
        }
    }
}

/// A path names a deck file when its extension is `jsonl`.
pub open spec fn is_deck_path(path: Seq<char>) -> bool {
    extension_of(path) == Some("jsonl"@)
}

pub open spec fn list_view(l: Option<List>) -> Option<(Seq<char>, Seq<char>)> {
    match l {
        Some(l) => Some(l@),
        None => None,
    }
}

impl List {
    /// The deck stored at `path`, where `is_dir` tells whether the path is a directory.
    pub fn new(path: &str, is_dir: bool) -> (r: Option<List>)
        ensures
            list_view(r) == deck_at(path@, is_dir),
    {
        if is_dir {
            return None;
        }
        match file_stem(path) {
            Some(name) => Some(List { path: String::from_str(path), name }),
            None => None,
        }
    }

    pub fn path(&self) -> (r: &str)
        ensures
            r@ == self@.0,
    {
        self.path.as_str()
    }

    pub fn name(&self) -> (r: &str)
        ensures
            r@ == self@.1,
    {
        self.name.as_str()
    }
}

/// Whether `path` names a deck file.
pub fn is_deck_file(path: &str) -> (r: bool)
    ensures
        r == is_deck_path(path@),
{
    match extension(path) {
        Some(ext) => {
            let expected = String::from_str("jsonl");
            proof {
                reveal_strlit("jsonl");
            }
            ext == expected
        },
        None => false,
    }
}

/// The decks among directory entries given as (path, is-directory), in the order given.
pub open spec fn decks_among(entries: Seq<(String, bool)>) -> Seq<(Seq<char>, Seq<char>)>
    decreases entries.len(),
{
    if entries.len() == 0 {
        Seq::empty()
    } else {
        let before = decks_among(entries.drop_last());
        let (path, is_dir) = entries.last();
        if is_deck_path(path@) && deck_at(path@, is_dir).is_some() {
            before.push(deck_at(path@, is_dir).unwrap())
        } else {
            before
        }
    }
}

/// The decks among directory entries, each given as its path and whether it is a directory:
/// the deck files, in the order of the entries.
pub fn get_lists(entries: Vec<(String, bool)>) -> (r: Vec<List>)
    ensures
        r@.map_values(|l: List| l@) == decks_among(entries@),
{
    let mut r: Vec<List> = Vec::new();
    let mut i: usize = 0;
    while i < entries.len()
        invariant
            i <= entries.len(),
            r@.map_values(|l: List| l@) == decks_among(entries@.subrange(0, i as int)),
        decreases entries.len() - i,
    {
        let ghost before = r@;
        let path = entries[i].0.as_str();
        let is_dir = entries[i].1;
        if is_deck_file(path) {
            match List::new(path, is_dir) {
                Some(l) => {
                    r.push(l);
                },
                None => {},
            }
        }
        assert(entries@.subrange(0, i + 1).drop_last() == entries@.subrange(0, i as int));
        assert(r@.map_values(|l: List| l@) =~= decks_among(entries@.subrange(0, i + 1)));
        i = i + 1;
    }
    assert(entries@.subrange(0, entries.len() as int) == entries@);
    r
}

/// Whether one of `lists` is named `name`.
pub fn list_exists(lists: &Vec<List>, name: &str) -> (r: bool)
    ensures
        r == exists|i: int| 0 <= i < lists@.len() && (#[trigger] lists@[i])@.1 == name@,
{
    let wanted = String::from_str(name);
    let mut i: usize = 0;
    while i < lists.len()
        invariant
            i <= lists.len(),
            wanted@ == name@,
            forall|j: int| 0 <= j < i ==> (#[trigger] lists@[j])@.1 != name@,
        decreases lists.len() - i,
    {
        if lists[i].name == wanted {
            return true;
        }
        i = i + 1;
    }
    false
}

/// Whether one of `cards` has the front `front`.
pub fn front_exists(cards: &Vec<Card>, front: &str) -> (r: bool)
    ensures
        r == exists|i: int| 0 <= i < cards@.len() && (#[trigger] cards@[i]).front@ == front@,
{
    let wanted = String::from_str(front);
    let mut i: usize = 0;
    while i < cards.len()
        invariant
            i <= cards.len(),
            wanted@ == front@,
            forall|j: int| 0 <= j < i ==> (#[trigger] cards@[j]).front@ != front@,
        decreases cards.len() - i,
    {
        if cards[i].front == wanted {
            return true;
        }
        i = i + 1;
    }
    false
}

} // verus!

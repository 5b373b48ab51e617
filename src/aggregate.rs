use vstd::prelude::*;
use vstd::string::StringExecFns;
use crate::card::Card;

verus! {

/// The cards of one deck, each tagged with the deck's path.
pub open spec fn tagged(path: String, cards: Seq<Card>) -> Seq<(String, Card)> {
    cards.map_values(|c: Card| (path, c))
}

/// The working set of several decks, each given with its cards or `None` where it failed
/// to load: the cards of the decks that loaded, deck by deck, each in load order.
pub open spec fn collected(decks: Seq<(String, Option<Vec<Card>>)>) -> Seq<(String, Card)>
    decreases decks.len(),
{
    if decks.len() == 0 {
        Seq::empty()
    } else {
        let before = collected(decks.drop_last());
        match decks.last().1 {
            Some(cards) => before + tagged(decks.last().0, cards@),
            None => before,
        }
    }
}

/// Collects the cards of several decks into one working set tagged with each card's deck;
/// a deck that failed to load (`None`) is skipped.
pub fn get_cards(decks: &Vec<(String, Option<Vec<Card>>)>) -> (r: Vec<(String, Card)>)
    ensures
        r@ == collected(decks@),
{
    let mut r: Vec<(String, Card)> = Vec::new();
    let mut i: usize = 0;
    while i < decks.len()
        invariant
            i <= decks.len(),
            r@ == collected(decks@.subrange(0, i as int)),
        decreases decks.len() - i,
    {
        let ghost prefix = decks@.subrange(0, i as int);
        assert(decks@.subrange(0, i + 1).drop_last() == prefix);
        match &decks[i].1 {
            Some(cards) => {
                let path = &decks[i].0;
                let mut j: usize = 0;
                while j < cards.len()
                    invariant
                        j <= cards.len(),
                        r@ == collected(prefix) + tagged(*path, cards@.subrange(0, j as int)),
                    decreases cards.len() - j,
                {
                    r.push((path.clone(), cards[j].duplicate()));
                    assert(tagged(*path, cards@.subrange(0, j + 1)) =~= tagged(
                        *path,
                        cards@.subrange(0, j as int),
                    ).push((*path, cards@[j as int])));
                    j = j + 1;
                }
                assert(cards@.subrange(0, cards.len() as int) == cards@);
            },
            None => {},
        }
        i = i + 1;
    }
    assert(decks@.subrange(0, decks.len() as int) == decks@);
    r
}

/// `rows` after one session result is applied to the deck at `path`: the result replaces
/// the row its identity names, if it belongs to that deck and the row still exists.
pub open spec fn apply_result(rows: Seq<Card>, path: Seq<char>, result: (String, Card)) -> Seq<
    Card,
> {
    match result.1.line_number {
        Some(n) => if result.0@ == path && n < rows.len() {
            rows.update(n as int, result.1)
        } else {
            rows
        },
        None => rows,
    }
}

/// `rows` after every session result, in order, is applied to the deck at `path`.
pub open spec fn merged(rows: Seq<Card>, path: Seq<char>, results: Seq<(String, Card)>) -> Seq<
    Card,
>
    decreases results.len(),
{
    if results.len() == 0 {
        rows
    } else {
        apply_result(merged(rows, path, results.drop_last()), path, results.last())
    }
}

/// Writes session results back into the freshly reloaded rows of the deck at `path`: each
/// result of that deck whose row identity still names a row replaces it (the last such
/// result wins); other rows stay, results whose row vanished are dropped, and the rows keep
/// their order.
pub fn merge_into_deck(fresh: Vec<Card>, path: &str, results: &Vec<(String, Card)>) -> (r: Vec<
    Card,
>)
    ensures
        r@ == merged(fresh@, path@, results@),
{
    let mut rows = fresh;
    let wanted = String::from_str(path);
    let mut i: usize = 0;
    while i < results.len()
        invariant
            i <= results.len(),
            rows@ == merged(fresh@, path@, results@.subrange(0, i as int)),
            wanted@ == path@,
        decreases results.len() - i,
    {
        assert(results@.subrange(0, i + 1).drop_last() == results@.subrange(0, i as int));
        let (p, c) = &results[i];
        match c.line_number {
            Some(n) => {
                if *p == wanted && n < rows.len() {
                    rows.set(n, c.duplicate());
                }
            },
            None => {},
        }
        i = i + 1;
    }
    assert(results@.subrange(0, results.len() as int) == results@);
    rows
}

/// Some session result of the deck at `path` names row `i`.
pub open spec fn names_row(path: Seq<char>, results: Seq<(String, Card)>, i: int) -> bool {
    exists|k: int|
        0 <= k < results.len() && (#[trigger] results[k]).0@ == path && results[k].1.line_number
            == Some(i as usize)
}

/// Some session result of the deck at `path` names row `i` and carries the card `c`.
pub open spec fn row_from_result(path: Seq<char>, results: Seq<(String, Card)>, i: int, c: Card) -> bool {
    exists|k: int|
        0 <= k < results.len() && (#[trigger] results[k]).0@ == path && results[k].1.line_number
            == Some(i as usize) && results[k].1 == c
}

/// Merge-back never invents rows: the deck keeps as many rows as its fresh reload has, a row
/// that no result of the deck names stays as it was, and a row that one names holds the card
/// of such a result.
pub proof fn lemma_merge_keeps_rows(rows: Seq<Card>, path: Seq<char>, results: Seq<(String, Card)>)
    requires
        rows.len() <= usize::MAX,
    ensures
        merged(rows, path, results).len() == rows.len(),
        forall|i: int|
            0 <= i < rows.len() && !names_row(path, results, i) ==> #[trigger] merged(
                rows,
                path,
                results,
            )[i] == rows[i],
        forall|i: int|
            0 <= i < rows.len() && names_row(path, results, i) ==> row_from_result(
                path,
                results,
                i,
                #[trigger] merged(rows, path, results)[i],
            ),
    decreases results.len(),
{
    if results.len() > 0 {
        let before = results.drop_last();
        lemma_merge_keeps_rows(rows, path, before);
        let m = merged(rows, path, before);
        let last_k = results.len() - 1;
        let last = results[last_k];
        assert(merged(rows, path, results) == apply_result(m, path, last));
        assert forall|i: int| 0 <= i < rows.len() implies {
            &&& !names_row(path, results, i) ==> #[trigger] merged(rows, path, results)[i]
                == rows[i]
            &&& names_row(path, results, i) ==> row_from_result(
                path,
                results,
                i,
                merged(rows, path, results)[i],
            )
        } by {
            let mi = merged(rows, path, results)[i];
            if last.0@ == path && last.1.line_number == Some(i as usize) {
                assert(mi == last.1);
                assert(results[last_k].0@ == path && results[last_k].1.line_number == Some(
                    i as usize,
                ) && results[last_k].1 == mi);
                assert(names_row(path, results, i));
            } else {
                assert(mi == m[i]);
                if names_row(path, before, i) {
                    let k = choose|k: int|
                        0 <= k < before.len() && (#[trigger] before[k]).0@ == path
                            && before[k].1.line_number == Some(i as usize) && before[k].1 == m[i];
                    assert(results[k] == before[k]);
                    assert(names_row(path, results, i));
                    assert(row_from_result(path, results, i, mi));
                }
                if names_row(path, results, i) {
                    let k = choose|k: int|
                        0 <= k < results.len() && (#[trigger] results[k]).0@ == path
                            && results[k].1.line_number == Some(i as usize);
                    assert(k != last_k);
                    assert(before[k] == results[k]);
                    assert(names_row(path, before, i));
                }
            }
        }
    }
}

/// Whether `paths` holds a path equal to `p`.
fn contains_path(paths: &Vec<String>, p: &String) -> (r: bool)
    ensures
        r == exists|i: int| 0 <= i < paths@.len() && (#[trigger] paths@[i])@ == p@,
{
    let mut i: usize = 0;
    while i < paths.len()
        invariant
            i <= paths.len(),
            forall|j: int| 0 <= j < i ==> (#[trigger] paths@[j])@ != p@,
        decreases paths.len() - i,
    {
        if paths[i] == *p {
            return true;
        }
        i = i + 1;
    }
    false
}

/// The paths of the decks that results belong to, each once, in the order they first appear.
pub open spec fn first_paths(results: Seq<(String, Card)>) -> Seq<Seq<char>>
    decreases results.len(),
{
    if results.len() == 0 {
        Seq::empty()
    } else {
        let before = first_paths(results.drop_last());
        if before.contains(results.last().0@) {
            before
        } else {
            before.push(results.last().0@)
        }
    }
}

/// The decks that session results belong to, each once, in the order they first appear.
pub fn deck_paths(results: &Vec<(String, Card)>) -> (r: Vec<String>)
    ensures
        r@.map_values(|s: String| s@) == first_paths(results@),
{
    let mut r: Vec<String> = Vec::new();
    let mut i: usize = 0;
    while i < results.len()
        invariant
            i <= results.len(),
            r@.map_values(|s: String| s@) == first_paths(results@.subrange(0, i as int)),
        decreases results.len() - i,
    {
        let ghost prefix = results@.subrange(0, i as int);
        let ghost seen = r@.map_values(|s: String| s@);
        assert(results@.subrange(0, i + 1).drop_last() == prefix);
        assert(results@.subrange(0, i + 1).last() == results@[i as int]);
        let p = &results[i].0;
        let found = contains_path(&r, p);
        proof {
            if found {
                let j = choose|j: int| 0 <= j < r@.len() && (#[trigger] r@[j])@ == p@;
                assert(seen[j] == p@);
            }
            if seen.contains(p@) {
                let j = choose|j: int| 0 <= j < seen.len() && seen[j] == p@;
                assert(r@[j]@ == p@);
            }
        }
        if !found {
            r.push(p.clone());
            assert(r@.map_values(|s: String| s@) =~= seen.push(p@));
        }
        i = i + 1;
    }
    assert(results@.subrange(0, results.len() as int) == results@);
    r
}

} // verus!

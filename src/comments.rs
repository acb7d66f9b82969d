//! Path-addressed lookup in a file's comment table.
use vstd::prelude::*;

verus! {

/// One entry of a file's comment table: the structural path of a
/// descriptor element and the comments attached to it.
pub struct Location {
    pub path: Vec<i32>,
    pub leading_comments: String,
    pub trailing_comments: String,
}

/// The comment table of one file.
pub struct SourceInfo {
    pub location: Vec<Location>,
}

/// The first entry of `locs` whose path equals `path` exactly.
pub open spec fn find_location(locs: Seq<Location>, path: Seq<i32>) -> Option<Location>
    decreases locs.len(),
{
    if locs.len() == 0 {
        None
    } else if locs[0].path@ == path {
        Some(locs[0])
    } else {
        find_location(locs.drop_first(), path)
    }
}

/// The leading comment recorded for `path`, or the empty text.
pub open spec fn leading_of(locs: Seq<Location>, path: Seq<i32>) -> Seq<char> {
    match find_location(locs, path) {
        Some(l) => l.leading_comments@,
        None => Seq::empty(),
    }
}

/// The trailing comment recorded for `path`, or the empty text.
pub open spec fn trailing_of(locs: Seq<Location>, path: Seq<i32>) -> Seq<char> {
    match find_location(locs, path) {
        Some(l) => l.trailing_comments@,
        None => Seq::empty(),
    }
}

/// Lookup gives the empty text when no entry has exactly the path asked
/// for, and the stored text of the first entry that has it.
pub proof fn lemma_description_lookup(locs: Seq<Location>, path: Seq<i32>)
    ensures
        (forall|i: int| 0 <= i < locs.len() ==> #[trigger] locs[i].path@ != path) ==> leading_of(locs, path)
            == Seq::<char>::empty(),
        forall|i: int|
            0 <= i < locs.len() && #[trigger] locs[i].path@ == path && (forall|j: int| 0 <= j < i ==> locs[j].path@ != path)
                ==> leading_of(locs, path) == locs[i].leading_comments@,
    decreases locs.len(),
{
    if locs.len() > 0 {
        lemma_description_lookup(locs.drop_first(), path);
        assert forall|i: int|
            0 <= i < locs.len() && #[trigger] locs[i].path@ == path && (forall|j: int| 0 <= j < i ==> locs[j].path@ != path)
                implies leading_of(locs, path) == locs[i].leading_comments@ by {
            if i > 0 {
                assert(locs[0].path@ != path);
                assert(locs.drop_first()[i - 1] == locs[i]);
                assert forall|j: int| 0 <= j < i - 1 implies locs.drop_first()[j].path@ != path by {
                    assert(locs.drop_first()[j] == locs[j + 1]);
                }
            }
        }
        if forall|i: int| 0 <= i < locs.len() ==> #[trigger] locs[i].path@ != path {
            assert forall|i: int| 0 <= i < locs.drop_first().len() implies #[trigger] locs.drop_first()[i].path@ != path by {
                assert(locs.drop_first()[i] == locs[i + 1]);
            }
        }
    }
}

/// Compares two structural paths element by element.
pub fn paths_equal(a: &Vec<i32>, b: &Vec<i32>) -> (r: bool)
    ensures
        r == (a@ == b@),
{
    if a.len() != b.len() {
        return false;
    }
    let mut i: usize = 0;
    while i < a.len()
        invariant
            a.len() == b.len(),
            i <= a.len(),
            forall|k: int| 0 <= k < i ==> a@[k] == b@[k],
        decreases a.len() - i,
    {
        if a[i] != b[i] {
            return false;
        }
        i = i + 1;
    }
    assert(a@ =~= b@);
    true
}

/// The position of the first entry of `locs` whose path equals `path`.
pub fn position_of_path(locs: &Vec<Location>, path: &Vec<i32>) -> (r: Option<usize>)
    ensures
        match r {
            Some(i) => i < locs.len() && find_location(locs@, path@) == Some(locs@[i as int]),
            None => find_location(locs@, path@) is None,
        },
{
    let mut i: usize = 0;
    assert(locs@.subrange(0, locs.len() as int) =~= locs@);
    while i < locs.len()
        invariant
            i <= locs.len(),
            find_location(locs@.subrange(i as int, locs.len() as int), path@) == find_location(
                locs@,
                path@,
            ),
        decreases locs.len() - i,
    {
        let ghost rest = locs@.subrange(i as int, locs.len() as int);
        if paths_equal(&locs[i].path, path) {
            return Some(i);
        }
        assert(rest.drop_first() =~= locs@.subrange(i + 1, locs.len() as int));
        i = i + 1;
    }
    None
}

/// The leading comment recorded for `path`; the empty text when no entry
/// has exactly that path (a prefix does not count).
pub fn get_description(info: &SourceInfo, path: &Vec<i32>) -> (r: String)
    ensures
        r@ == leading_of(info.location@, path@),
{
    match position_of_path(&info.location, path) {
        Some(i) => info.location[i].leading_comments.clone(),
        None => String::new(),
    }
}

} // verus!

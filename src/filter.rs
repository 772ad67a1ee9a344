//! Which enumerated files become work items.
use vstd::prelude::*;

verus! {

/// Whether a file whose extension is `extension` (`None`: it has none) is an
/// item: always when no filter is set, else when the extension is in the filter.
pub open spec fn selects(extension: Option<Seq<char>>, extensions: Option<Seq<Seq<char>>>) -> bool {
    match extensions {
        None => true,
        Some(list) => match extension {
            None => false,
            Some(e) => list.contains(e),
        },
    }
}

/// The filter as text.
pub open spec fn filter_view(extensions: &Option<Vec<String>>) -> Option<Seq<Seq<char>>> {
    match extensions {
        None => None,
        Some(list) => Some(list@.map_values(|s: String| s@)),
    }
}

/// Decides whether a file with the given extension is processed, under the
/// optional extension filter.
pub fn should_include(extension: &Option<String>, extensions: &Option<Vec<String>>) -> (r: bool)
    ensures
        r == selects(
            match extension {
                None => None,
                Some(e) => Some(e@),
            },
            filter_view(extensions),
        ),
{
    match extensions {
        None => true,
        Some(list) => match extension {
            None => false,
            Some(e) => {
                let ghost want = list@.map_values(|s: String| s@);
                let mut i: usize = 0;
                while i < list.len()
                    invariant
                        i <= list@.len(),
                        want == list@.map_values(|s: String| s@),
                        filter_view(extensions) == Some(want),
                        *extension == Some(*e),
                        forall|j: int| 0 <= j < i ==> want[j] != e@,
                    decreases list@.len() - i,
                {
                    if list[i] == *e {
                        assert(want[i as int] == e@);
                        assert(want.contains(e@));
                        return true;
                    }
                    i = i + 1;
                }
                false
            },
        },
    }
}

} // verus!

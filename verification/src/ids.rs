//! Lists of identifiers.

use vstd::prelude::*;

verus! {

/// The texts of a list of strings.
pub open spec fn texts(list: Seq<String>) -> Seq<Seq<char>> {
    list.map_values(|s: String| s@)
}

/// Filtering one element more keeps or drops that element.
pub proof fn lemma_filter_next<A>(s: Seq<A>, k: int, keep: spec_fn(A) -> bool)
    requires
        0 <= k < s.len(),
    ensures
        s.take(k + 1).filter(keep) == if keep(s[k]) {
            s.take(k).filter(keep).push(s[k])
        } else {
            s.take(k).filter(keep)
        },
{
    reveal(Seq::filter);
    assert(s.take(k + 1).drop_last() =~= s.take(k));
}

/// The first position of `id` in `list`, if it occurs.
pub fn find_id(list: &Vec<String>, id: &String) -> (found: Option<usize>)
    ensures
        match found {
            Some(i) => i < list.len() && list@[i as int]@ == id@ && forall|j: int|
                0 <= j < i ==> (#[trigger] list@[j])@ != id@,
            None => !texts(list@).contains(id@),
        },
{
    let mut i: usize = 0;
    while i < list.len()
        invariant
            i <= list.len(),
            forall|j: int| 0 <= j < i ==> (#[trigger] list@[j])@ != id@,
        decreases list.len() - i,
    {
        if list[i] == *id {
            return Some(i);
        }
        i += 1;
    }
    assert forall|j: int| 0 <= j < texts(list@).len() implies texts(list@)[j] != id@ by {
        assert(list@[j]@ != id@);
    }
    None
}

/// A copy of a list of identifiers.
pub fn clone_ids(ids: &Vec<String>) -> (copy: Vec<String>)
    ensures
        texts(copy@) == texts(ids@),
{
    let mut copy: Vec<String> = Vec::new();
    let mut i: usize = 0;
    while i < ids.len()
        invariant
            i <= ids.len(),
            copy.len() == i,
            forall|j: int| 0 <= j < i ==> (#[trigger] copy@[j])@ == ids@[j]@,
        decreases ids.len() - i,
    {
        copy.push(ids[i].clone());
        i += 1;
    }
    assert(texts(copy@) =~= texts(ids@));
    copy
}

} // verus!

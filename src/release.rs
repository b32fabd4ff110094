use vstd::prelude::*;
use crate::commit::{ClassifiedCommit, RawCommit, classified, classify, parsed_header};
use crate::tag::Tag;

verus! {

/// The commits of one scope together with the version they are released under.
#[derive(Debug)]
pub struct Release {
    pub version: Tag,
    pub commits: Vec<ClassifiedCommit>,
}

/// The commits of `s`, in order, whose message is a conventional commit.
pub open spec fn conforming(s: Seq<RawCommit>) -> Seq<RawCommit>
    decreases s.len(),
{
    if s.len() == 0 {
        Seq::empty()
    } else if parsed_header(s.last().message@) is Some {
        conforming(s.drop_last()).push(s.last())
    } else {
        conforming(s.drop_last())
    }
}

/// `cs` is the classification of `raws`, commit for commit.
pub open spec fn classified_all(raws: Seq<RawCommit>, cs: Seq<ClassifiedCommit>) -> bool {
    &&& cs.len() == raws.len()
    &&& forall|k: int|
        0 <= k < cs.len() ==> classified(
            #[trigger] raws[k],
            cs[k],
            parsed_header(raws[k].message@)->0,
        )
}

/// The commits at positions `idx` of `history`, in that order.
pub open spec fn at_positions(history: Seq<RawCommit>, idx: Seq<usize>) -> Seq<RawCommit> {
    idx.map_values(|k: usize| history[k as int])
}

/// Classifies the commits at positions `idx` of `history`, leaving out those whose message
/// does not conform.
pub fn classify_commits(history: &Vec<RawCommit>, idx: &Vec<usize>) -> (r: Vec<ClassifiedCommit>)
    requires
        forall|k: int| 0 <= k < idx@.len() ==> #[trigger] idx@[k] < history@.len(),
    ensures
        classified_all(conforming(at_positions(history@, idx@)), r@),
{
    let mut out: Vec<ClassifiedCommit> = Vec::new();
    let mut i: usize = 0;
    assert(at_positions(history@, idx@.take(0)) =~= Seq::<RawCommit>::empty());
    while i < idx.len()
        invariant
            0 <= i <= idx@.len(),
            forall|k: int| 0 <= k < idx@.len() ==> #[trigger] idx@[k] < history@.len(),
            classified_all(conforming(at_positions(history@, idx@.take(i as int))), out@),
        decreases idx@.len() - i,
    {
        let ghost prev = at_positions(history@, idx@.take(i as int));
        let ghost next = at_positions(history@, idx@.take(i + 1));
        assert(next.drop_last() =~= prev);
        assert(next.last() == history@[idx@[i as int] as int]);
        let raw = &history[idx[i]];
        match classify(raw) {
            Some(c) => {
                out.push(c);
            },
            None => {},
        }
        i += 1;
    }
    assert(idx@.take(idx@.len() as int) =~= idx@);
    out
}

/// The positions `start..end`.
pub fn positions(start: usize, end: usize) -> (r: Vec<usize>)
    requires
        start <= end,
    ensures
        r@.len() == end - start,
        forall|k: int| 0 <= k < r@.len() ==> #[trigger] r@[k] == start + k,
{
    let mut out: Vec<usize> = Vec::new();
    let mut i: usize = start;
    while i < end
        invariant
            start <= i <= end,
            out@.len() == i - start,
            forall|k: int| 0 <= k < out@.len() ==> #[trigger] out@[k] == start + k,
        decreases end - i,
    {
        out.push(i);
        i += 1;
    }
    out
}

/// Positions `start..end` pick the subrange `start..end`.
pub proof fn lemma_positions_pick_subrange(history: Seq<RawCommit>, idx: Seq<usize>, start: int, end: int)
    requires
        0 <= start <= end <= history.len(),
        idx.len() == end - start,
        forall|k: int| 0 <= k < idx.len() ==> #[trigger] idx[k] == start + k,
    ensures
        at_positions(history, idx) == history.subrange(start, end),
{
    assert(at_positions(history, idx) =~= history.subrange(start, end));
}

} // verus!

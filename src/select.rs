use vstd::prelude::*;

use crate::model::{Issue, Milestone, Project};

verus! {

/// The indices below `n` that satisfy `p`, in increasing order.
pub open spec fn indices_where(n: nat, p: spec_fn(int) -> bool) -> Seq<usize>
    decreases n,
{
    if n == 0 {
        seq![]
    } else {
        let prev = indices_where((n - 1) as nat, p);
        if p(n - 1) {
            prev.push((n - 1) as usize)
        } else {
            prev
        }
    }
}

/// Whether some milestone of `ms` has the id `id`.
pub open spec fn has_milestone_id(ms: Seq<Milestone>, id: i32) -> bool {
    exists|k: int| 0 <= k < ms.len() && #[trigger] ms[k].id == id
}

/// Whether the issue carries one of the picked milestones; an issue without
/// a milestone never does.
pub open spec fn in_picked_milestones(issue: Issue, picked: Seq<Milestone>) -> bool {
    match issue.milestone {
        Some(m) => has_milestone_id(picked, m.id),
        None => false,
    }
}

/// Whether the issue's id lies between `start` and `end`, both included.
pub open spec fn in_id_range(issue: Issue, start: i32, end: i32) -> bool {
    start <= issue.id && issue.id <= end
}

/// The milestones that the issues refer to, each id once, in the order in
/// which they are first met.
pub open spec fn first_seen_milestones(issues: Seq<Issue>) -> Seq<Milestone>
    decreases issues.len(),
{
    if issues.len() == 0 {
        seq![]
    } else {
        let prev = first_seen_milestones(issues.drop_last());
        match issues.last().milestone {
            Some(m) => if has_milestone_id(prev, m.id) {
                prev
            } else {
                prev.push(m)
            },
            None => prev,
        }
    }
}

/// The positions of the issues whose id lies in `start..=end`.
pub open spec fn range_selection(issues: Seq<Issue>, start: i32, end: i32) -> Seq<usize> {
    indices_where(issues.len(), |i: int| in_id_range(issues[i], start, end))
}

/// The positions of the issues that carry one of the picked milestones.
pub open spec fn milestone_selection(issues: Seq<Issue>, picked: Seq<Milestone>) -> Seq<usize> {
    indices_where(issues.len(), |i: int| in_picked_milestones(issues[i], picked))
}

/// The positions below `n` that were picked, in increasing order.
pub open spec fn manual_selection(n: nat, picks: Seq<usize>) -> Seq<usize> {
    indices_where(n, |i: int| picks.contains(i as usize))
}

/// Whether some milestone of `ms` has the id `id`.
pub fn contains_milestone_id(ms: &Vec<Milestone>, id: i32) -> (r: bool)
    ensures
        r == has_milestone_id(ms@, id),
{
    let mut k: usize = 0;
    while k < ms.len()
        invariant
            k <= ms.len(),
            forall|j: int| 0 <= j < k ==> ms@[j].id != id,
        decreases ms.len() - k,
    {
        if ms[k].id == id {
            return true;
        }
        k = k + 1;
    }
    false
}

/// The distinct milestones referred to by the issues, deduplicated by id,
/// in the order in which they are first met.
pub fn distinct_milestones(issues: &Vec<Issue>) -> (r: Vec<Milestone>)
    ensures
        r@ == first_seen_milestones(issues@),
{
    let mut r: Vec<Milestone> = Vec::new();
    let mut i: usize = 0;
    while i < issues.len()
        invariant
            i <= issues.len(),
            r@ == first_seen_milestones(issues@.subrange(0, i as int)),
        decreases issues.len() - i,
    {
        assert(issues@.subrange(0, i + 1).drop_last() == issues@.subrange(0, i as int));
        match &issues[i].milestone {
            Some(m) => {
                if !contains_milestone_id(&r, m.id) {
                    r.push(m.duplicate());
                }
            },
            None => {},
        }
        i = i + 1;
    }
    assert(issues@.subrange(0, issues.len() as int) == issues@);
    r
}

/// Milestone strategy: the positions, in order, of the issues whose
/// milestone is one of `picked`.
pub fn select_by_milestones(issues: &Vec<Issue>, picked: &Vec<Milestone>) -> (r: Vec<usize>)
    ensures
        r@ == milestone_selection(issues@, picked@),
{
    let mut r: Vec<usize> = Vec::new();
    let mut i: usize = 0;
    while i < issues.len()
        invariant
            i <= issues.len(),
            r@ == indices_where(i as nat, |j: int| in_picked_milestones(issues@[j], picked@)),
        decreases issues.len() - i,
    {
        let keep = match &issues[i].milestone {
            Some(m) => contains_milestone_id(picked, m.id),
            None => false,
        };
        if keep {
            r.push(i);
        }
        i = i + 1;
    }
    r
}

/// Range strategy: the positions, in order, of the issues whose id lies in
/// `start..=end`; none when `start > end`.
pub fn select_by_range(issues: &Vec<Issue>, start: i32, end: i32) -> (r: Vec<usize>)
    ensures
        r@ == range_selection(issues@, start, end),
{
    let mut r: Vec<usize> = Vec::new();
    let mut i: usize = 0;
    while i < issues.len()
        invariant
            i <= issues.len(),
            r@ == indices_where(i as nat, |j: int| in_id_range(issues@[j], start, end)),
        decreases issues.len() - i,
    {
        let keep = start <= issues[i].id && issues[i].id <= end;
        if keep {
            r.push(i);
        }
        i = i + 1;
    }
    r
}

/// Manual strategy: the picked positions below `n`, each once, back in the
/// order of the issues.
pub fn select_manual(n: usize, picks: &Vec<usize>) -> (r: Vec<usize>)
    ensures
        r@ == manual_selection(n as nat, picks@),
{
    let mut r: Vec<usize> = Vec::new();
    let mut i: usize = 0;
    while i < n
        invariant
            i <= n,
            r@ == indices_where(i as nat, |j: int| picks@.contains(j as usize)),
        decreases n - i,
    {
        let mut k: usize = 0;
        let mut found = false;
        while k < picks.len()
            invariant
                k <= picks.len(),
                found == exists|j: int| 0 <= j < k && picks@[j] == i,
            decreases picks.len() - k,
        {
            if picks[k] == i {
                found = true;
            }
            k = k + 1;
        }
        assert(found ==> picks@[choose|j: int| 0 <= j < k && picks@[j] == i] == i);
        if found {
            r.push(i);
        }
        i = i + 1;
    }
    r
}

/// Every entry of `indices_where(n, p)` is a position below `n` that
/// satisfies `p`, and every such position is an entry.
pub proof fn lemma_indices_where_members(n: nat, p: spec_fn(int) -> bool)
    requires
        n <= usize::MAX + 1,
    ensures
        forall|k: int|
            0 <= k < indices_where(n, p).len() ==> (#[trigger] indices_where(n, p)[k]) < n && p(
                indices_where(n, p)[k] as int,
            ),
        forall|i: int| 0 <= i < n && p(i) ==> #[trigger] indices_where(n, p).contains(i as usize),
    decreases n,
{
    if n > 0 {
        lemma_indices_where_members((n - 1) as nat, p);
        let prev = indices_where((n - 1) as nat, p);
        if p(n - 1) {
            assert(prev.push((n - 1) as usize)[prev.len() as int] == (n - 1) as usize);
        }
        assert forall|i: int| 0 <= i < n && p(i) implies #[trigger] indices_where(n, p).contains(
            i as usize,
        ) by {
            if i < n - 1 {
                assert(prev.contains(i as usize));
                let k = choose|k: int| 0 <= k < prev.len() && prev[k] == i as usize;
                assert(indices_where(n, p)[k] == i as usize);
            } else {
                assert(indices_where(n, p)[prev.len() as int] == i as usize);
            }
        }
    }
}

/// When `p` holds of no position, nothing is selected.
pub proof fn lemma_indices_where_none(n: nat, p: spec_fn(int) -> bool)
    requires
        forall|i: int| 0 <= i < n ==> !#[trigger] p(i),
    ensures
        indices_where(n, p) == Seq::<usize>::empty(),
    decreases n,
{
    if n > 0 {
        lemma_indices_where_none((n - 1) as nat, p);
    }
}

/// When `p` holds at the position `k` alone, exactly `k` is selected.
pub proof fn lemma_indices_where_single(n: nat, p: spec_fn(int) -> bool, k: int)
    requires
        0 <= k < n,
        p(k),
        forall|i: int| 0 <= i < n && #[trigger] p(i) ==> i == k,
    ensures
        indices_where(n, p) == seq![k as usize],
    decreases n,
{
    if k < n - 1 {
        lemma_indices_where_single((n - 1) as nat, p, k);
    } else {
        lemma_indices_where_none((n - 1) as nat, p);
    }
}

/// Range strategy: with a first boundary above the last, nothing is
/// selected.
pub proof fn lemma_range_reversed_is_empty(issues: Seq<Issue>, start: i32, end: i32)
    requires
        start > end,
    ensures
        range_selection(issues, start, end) == Seq::<usize>::empty(),
{
    lemma_indices_where_none(issues.len(), |i: int| in_id_range(issues[i], start, end));
}

/// Range strategy: with equal boundaries, exactly the issue with that id is
/// selected, ids being unique.
pub proof fn lemma_range_single_id(issues: Seq<Issue>, k: int)
    requires
        0 <= k < issues.len(),
        forall|a: int, b: int|
            0 <= a < issues.len() && 0 <= b < issues.len() && (#[trigger] issues[a]).id == (
            #[trigger] issues[b]).id ==> a == b,
    ensures
        range_selection(issues, issues[k].id, issues[k].id) == seq![k as usize],
{
    let id = issues[k].id;
    lemma_indices_where_single(issues.len(), |i: int| in_id_range(issues[i], id, id), k);
}

/// Range strategy: with equal boundaries that are no issue's id, nothing is
/// selected.
pub proof fn lemma_range_unknown_id(issues: Seq<Issue>, id: i32)
    requires
        forall|k: int| 0 <= k < issues.len() ==> (#[trigger] issues[k]).id != id,
    ensures
        range_selection(issues, id, id) == Seq::<usize>::empty(),
{
    lemma_indices_where_none(issues.len(), |i: int| in_id_range(issues[i], id, id));
}

/// Milestone strategy: an issue without a milestone is never selected,
/// whichever milestones are picked.
pub proof fn lemma_no_milestone_never_selected(issues: Seq<Issue>, picked: Seq<Milestone>, i: int)
    requires
        issues.len() <= usize::MAX,
        0 <= i < issues.len(),
        issues[i].milestone is None,
    ensures
        !milestone_selection(issues, picked).contains(i as usize),
{
    let p = |j: int| in_picked_milestones(issues[j], picked);
    lemma_indices_where_members(issues.len(), p);
    if milestone_selection(issues, picked).contains(i as usize) {
        let k = choose|k: int|
            0 <= k < milestone_selection(issues, picked).len() && milestone_selection(
                issues,
                picked,
            )[k] == i as usize;
        assert(p(indices_where(issues.len(), p)[k] as int));
    }
}

/// The set of positions that `indices_where` selects: it depends on `n`
/// and `p` alone, not on any order of evaluation.
pub open spec fn selected_set(n: nat, p: spec_fn(int) -> bool) -> Set<usize> {
    Set::new(|i: usize| i < n && p(i as int))
}

proof fn lemma_indices_where_set(n: nat, p: spec_fn(int) -> bool)
    requires
        n <= usize::MAX + 1,
    ensures
        indices_where(n, p).to_set() == selected_set(n, p),
{
    lemma_indices_where_members(n, p);
    let s = indices_where(n, p);
    assert forall|i: usize| #[trigger] s.to_set().contains(i) <==> selected_set(n, p).contains(i) by {
        if s.to_set().contains(i) {
            assert(s.contains(i));
            let k = choose|k: int| 0 <= k < s.len() && s[k] == i;
            assert(s[k] < n && p(s[k] as int));
        }
        if selected_set(n, p).contains(i) {
            assert(s.contains(i as int as usize));
        }
    }
    assert(s.to_set() =~= selected_set(n, p));
}

/// Each strategy selects, as a set, exactly the positions that satisfy its
/// rule on the issues and parameters given: running it again with the same
/// parameters on the same issues selects the same issues.
pub proof fn lemma_selection_sets(
    issues: Seq<Issue>,
    picked: Seq<Milestone>,
    start: i32,
    end: i32,
    picks: Seq<usize>,
)
    requires
        issues.len() <= usize::MAX,
    ensures
        milestone_selection(issues, picked).to_set() == Set::new(
            |i: usize| i < issues.len() && in_picked_milestones(issues[i as int], picked),
        ),
        range_selection(issues, start, end).to_set() == Set::new(
            |i: usize| i < issues.len() && in_id_range(issues[i as int], start, end),
        ),
        manual_selection(issues.len(), picks).to_set() == Set::new(
            |i: usize| i < issues.len() && picks.contains(i),
        ),
{
    let pm = |j: int| in_picked_milestones(issues[j], picked);
    let pr = |j: int| in_id_range(issues[j], start, end);
    let pp = |j: int| picks.contains(j as usize);
    lemma_indices_where_set(issues.len(), pm);
    lemma_indices_where_set(issues.len(), pr);
    lemma_indices_where_set(issues.len(), pp);
    assert(selected_set(issues.len(), pm) =~= Set::new(
        |i: usize| i < issues.len() && in_picked_milestones(issues[i as int], picked),
    ));
    assert(selected_set(issues.len(), pr) =~= Set::new(
        |i: usize| i < issues.len() && in_id_range(issues[i as int], start, end),
    ));
    assert(selected_set(issues.len(), pp) =~= Set::new(
        |i: usize| i < issues.len() && picks.contains(i),
    ));
}

} // verus!

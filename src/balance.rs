use vstd::prelude::*;

use rand::rngs::StdRng;

use crate::random::{draw_below, shuffle_in_place};

verus! {

broadcast use vstd::seq_lib::group_to_multiset_ensures, vstd::multiset::group_multiset_axioms;

/// Why no assignment could be computed.
#[derive(Clone, Copy, Debug, PartialEq, Eq, Structural)]
pub enum BalanceError {
    /// No member was chosen, so the issues cannot be shared out.
    NoMembers,
}

/// How many issues the member at position `j` receives under `a`, where
/// `a[i]` is the member position given the issue at position `i`.
pub open spec fn member_count(a: Seq<usize>, j: usize) -> nat {
    a.to_multiset().count(j)
}

/// Every entry names one of the `m` members.
pub open spec fn all_below(a: Seq<usize>, m: usize) -> bool {
    forall|k: int| 0 <= k < a.len() ==> #[trigger] a[k] < m
}

/// The counts of any two of the `m` members differ by at most one.
pub open spec fn balanced(a: Seq<usize>, m: usize) -> bool {
    forall|j: usize, k: usize|
        j < m && k < m ==> #[trigger] member_count(a, j) <= #[trigger] member_count(a, k) + 1
}

/// The count that the base allocation gives member `j` of `m`, for `n` issues.
pub open spec fn base_share(n: nat, m: usize, j: usize) -> nat {
    if j < m {
        n / (m as nat)
    } else {
        0
    }
}

proof fn lemma_below_from_multiset(a: Seq<usize>, b: Seq<usize>, m: usize)
    requires
        a.to_multiset() == b.to_multiset(),
        all_below(b, m),
    ensures
        all_below(a, m),
{
    assert forall|k: int| 0 <= k < a.len() implies #[trigger] a[k] < m by {
        assert(a.contains(a[k]));
        assert(b.to_multiset().count(a[k]) > 0);
        assert(b.contains(a[k]));
    }
}

/// Each of the `m` members, in turn, `q` times.
pub fn base_allocation(m: usize, q: usize) -> (r: Vec<usize>)
    requires
        m * q <= usize::MAX,
    ensures
        r@.len() == m * q,
        all_below(r@, m),
        forall|j: usize| #[trigger] member_count(r@, j) == if j < m { q as nat } else { 0 },
{
    let mut r: Vec<usize> = Vec::new();
    let mut i: usize = 0;
    while i < m
        invariant
            i <= m,
            m * q <= usize::MAX,
            r@.len() == i * q,
            all_below(r@, m),
            forall|j: usize| #[trigger] member_count(r@, j) == if j < i { q as nat } else { 0 },
        decreases m - i,
    {
        let mut c: usize = 0;
        while c < q
            invariant
                i < m,
                c <= q,
                m * q <= usize::MAX,
                r@.len() == i * q + c,
                all_below(r@, m),
                forall|j: usize| #[trigger] member_count(r@, j) == if j < i {
                    q as nat
                } else if j == i {
                    c as nat
                } else {
                    0
                },
            decreases q - c,
        {
            assert(i * q + c + 1 <= m * q) by (nonlinear_arith)
                requires
                    i < m,
                    c < q,
            ;
            let ghost before = r@;
            r.push(i);
            assert(r@ == before.push(i));
            assert(r@.to_multiset() == before.to_multiset().insert(i));
            assert forall|j: usize| #[trigger] member_count(r@, j) == member_count(before, j) + if j
                == i {
                1nat
            } else {
                0nat
            } by {
                assert(r@.to_multiset().count(j) == before.to_multiset().insert(i).count(j));
            }
            c = c + 1;
        }
        assert((i + 1) * q == i * q + q) by (nonlinear_arith);
        i = i + 1;
    }
    r
}

/// The base allocation of `n` issues among `m` members, with the members
/// drawn for the `n % m` remaining issues appended, one issue each.
pub fn allocation_with_extras(n: usize, m: usize, extras: &Vec<usize>) -> (r: Vec<usize>)
    requires
        m > 0,
        extras@.len() == n % m,
        all_below(extras@, m),
    ensures
        r@.len() == n,
        all_below(r@, m),
        forall|j: usize| #[trigger] member_count(r@, j)
            == base_share(n as nat, m, j) + member_count(extras@, j),
{
    let q: usize = n / m;
    assert(n == m * q + n % m) by {
        vstd::arithmetic::div_mod::lemma_fundamental_div_mod(n as int, m as int);
    }
    let mut r = base_allocation(m, q);
    let mut k: usize = 0;
    while k < extras.len()
        invariant
            k <= extras@.len(),
            m > 0,
            q == n / m,
            n == m * q + extras@.len(),
            all_below(extras@, m),
            r@.len() == m * q + k,
            all_below(r@, m),
            forall|j: usize| #[trigger] member_count(r@, j)
                == base_share(n as nat, m, j) + member_count(extras@.subrange(0, k as int), j),
        decreases extras@.len() - k,
    {
        let ghost before = r@;
        r.push(extras[k]);
        assert(r@ == before.push(extras@[k as int]));
        assert(r@.to_multiset() == before.to_multiset().insert(extras@[k as int]));
        assert(extras@.subrange(0, k + 1) == extras@.subrange(0, k as int).push(extras@[k as int]));
        assert(extras@.subrange(0, k + 1).to_multiset() == extras@.subrange(0, k as int).to_multiset().insert(
            extras@[k as int],
        ));
        assert forall|j: usize| #[trigger] member_count(r@, j) == member_count(before, j) + if j
            == extras@[k as int] {
            1nat
        } else {
            0nat
        } by {
            assert(r@.to_multiset().count(j) == before.to_multiset().insert(extras@[k as int]).count(j));
            assert(extras@.subrange(0, k + 1).to_multiset().count(j) == extras@.subrange(
                0,
                k as int,
            ).to_multiset().insert(extras@[k as int]).count(j));
        }
        k = k + 1;
    }
    assert(extras@.subrange(0, extras@.len() as int) == extras@);
    r
}

/// A random assignment of `n` issues to `m` members: entry `i` is the
/// position of the member who receives the issue at position `i`. Each
/// member receives `n / m` issues and, for each of the `n % m` remaining
/// issues, a member drawn at random receives one more; the whole is then
/// shuffled. With no member there is nothing to divide by, and the result
/// is `NoMembers`.
pub fn plan_assignment(n: usize, m: usize, rng: &mut StdRng) -> (r: Result<Vec<usize>, BalanceError>)
    ensures
        m == 0 <==> r is Err,
        r is Err ==> r == Err::<Vec<usize>, BalanceError>(BalanceError::NoMembers),
        r matches Ok(a) ==> {
            &&& a@.len() == n
            &&& all_below(a@, m)
            &&& forall|j: usize|
                j < m ==> n / m <= #[trigger] member_count(a@, j) <= n / m + n % m
            &&& forall|j: usize| j >= m ==> #[trigger] member_count(a@, j) == 0
            &&& n % m <= 1 ==> balanced(a@, m)
        },
{
    if m == 0 {
        return Err(BalanceError::NoMembers);
    }
    let rest: usize = n % m;
    let mut extras: Vec<usize> = Vec::new();
    let mut k: usize = 0;
    while k < rest
        invariant
            k <= rest,
            m > 0,
            extras@.len() == k,
            all_below(extras@, m),
        decreases rest - k,
    {
        let drawn = draw_below(rng, m);
        extras.push(drawn);
        k = k + 1;
    }
    let mut a = allocation_with_extras(n, m, &extras);
    let ghost unshuffled = a@;
    shuffle_in_place(&mut a, rng);
    proof {
        lemma_below_from_multiset(a@, unshuffled, m);
        assert(a@.len() == unshuffled.len()) by {
            assert(a@.len() == a@.to_multiset().len());
            assert(unshuffled.len() == unshuffled.to_multiset().len());
        }
        assert forall|j: usize| j < m implies n / m <= #[trigger] member_count(a@, j) <= n / m
            + n % m by {
            assert(member_count(a@, j) == member_count(unshuffled, j));
            assert(member_count(extras@, j) <= extras@.to_multiset().len());
            assert(extras@.to_multiset().len() == extras@.len());
        }
        if rest <= 1 {
            if rest == 1 {
                assert(extras@.no_duplicates());
            }
            assert forall|j: usize| #[trigger] member_count(a@, j) == base_share(n as nat, m, j)
                + member_count(extras@, j) by {
                assert(member_count(a@, j) == member_count(unshuffled, j));
            }
            lemma_distinct_extras_balanced(n, m, extras@, a@);
        }
    }
    Ok(a)
}

/// The member positions of an assignment given as (issue, member) pairs.
pub open spec fn members_of(pairs: Seq<(usize, usize)>) -> Seq<usize> {
    Seq::new(pairs.len(), |i: int| pairs[i].1)
}

/// Shares the selected issues (given by their positions) among `m` members:
/// one pair (issue position, member position) for each selected issue, in
/// the order of `selected`, with the counts of `plan_assignment`.
pub fn assign(selected: &Vec<usize>, m: usize, rng: &mut StdRng) -> (r: Result<
    Vec<(usize, usize)>,
    BalanceError,
>)
    ensures
        m == 0 <==> r is Err,
        r is Err ==> r == Err::<Vec<(usize, usize)>, BalanceError>(BalanceError::NoMembers),
        r matches Ok(pairs) ==> {
            let n = selected@.len();
            &&& pairs@.len() == n
            &&& forall|i: int| 0 <= i < n ==> (#[trigger] pairs@[i]).0 == selected@[i]
            &&& all_below(members_of(pairs@), m)
            &&& forall|j: usize|
                j < m ==> n / (m as nat) <= #[trigger] member_count(members_of(pairs@), j) <= n / (
                m as nat) + n % (m as nat)
            &&& forall|j: usize| j >= m ==> #[trigger] member_count(members_of(pairs@), j) == 0
            &&& n % (m as nat) <= 1 ==> balanced(members_of(pairs@), m)
        },
{
    let n = selected.len();
    match plan_assignment(n, m, rng) {
        Err(e) => Err(e),
        Ok(a) => {
            let mut pairs: Vec<(usize, usize)> = Vec::new();
            let mut i: usize = 0;
            while i < n
                invariant
                    i <= n,
                    n == selected@.len(),
                    a@.len() == n,
                    pairs@.len() == i,
                    forall|k: int| 0 <= k < i ==> (#[trigger] pairs@[k]) == (selected@[k], a@[k]),
                decreases n - i,
            {
                pairs.push((selected[i], a[i]));
                i = i + 1;
            }
            assert(members_of(pairs@) == a@);
            Ok(pairs)
        },
    }
}

/// When the members drawn for the remaining issues are all different, the
/// resulting counts of any two members differ by at most one.
pub proof fn lemma_distinct_extras_balanced(n: usize, m: usize, extras: Seq<usize>, a: Seq<usize>)
    requires
        m > 0,
        extras.no_duplicates(),
        forall|j: usize| #[trigger] member_count(a, j)
            == base_share(n as nat, m, j) + member_count(extras, j),
    ensures
        balanced(a, m),
{
    extras.lemma_multiset_has_no_duplicates();
    assert forall|j: usize| #[trigger] member_count(extras, j) <= 1 by {
        if extras.to_multiset().contains(j) {
        }
    }
    assert forall|j: usize, k: usize|
        j < m && k < m implies #[trigger] member_count(a, j) <= #[trigger] member_count(a, k)
        + 1 by {
        assert(member_count(extras, j) <= 1);
    }
}

} // verus!

//! Fresh identifiers: `base`, then `base-1`, `base-2`, ... until one is unused.
//! Among any `n + 1` of these candidates at least one is missing from a list
//! of `n` ids, so the search always ends.
use vstd::prelude::*;
use vstd::relations::injective_on;
use vstd::set_lib::{lemma_int_range, lemma_len_subset, lemma_map_size, set_int_range};
use vstd::string::StringExecFns;
use crate::text::{decimal, decimal_string, digit_char};

verus! {

broadcast use vstd::string::group_string_axioms;

/// The `k`-th candidate id built on `base`.
pub open spec fn candidate(base: Seq<char>, k: nat) -> Seq<char> {
    if k == 0 {
        base
    } else {
        base + seq!['-'] + decimal(k)
    }
}

proof fn lemma_decimal_len(n: nat)
    ensures
        decimal(n).len() >= 1,
        n >= 10 ==> decimal(n).len() >= 2,
    decreases n,
{
    if n >= 10 {
        lemma_decimal_len(n / 10);
    }
}

proof fn lemma_digit_injective(a: int, b: int)
    requires
        0 <= a < 10,
        0 <= b < 10,
        digit_char(a) == digit_char(b),
    ensures
        a == b,
{
}

/// Different numbers have different decimal digits.
pub proof fn lemma_decimal_injective(a: nat, b: nat)
    requires
        decimal(a) == decimal(b),
    ensures
        a == b,
    decreases a,
{
    lemma_decimal_len(a);
    lemma_decimal_len(b);
    if a < 10 && b < 10 {
        assert(decimal(a)[0] == digit_char(a as int));
        assert(decimal(b)[0] == digit_char(b as int));
        lemma_digit_injective(a as int, b as int);
    } else if a >= 10 && b >= 10 {
        let da = decimal(a);
        let db = decimal(b);
        assert(da.drop_last() =~= decimal(a / 10));
        assert(db.drop_last() =~= decimal(b / 10));
        assert(da.last() == digit_char((a % 10) as int));
        assert(db.last() == digit_char((b % 10) as int));
        lemma_digit_injective((a % 10) as int, (b % 10) as int);
        lemma_decimal_injective(a / 10, b / 10);
    }
}

/// Different candidates are different ids.
pub proof fn lemma_candidates_distinct(base: Seq<char>, a: nat, b: nat)
    requires
        a != b,
    ensures
        candidate(base, a) != candidate(base, b),
{
    lemma_decimal_len(a);
    lemma_decimal_len(b);
    if a > 0 && b > 0 && candidate(base, a) == candidate(base, b) {
        let ca = candidate(base, a);
        let cb = candidate(base, b);
        let start = base.len() + 1;
        assert(ca.subrange(start as int, ca.len() as int) =~= decimal(a));
        assert(cb.subrange(start as int, cb.len() as int) =~= decimal(b));
        lemma_decimal_injective(a, b);
    }
}

/// Some candidate among the first `ids.len() + 1` is not in `ids`.
pub proof fn lemma_free_candidate(base: Seq<char>, ids: Seq<Seq<char>>)
    ensures
        exists|k: nat| k <= ids.len() && !ids.contains(#[trigger] candidate(base, k)),
{
    let n = ids.len() as int;
    if forall|k: nat| k <= ids.len() ==> ids.contains(#[trigger] candidate(base, k)) {
        let x = set_int_range(0, n + 1);
        let f = |k: int| choose|i: int| 0 <= i < n && ids[i] == candidate(base, k as nat);
        let y = x.map(f);
        let r = set_int_range(0, n);
        lemma_int_range(0, n + 1);
        lemma_int_range(0, n);
        assert forall|k: int| x.contains(k) implies 0 <= #[trigger] f(k) < n && ids[f(k)] == candidate(base, k as nat) by {
            assert(ids.contains(candidate(base, k as nat)));
        }
        assert(injective_on(f, x)) by {
            assert forall|a: int, b: int| x.contains(a) && x.contains(b) && #[trigger] f(a) == #[trigger] f(b) implies a == b by {
                if a != b {
                    lemma_candidates_distinct(base, a as nat, b as nat);
                }
            }
        }
        lemma_map_size(x, y, f);
        assert(y.subset_of(r));
        lemma_len_subset(y, r);
        assert(false);
    }
}

/// The `k`-th candidate id built on `base`.
pub fn candidate_string(base: &str, k: u64) -> (r: String)
    ensures
        r@ == candidate(base@, k as nat),
{
    let mut s = String::from_str(base);
    if k > 0 {
        s.append("-");
        let digits = decimal_string(k);
        s.append(digits.as_str());
        proof {
            reveal_strlit("-");
        }
    }
    s
}

} // verus!

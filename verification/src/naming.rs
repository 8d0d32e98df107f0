//! The rule by which a new server gets a name that no directory has yet.

use vstd::prelude::*;
use crate::names::{contains, has_name};
use crate::text::{decimal, from_chars, lemma_decimal_injective, push_decimal, push_str};

verus! {

/// The `k`-th name tried for `base`: `base` itself first, then `base-2`,
/// `base-3` and so on.
pub open spec fn candidate(base: Seq<char>, k: nat) -> Seq<char> {
    if k <= 1 {
        base
    } else {
        base + seq!['-'] + decimal(k)
    }
}

/// The `k`-th name for `base` is free in `existing`, and every earlier one is
/// taken.
pub open spec fn is_first_free(existing: Seq<String>, base: Seq<char>, k: nat) -> bool {
    &&& k >= 1
    &&& !has_name(existing, candidate(base, k))
    &&& forall|j: nat| 1 <= j < k ==> has_name(existing, #[trigger] candidate(base, j))
}

/// The names tried for one base are all different.
pub proof fn lemma_candidate_injective(base: Seq<char>, j: nat, k: nat)
    requires
        j >= 1,
        k >= 1,
        candidate(base, j) == candidate(base, k),
    ensures
        j == k,
{
    crate::text::lemma_decimal_nonempty(j);
    crate::text::lemma_decimal_nonempty(k);
    if j > 1 && k > 1 {
        let a = base + seq!['-'] + decimal(j);
        let b = base + seq!['-'] + decimal(k);
        assert(a.subrange(base.len() as int + 1, a.len() as int) =~= decimal(j));
        assert(b.subrange(base.len() as int + 1, b.len() as int) =~= decimal(k));
        lemma_decimal_injective(j, k);
    } else if j > 1 {
        assert((base + seq!['-'] + decimal(j)).len() > base.len());
    } else if k > 1 {
        assert((base + seq!['-'] + decimal(k)).len() > base.len());
    }
}

/// Among more different candidates than there are names, one is free.
proof fn lemma_free_among(existing: Seq<String>, base: Seq<char>, ks: Seq<nat>)
    requires
        ks.len() > existing.len(),
        forall|i: int| 0 <= i < ks.len() ==> ks[i] >= 1,
        forall|i: int, j: int| 0 <= i < j < ks.len() ==> ks[i] != ks[j],
    ensures
        exists|i: int| 0 <= i < ks.len() && !has_name(existing, candidate(base, #[trigger] ks[i])),
    decreases existing.len(),
{
    let last = ks.len() - 1;
    let c = candidate(base, ks[last]);
    if has_name(existing, c) {
        let p = choose|p: int| 0 <= p < existing.len() && (#[trigger] existing[p])@ == c;
        let fewer = existing.remove(p);
        let rest = ks.drop_last();
        lemma_free_among(fewer, base, rest);
        let i = choose|i: int|
            0 <= i < rest.len() && !has_name(fewer, candidate(base, #[trigger] rest[i]));
        assert(rest[i] == ks[i]);
        let d = candidate(base, ks[i]);
        if d == c {
            lemma_candidate_injective(base, ks[i], ks[last]);
        }
        if has_name(existing, d) {
            let q = choose|q: int| 0 <= q < existing.len() && (#[trigger] existing[q])@ == d;
            if q < p {
                assert(fewer[q]@ == d);
            } else {
                assert(fewer[q - 1]@ == d);
            }
        }
        assert(!has_name(existing, candidate(base, ks[i])));
    } else {
        assert(!has_name(existing, candidate(base, ks[last])));
    }
}

/// If the first `n` candidates are all taken, there are at least `n` names.
pub proof fn lemma_taken_needs_room(existing: Seq<String>, base: Seq<char>, n: nat)
    requires
        forall|j: nat| 1 <= j <= n ==> has_name(existing, #[trigger] candidate(base, j)),
    ensures
        n <= existing.len(),
{
    if n > existing.len() {
        let ks = Seq::new(n, |i: int| (i + 1) as nat);
        lemma_free_among(existing, base, ks);
        let i = choose|i: int|
            0 <= i < ks.len() && !has_name(existing, candidate(base, #[trigger] ks[i]));
        assert(has_name(existing, candidate(base, (i + 1) as nat)));
    }
}

fn numbered(base: &str, number: u128) -> (name: String)
    requires
        number >= 2,
    ensures
        name@ == candidate(base@, number as nat),
{
    let mut out: Vec<char> = Vec::new();
    push_str(&mut out, base);
    out.push('-');
    push_decimal(&mut out, number);
    assert(out@ =~= base@ + seq!['-'] + decimal(number as nat));
    from_chars(&out)
}

/// The first name for `name` that no entry of `existing` has: `name` itself
/// if it is free, else the first free one of `name-2`, `name-3` and so on.
pub fn get_first_server_path(existing: &Vec<String>, name: &str) -> (free: String)
    ensures
        exists|k: nat| is_first_free(existing@, name@, k) && free@ == candidate(name@, k),
        !has_name(existing@, free@),
        has_name(existing@, name@) ==> exists|k: nat| k >= 2 && free@ == candidate(name@, k),
        !has_name(existing@, name@) ==> free@ == name@,
{
    if !contains(existing, name) {
        assert(is_first_free(existing@, name@, 1));
        return name.to_owned();
    }
    let mut number: u128 = 2;
    proof {
        assert(candidate(name@, 1) == name@);
        lemma_taken_needs_room(existing@, name@, 1);
    }
    loop
        invariant
            2 <= number <= existing.len() + 1,
            has_name(existing@, name@),
            forall|j: nat| 1 <= j < number ==> has_name(existing@, #[trigger] candidate(name@, j)),
        decreases existing.len() + 2 - number,
    {
        let name_n = numbered(name, number);
        if !contains(existing, name_n.as_str()) {
            assert(is_first_free(existing@, name@, number as nat));
            return name_n;
        }
        proof {
            lemma_taken_needs_room(existing@, name@, number as nat);
        }
        number = number + 1;
    }
}

/// Only one number is the first free one.
pub proof fn lemma_first_free_unique(existing: Seq<String>, base: Seq<char>, j: nat, k: nat)
    requires
        is_first_free(existing, base, j),
        is_first_free(existing, base, k),
    ensures
        j == k,
{
    if j < k {
        assert(has_name(existing, candidate(base, j)));
    } else if k < j {
        assert(has_name(existing, candidate(base, k)));
    }
}

/// Creating under one base name again and again never reuses a directory and
/// leaves no gap. If a creation got the `k`-th name and that name has been
/// added to the directory, the next creation gets a later name, `next`, and
/// every name between the two was taken before the first creation. So where
/// the name after the `k`-th was free, the next creation gets exactly that
/// one.
pub proof fn lemma_next_creation(
    existing: Seq<String>,
    created: String,
    base: Seq<char>,
    k: nat,
    next: nat,
)
    requires
        is_first_free(existing, base, k),
        created@ == candidate(base, k),
        is_first_free(existing.push(created), base, next),
    ensures
        next > k,
        !has_name(existing, candidate(base, next)),
        forall|j: nat| k < j < next ==> has_name(existing, #[trigger] candidate(base, j)),
        !has_name(existing, candidate(base, k + 1)) ==> next == k + 1,
{
    let after = existing.push(created);
    assert(after[existing.len() as int]@ == candidate(base, k));
    assert(has_name(after, candidate(base, k)));
    assert forall|n: Seq<char>| has_name(existing, n) implies has_name(after, n) by {
        let q = choose|q: int| 0 <= q < existing.len() && (#[trigger] existing[q])@ == n;
        assert(after[q]@ == n);
    }
    assert forall|n: Seq<char>| has_name(after, n) && n != candidate(base, k) implies has_name(
        existing,
        n,
    ) by {
        let q = choose|q: int| 0 <= q < after.len() && (#[trigger] after[q])@ == n;
        assert(existing[q]@ == n);
    }
    if next < k {
        assert(has_name(existing, candidate(base, next)));
    }
    assert forall|j: nat| k < j < next implies has_name(existing, #[trigger] candidate(base, j)) by {
        assert(has_name(after, candidate(base, j)));
        if candidate(base, j) == candidate(base, k) {
            lemma_candidate_injective(base, j, k);
        }
    }
    if !has_name(existing, candidate(base, k + 1)) && next > k + 1 {
        assert(has_name(existing, candidate(base, k + 1)));
    }
}

} // verus!

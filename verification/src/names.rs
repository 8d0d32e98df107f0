//! Sets of names, kept as vectors in which no name stands twice.

use vstd::prelude::*;
use crate::text::to_chars;

verus! {

/// `name` is one of `names`.
pub open spec fn has_name(names: Seq<String>, name: Seq<char>) -> bool {
    exists|k: int| 0 <= k < names.len() && (#[trigger] names[k])@ == name
}

/// The texts of `names`, in order.
pub open spec fn name_views(names: Seq<String>) -> Seq<Seq<char>> {
    names.map_values(|n: String| n@)
}

/// No name stands twice in `names`.
pub open spec fn distinct(names: Seq<String>) -> bool {
    forall|i: int, j: int|
        0 <= i < j < names.len() ==> (#[trigger] names[i])@ != (#[trigger] names[j])@
}

/// Whether two strings hold the same text.
pub fn same_text(a: &str, b: &str) -> (same: bool)
    ensures
        same == (a@ == b@),
{
    let x = to_chars(a);
    let y = to_chars(b);
    if x.len() != y.len() {
        return false;
    }
    let mut i: usize = 0;
    while i < x.len()
        invariant
            i <= x.len(),
            x.len() == y.len(),
            x@ == a@,
            y@ == b@,
            forall|k: int| 0 <= k < i ==> x@[k] == y@[k],
        decreases x.len() - i,
    {
        if x[i] != y[i] {
            assert(a@[i as int] != b@[i as int]);
            return false;
        }
        i = i + 1;
    }
    assert(x@ =~= y@);
    true
}

/// Whether `name` is one of `names`.
pub fn contains(names: &Vec<String>, name: &str) -> (found: bool)
    ensures
        found == has_name(names@, name@),
{
    let mut i: usize = 0;
    while i < names.len()
        invariant
            i <= names.len(),
            forall|k: int| 0 <= k < i ==> (#[trigger] names@[k])@ != name@,
        decreases names.len() - i,
    {
        if same_text(names[i].as_str(), name) {
            return true;
        }
        i = i + 1;
    }
    false
}

/// Adds `name` to `names` unless it is there already.
pub fn insert(names: &mut Vec<String>, name: String)
    requires
        distinct(old(names)@),
    ensures
        distinct(final(names)@),
        forall|n: Seq<char>|
            has_name(final(names)@, n) <==> (has_name(old(names)@, n) || n == name@),
{
    if !contains(names, name.as_str()) {
        let ghost before = names@;
        names.push(name);
        assert forall|n: Seq<char>| has_name(names@, n) <==> (has_name(before, n) || n == name@) by {
            if has_name(before, n) {
                let k = choose|k: int| 0 <= k < before.len() && (#[trigger] before[k])@ == n;
                assert(names@[k]@ == n);
            }
            if n == name@ {
                assert(names@[before.len() as int]@ == n);
            }
            if has_name(names@, n) {
                let k = choose|k: int| 0 <= k < names@.len() && (#[trigger] names@[k])@ == n;
                if k < before.len() {
                    assert(before[k]@ == n);
                }
            }
        }
        assert(distinct(names@)) by {
            assert forall|i: int, j: int| 0 <= i < j < names@.len() implies (#[trigger] names@[i])@
                != (#[trigger] names@[j])@ by {
                if j < before.len() {
                    assert(before[i]@ != before[j]@);
                } else {
                    assert(before[i]@ != name@);
                }
            }
        }
    }
}

} // verus!

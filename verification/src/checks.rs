//! Validation that walks a list and stops at the first failure.
use crate::text;
use vstd::prelude::*;

verus! {

/// The first failure that `check` reports on the positions `0..n`, if any.
pub open spec fn first_error<E>(n: nat, check: spec_fn(int) -> Option<E>) -> Option<E>
    decreases n,
{
    if n == 0 {
        None
    } else {
        match first_error((n - 1) as nat, check) {
            Some(e) => Some(e),
            None => check(n - 1),
        }
    }
}

/// A failure found on a prefix is the first failure of the whole.
pub proof fn lemma_first_error_of_prefix<E>(k: nat, n: nat, check: spec_fn(int) -> Option<E>)
    requires
        k <= n,
        first_error(k, check) is Some,
    ensures
        first_error(n, check) == first_error(k, check),
    decreases n,
{
    if k < n {
        lemma_first_error_of_prefix(k, (n - 1) as nat, check);
    }
}

/// There is no failure exactly when every position passes.
pub proof fn lemma_no_error<E>(n: nat, check: spec_fn(int) -> Option<E>)
    ensures
        first_error(n, check) is None <==> forall|i: int| 0 <= i < n ==> #[trigger] check(i) is None,
    decreases n,
{
    if n > 0 {
        lemma_no_error((n - 1) as nat, check);
        if first_error(n, check) is None {
            assert forall|i: int| 0 <= i < n implies #[trigger] check(i) is None by {
                if i == n - 1 {
                }
            }
        } else {
            if first_error((n - 1) as nat, check) is None {
                assert(check(n - 1) is Some);
            } else {
                let i = choose|i: int| 0 <= i < n - 1 && !(#[trigger] check(i) is None);
                assert(!(check(i) is None));
            }
        }
    }
}

/// Whether one of `items` is blank.
pub open spec fn has_blank(items: Seq<String>) -> bool {
    exists|i: int| 0 <= i < items.len() && text::is_blank((#[trigger] items[i])@)
}

/// Whether one of `items` is blank.
pub fn any_blank(items: &Vec<String>) -> (b: bool)
    ensures
        b == has_blank(items@),
{
    for i in 0..items.len()
        invariant
            forall|j: int| 0 <= j < i ==> !text::is_blank((#[trigger] items@[j])@),
    {
        if text::blank(items[i].as_str()) {
            assert(text::is_blank(items@[i as int]@));
            return true;
        }
    }
    false
}

/// What is reported is the failure of the first position that fails.
pub proof fn first_errors_are_of_the_first_failure<E>(
    n: nat,
    check: spec_fn(int) -> Option<E>,
) -> (at: int)
    ensures
        first_error(n, check) is Some ==> 0 <= at < n && check(at) == first_error(n, check)
            && forall|j: int| 0 <= j < at ==> #[trigger] check(j) is None,
        first_error(n, check) is None ==> at == n && forall|j: int|
            0 <= j < n ==> #[trigger] check(j) is None,
    decreases n,
{
    if n == 0 {
        0
    } else {
        let before = first_errors_are_of_the_first_failure((n - 1) as nat, check);
        if first_error((n - 1) as nat, check) is Some {
            before
        } else if check(n - 1) is Some {
            n - 1
        } else {
            n as int
        }
    }
}

/// A list has a blank text exactly when one of its texts holds white space only.
pub proof fn blank_entries_are_found(items: Seq<String>)
    ensures
        has_blank(items) <==> !(forall|i: int|
            0 <= i < items.len() ==> !text::is_blank((#[trigger] items[i])@)),
{
}

} // verus!

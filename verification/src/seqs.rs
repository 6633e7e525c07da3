//! Statements about sequences that the contracts of the tables are written in.

use vstd::prelude::*;

use crate::errors;
use crate::errors::{PwbErrorView, PwbResult};

verus! {

/// The first position whose element satisfies `p`.
pub open spec fn first_where<T>(s: Seq<T>, p: spec_fn(T) -> bool) -> Option<int>
    decreases s.len(),
{
    if s.len() == 0 {
        None
    } else {
        match first_where(s.drop_last(), p) {
            Some(i) => Some(i),
            None => if p(s.last()) {
                Some(s.len() - 1)
            } else {
                None
            },
        }
    }
}

/// Whether `r` is the first position of `s` whose element satisfies `p`.
pub open spec fn is_first_where<T>(s: Seq<T>, p: spec_fn(T) -> bool, r: Option<int>) -> bool {
    match r {
        Some(i) => {
            &&& 0 <= i < s.len()
            &&& p(s[i])
            &&& forall|j: int| 0 <= j < i ==> !p(#[trigger] s[j])
        },
        None => forall|j: int| 0 <= j < s.len() ==> !p(#[trigger] s[j]),
    }
}

pub proof fn lemma_first_where<T>(s: Seq<T>, p: spec_fn(T) -> bool)
    ensures
        is_first_where(s, p, first_where(s, p)),
    decreases s.len(),
{
    if s.len() > 0 {
        let rest = s.drop_last();
        lemma_first_where(rest, p);
        assert forall|j: int| 0 <= j < rest.len() implies #[trigger] s[j] == rest[j] by {}
        if let Some(i) = first_where(rest, p) {
            assert(rest[i] == s[i]);
            assert forall|j: int| 0 <= j < i implies !p(#[trigger] s[j]) by {
                assert(rest[j] == s[j]);
            }
        } else {
            assert forall|j: int| 0 <= j < rest.len() implies !p(#[trigger] s[j]) by {
                assert(rest[j] == s[j]);
            }
        }
    }
}

pub proof fn lemma_first_where_is_unique<T>(s: Seq<T>, p: spec_fn(T) -> bool, r: Option<int>)
    requires
        is_first_where(s, p, r),
    ensures
        first_where(s, p) == r,
{
    lemma_first_where(s, p);
    match (first_where(s, p), r) {
        (Some(i), Some(k)) => {
            assert(p(s[i]) && p(s[k]));
        },
        (Some(i), None) => {
            assert(p(s[i]));
        },
        (None, Some(k)) => {
            assert(p(s[k]));
        },
        (None, None) => {},
    }
}

/// The values of a sequence of results, or the first error in it.
pub open spec fn all_ok<T>(results: Seq<Result<T, PwbErrorView>>) -> Result<
    Seq<T>,
    PwbErrorView,
>
    decreases results.len(),
{
    if results.len() == 0 {
        Ok(Seq::empty())
    } else {
        match all_ok(results.drop_last()) {
            Err(error) => Err(error),
            Ok(values) => match results.last() {
                Err(error) => Err(error),
                Ok(value) => Ok(values.push(value)),
            },
        }
    }
}

/// Whether `result` holds the values of `expected`, or its error.
pub open spec fn same_values<T>(
    result: PwbResult<Vec<T>>,
    expected: Result<Seq<T>, PwbErrorView>,
) -> bool {
    match expected {
        Ok(values) => result matches Ok(v) && v@ == values,
        Err(error) => errors::fails_with(result, error),
    }
}

pub proof fn lemma_all_ok_step<T>(results: Seq<Result<T, PwbErrorView>>, i: int)
    requires
        0 <= i < results.len(),
    ensures
        all_ok(results.take(i + 1)) == match all_ok(results.take(i)) {
            Err(error) => Err(error),
            Ok(values) => match results[i] {
                Err(error) => Err(error),
                Ok(value) => Ok(values.push(value)),
            },
        },
{
    assert(results.take(i + 1).drop_last() =~= results.take(i));
}

/// An error among the first results is the error of them all.
pub proof fn lemma_all_ok_keeps_error<T>(results: Seq<Result<T, PwbErrorView>>, i: int)
    requires
        0 <= i <= results.len(),
        all_ok(results.take(i)) is Err,
    ensures
        all_ok(results) == all_ok(results.take(i)),
    decreases results.len() - i,
{
    if i == results.len() {
        assert(results.take(i) =~= results);
    } else {
        lemma_all_ok_step(results, i);
        lemma_all_ok_keeps_error(results, i + 1);
    }
}

/// Results that are all values give those values.
pub proof fn lemma_all_ok_of_values<T>(results: Seq<Result<T, PwbErrorView>>)
    requires
        forall|i: int| 0 <= i < results.len() ==> (#[trigger] results[i]) is Ok,
    ensures
        all_ok(results) == Ok::<Seq<T>, PwbErrorView>(
            Seq::new(results.len(), |i: int| results[i]->Ok_0),
        ),
    decreases results.len(),
{
    if results.len() == 0 {
        assert(Seq::new(results.len(), |i: int| results[i]->Ok_0) =~= Seq::<T>::empty());
    } else {
        let rest = results.drop_last();
        assert forall|i: int| 0 <= i < rest.len() implies (#[trigger] rest[i]) is Ok by {
            assert(rest[i] == results[i]);
        }
        lemma_all_ok_of_values(rest);
        assert(results[results.len() - 1] is Ok);
        assert(Seq::new(rest.len(), |i: int| rest[i]->Ok_0).push(results.last()->Ok_0) =~= Seq::new(
            results.len(),
            |i: int| results[i]->Ok_0,
        ));
    }
}

pub proof fn lemma_filter_step<T>(s: Seq<T>, p: spec_fn(T) -> bool, i: int)
    requires
        0 <= i < s.len(),
    ensures
        s.take(i + 1).filter(p) == if p(s[i]) {
            s.take(i).filter(p).push(s[i])
        } else {
            s.take(i).filter(p)
        },
{
    reveal(Seq::filter);
    assert(s.take(i + 1).drop_last() =~= s.take(i));
}

/// The elements of a prefix that satisfy `p` are the first of all elements that do.
pub proof fn lemma_filter_prefix<T>(s: Seq<T>, p: spec_fn(T) -> bool, i: int)
    requires
        0 <= i <= s.len(),
    ensures
        s.take(i).filter(p).len() <= s.filter(p).len(),
        s.take(i).filter(p) == s.filter(p).take(s.take(i).filter(p).len() as int),
    decreases s.len() - i,
{
    if i == s.len() {
        assert(s.take(i) =~= s);
        assert(s.filter(p).take(s.filter(p).len() as int) =~= s.filter(p));
    } else {
        lemma_filter_step(s, p, i);
        lemma_filter_prefix(s, p, i + 1);
        let shorter = s.take(i).filter(p);
        let longer = s.take(i + 1).filter(p);
        assert(shorter =~= longer.take(shorter.len() as int));
        assert(s.filter(p).take(longer.len() as int).take(shorter.len() as int) =~= s.filter(p).take(
            shorter.len() as int,
        ));
    }
}

/// A position as an integer.
pub open spec fn as_index(position: Option<usize>) -> Option<int> {
    match position {
        Some(i) => Some(i as int),
        None => None,
    }
}

/// What `f` makes of the elements that satisfy `p`, or the first error among that.
pub open spec fn all_ok_where<S, T>(
    s: Seq<S>,
    p: spec_fn(S) -> bool,
    f: spec_fn(S) -> Result<T, PwbErrorView>,
) -> Result<Seq<T>, PwbErrorView> {
    all_ok(s.filter(p).map_values(f))
}

pub proof fn lemma_all_ok_where_step<S, T>(
    s: Seq<S>,
    p: spec_fn(S) -> bool,
    f: spec_fn(S) -> Result<T, PwbErrorView>,
    i: int,
)
    requires
        0 <= i < s.len(),
    ensures
        all_ok_where(s.take(i + 1), p, f) == if p(s[i]) {
            match all_ok_where(s.take(i), p, f) {
                Err(error) => Err(error),
                Ok(values) => match f(s[i]) {
                    Err(error) => Err(error),
                    Ok(value) => Ok(values.push(value)),
                },
            }
        } else {
            all_ok_where(s.take(i), p, f)
        },
{
    lemma_filter_step(s, p, i);
    if p(s[i]) {
        let longer = s.take(i + 1).filter(p).map_values(f);
        assert(longer.drop_last() =~= s.take(i).filter(p).map_values(f));
        assert(longer.last() == f(s[i]));
    }
}

pub proof fn lemma_all_ok_where_keeps_error<S, T>(
    s: Seq<S>,
    p: spec_fn(S) -> bool,
    f: spec_fn(S) -> Result<T, PwbErrorView>,
    i: int,
)
    requires
        0 <= i <= s.len(),
        all_ok_where(s.take(i), p, f) is Err,
    ensures
        all_ok_where(s, p, f) == all_ok_where(s.take(i), p, f),
{
    lemma_filter_prefix(s, p, i);
    let k = s.take(i).filter(p).len() as int;
    assert(s.filter(p).map_values(f).take(k) =~= s.take(i).filter(p).map_values(f));
    lemma_all_ok_keeps_error(s.filter(p).map_values(f), k);
}

pub proof fn lemma_all_ok_where_empty<S, T>(
    s: Seq<S>,
    p: spec_fn(S) -> bool,
    f: spec_fn(S) -> Result<T, PwbErrorView>,
)
    ensures
        all_ok_where(s.take(0), p, f) == Ok::<Seq<T>, PwbErrorView>(Seq::empty()),
{
    reveal(Seq::filter);
    assert(s.take(0).filter(p).map_values(f) =~= Seq::empty());
}

/// The first error decides: what comes behind it does not matter. Without an error every value is there, in
/// its place.
pub proof fn law_first_error_decides<T>(results: Seq<Result<T, PwbErrorView>>, i: int)
    requires
        0 <= i <= results.len(),
        forall|j: int| 0 <= j < i ==> (#[trigger] results[j]) is Ok,
        i < results.len() ==> results[i] is Err,
    ensures
        i < results.len() ==> all_ok(results) == Err::<Seq<T>, PwbErrorView>(results[i]->Err_0),
        i == results.len() ==> (all_ok(results) matches Ok(values) && values.len() == results.len()
            && forall|j: int| 0 <= j < values.len() ==> results[j] == Ok::<T, PwbErrorView>(
            #[trigger] values[j],
        )),
{
    let prefix = results.take(i);
    assert forall|j: int| 0 <= j < prefix.len() implies (#[trigger] prefix[j]) is Ok by {
        assert(results[j] is Ok);
    }
    lemma_all_ok_of_values(prefix);
    if i < results.len() {
        lemma_all_ok_step(results, i);
        lemma_all_ok_keeps_error(results, i + 1);
    } else {
        assert(prefix =~= results);
    }
}

/// Of the first element with a property none before it has it, and it is missing exactly where no element
/// has it.
pub proof fn law_first_element_is_the_first<T>(s: Seq<T>, p: spec_fn(T) -> bool)
    ensures
        first_where(s, p) matches Some(i) ==> 0 <= i < s.len() && p(s[i]) && forall|j: int|
            0 <= j < i ==> !p(#[trigger] s[j]),
        first_where(s, p) is None ==> forall|j: int| 0 <= j < s.len() ==> !p(#[trigger] s[j]),
{
    lemma_first_where(s, p);
}

} // verus!

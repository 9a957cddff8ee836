//! Folding one group's resolved options into a filter: list options append,
//! scalar options overwrite.

use vstd::prelude::*;
use crate::filter::{appended, empty_model, FilterModel, Request};

verus! {

/// One resolved occurrence of a filter option, as the option parser hands it over.
pub enum FilterOption {
    Ids(Vec<String>),
    Authors(Vec<String>),
    Kinds(Vec<u32>),
    ETags(Vec<String>),
    PTags(Vec<String>),
    Since(u32),
    Until(u32),
    Limit(u32),
}

/// The model after one occurrence: a non-empty list is appended to its
/// constraint (an empty one changes nothing), a scalar replaces its constraint.
pub open spec fn apply_option(m: FilterModel, o: FilterOption) -> FilterModel {
    match o {
        FilterOption::Ids(v) => if v@.len() == 0 { m } else {
            FilterModel { ids: appended(m.ids, v@), ..m }
        },
        FilterOption::Authors(v) => if v@.len() == 0 { m } else {
            FilterModel { authors: appended(m.authors, v@), ..m }
        },
        FilterOption::Kinds(v) => if v@.len() == 0 { m } else {
            FilterModel { kinds: appended(m.kinds, v@), ..m }
        },
        FilterOption::ETags(v) => if v@.len() == 0 { m } else {
            FilterModel { etags: appended(m.etags, v@), ..m }
        },
        FilterOption::PTags(v) => if v@.len() == 0 { m } else {
            FilterModel { ptags: appended(m.ptags, v@), ..m }
        },
        FilterOption::Since(n) => FilterModel { since: Some(n), ..m },
        FilterOption::Until(n) => FilterModel { until: Some(n), ..m },
        FilterOption::Limit(n) => FilterModel { limit: Some(n), ..m },
    }
}

/// The model after the occurrences, taken in order.
pub open spec fn fold_options(m: FilterModel, os: Seq<FilterOption>) -> FilterModel
    decreases os.len(),
{
    if os.len() == 0 {
        m
    } else {
        apply_option(fold_options(m, os.drop_last()), os.last())
    }
}

/// Every event id supplied by the occurrences, in order.
pub open spec fn supplied_ids(os: Seq<FilterOption>) -> Seq<String>
    decreases os.len(),
{
    if os.len() == 0 {
        Seq::empty()
    } else {
        supplied_ids(os.drop_last()) + match os.last() {
            FilterOption::Ids(v) => v@,
            _ => Seq::empty(),
        }
    }
}

/// The value of the last `Since` occurrence, if any.
pub open spec fn last_since(os: Seq<FilterOption>) -> Option<u32>
    decreases os.len(),
{
    if os.len() == 0 {
        None
    } else {
        match os.last() {
            FilterOption::Since(n) => Some(n),
            _ => last_since(os.drop_last()),
        }
    }
}

/// A list that is absent when empty.
pub open spec fn present<T>(s: Seq<T>) -> Option<Seq<T>> {
    if s.len() == 0 { None } else { Some(s) }
}

impl Request {
    /// Applies one option occurrence to the filter.
    pub fn apply(&mut self, option: FilterOption)
        ensures
            final(self)@ == apply_option(old(self)@, option),
    {
        match option {
            FilterOption::Ids(v) => if v.len() > 0 { self.ids(v); },
            FilterOption::Authors(v) => if v.len() > 0 { self.authors(v); },
            FilterOption::Kinds(v) => if v.len() > 0 { self.kinds(v); },
            FilterOption::ETags(v) => if v.len() > 0 { self.etags(v); },
            FilterOption::PTags(v) => if v.len() > 0 { self.ptags(v); },
            FilterOption::Since(n) => { self.since(n); },
            FilterOption::Until(n) => { self.until(n); },
            FilterOption::Limit(n) => { self.limit(n); },
        }
    }
}

/// Builds the filter of one group from its option occurrences, in order.
pub fn request_from_cli(options: Vec<FilterOption>) -> (r: Request)
    ensures
        r@ == fold_options(empty_model(), options@),
{
    let ghost all = options@;
    let mut rest = options;
    let mut request = Request::new();
    let ghost mut i: int = 0;
    while rest.len() > 0
        invariant
            0 <= i <= all.len(),
            rest@ == all.skip(i),
            request@ == fold_options(empty_model(), all.take(i)),
        decreases rest@.len(),
    {
        let o = rest.remove(0);
        request.apply(o);
        proof {
            assert(all.take(i + 1).drop_last() =~= all.take(i));
            assert(rest@ =~= all.skip(i + 1));
            i = i + 1;
        }
    }
    assert(all.take(i) =~= all);
    request
}

/// Event ids accumulate: the filter's ids are exactly every id supplied, over
/// every occurrence, in order, and absent when none was supplied.
pub proof fn lemma_ids_accumulate(os: Seq<FilterOption>)
    ensures
        fold_options(empty_model(), os).ids == present(supplied_ids(os)),
    decreases os.len(),
{
    if os.len() > 0 {
        lemma_ids_accumulate(os.drop_last());
        let prev = supplied_ids(os.drop_last());
        match os.last() {
            FilterOption::Ids(v) => {
                assert(supplied_ids(os) == prev + v@);
                if v@.len() == 0 {
                    assert(prev + v@ =~= prev);
                }
            },
            _ => {
                assert(prev + Seq::<String>::empty() =~= prev);
            },
        }
    }
}

/// The lower time bound is overwritten: the filter holds the value of the last
/// `Since` occurrence, and none when there was none.
pub proof fn lemma_since_last_wins(os: Seq<FilterOption>)
    ensures
        fold_options(empty_model(), os).since == last_since(os),
    decreases os.len(),
{
    if os.len() > 0 {
        lemma_since_last_wins(os.drop_last());
    }
}

} // verus!

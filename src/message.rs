//! Assembling the request line: subscription id, one filter per group, and
//! the empty-group policy.
//!
//! Empty groups are compacted: a group whose filter is `{}` is left out, and
//! when every group is left out the request carries the single filter `{}`.

use vstd::prelude::*;
use crate::filter::{empty_model, filter_json, lemma_empty_filter_json};
use crate::json::{join_commas, json_string_of, push_joined, quote, texts};
use crate::options::{fold_options, request_from_cli, FilterOption};

verus! {

/// The resolved options of one OR-group.
pub struct GroupOptions {
    /// An explicit subscription id; only the first group's counts.
    pub subscription_id: Option<String>,
    /// The filter option occurrences, in the order they were given.
    pub options: Vec<FilterOption>,
}

/// The text of the empty filter, `{}`.
pub open spec fn empty_filter() -> Seq<char> {
    "{}".view()
}

/// The JSON text of a group's filter.
pub open spec fn group_json(g: GroupOptions) -> Seq<char> {
    filter_json(fold_options(empty_model(), g.options@))
}

/// The JSON text of every group's filter, in group order.
pub open spec fn groups_json(gs: Seq<GroupOptions>) -> Seq<Seq<char>> {
    gs.map_values(|g: GroupOptions| group_json(g))
}

/// The filters other than `{}`, in order.
pub open spec fn non_empty_filters(fs: Seq<Seq<char>>) -> Seq<Seq<char>>
    decreases fs.len(),
{
    if fs.len() == 0 {
        Seq::empty()
    } else if fs.last() == empty_filter() {
        non_empty_filters(fs.drop_last())
    } else {
        non_empty_filters(fs.drop_last()).push(fs.last())
    }
}

/// The filters that a request carries: the non-empty ones, or `{}` alone
/// when there is none.
pub open spec fn compacted(fs: Seq<Seq<char>>) -> Seq<Seq<char>> {
    if non_empty_filters(fs).len() == 0 {
        seq![empty_filter()]
    } else {
        non_empty_filters(fs)
    }
}

/// The request line `["REQ",<id>,<filter>,...]`.
pub open spec fn request_line(id: Seq<char>, filters: Seq<Seq<char>>) -> Seq<char> {
    "[".view() + join_commas(seq!["\"REQ\"".view(), json_string_of(id)] + filters) + "]".view()
}

/// The explicit subscription id of the first group, if any.
pub open spec fn first_explicit_id(gs: Seq<GroupOptions>) -> Option<String> {
    if gs.len() == 0 {
        None
    } else {
        gs[0].subscription_id
    }
}

/// The lower-case hexadecimal digits.
pub open spec fn is_lower_hex(c: char) -> bool {
    ('0' <= c && c <= '9') || ('a' <= c && c <= 'f')
}

/// Hyphenated lower-case text of a random (version 4, RFC 4122 variant) UUID.
pub open spec fn is_uuid_v4_text(s: Seq<char>) -> bool {
    &&& s.len() == 36
    &&& forall|i: int|
        0 <= i < 36 ==> if i == 8 || i == 13 || i == 18 || i == 23 {
            #[trigger] s[i] == '-'
        } else {
            is_lower_hex(s[i])
        }
    &&& s[14] == '4'
    &&& (s[19] == '8' || s[19] == '9' || s[19] == 'a' || s[19] == 'b')
}

/// Relies on `uuid::Uuid::new_v4` and its `Display`: a fresh random UUID with
/// the version and variant bits set, written hyphenated in lower case.
#[verifier::external_body]
fn random_subscription_id() -> (r: String)
    ensures
        is_uuid_v4_text(r@),
{
    uuid::Uuid::new_v4().to_string()
}

/// The filter JSON of every group, in group order.
pub fn filters_json(groups: Vec<GroupOptions>) -> (r: Vec<String>)
    ensures
        texts(r@) == groups_json(groups@),
{
    let ghost all = groups@;
    let mut rest = groups;
    let mut out: Vec<String> = Vec::new();
    let ghost mut i: int = 0;
    while rest.len() > 0
        invariant
            0 <= i <= all.len(),
            rest@ == all.skip(i),
            texts(out@) =~= groups_json(all.take(i)),
        decreases rest@.len(),
    {
        let g = rest.remove(0);
        let mut request = request_from_cli(g.options);
        let j = request.to_json();
        let ghost prev = out@;
        out.push(j);
        proof {
            assert(g == all[i]);
            assert(texts(out@) =~= texts(prev).push(j@));
            assert(all.take(i + 1) =~= all.take(i).push(all[i]));
            assert(groups_json(all.take(i + 1)) =~= groups_json(all.take(i)).push(group_json(all[i])));
            assert(rest@ =~= all.skip(i + 1));
            i = i + 1;
        }
    }
    assert(all.take(i) =~= all);
    out
}

/// Leaves out the `{}` filters; keeps `{}` alone when nothing else is left.
pub fn compact_filters(filters: Vec<String>) -> (r: Vec<String>)
    ensures
        texts(r@) == compacted(texts(filters@)),
{
    let mut empty = String::new();
    empty.append("{}");
    let mut kept: Vec<String> = Vec::new();
    let ghost all = filters@;
    let mut rest = filters;
    let ghost mut i: int = 0;
    while rest.len() > 0
        invariant
            0 <= i <= all.len(),
            rest@ == all.skip(i),
            empty@ == empty_filter(),
            texts(kept@) =~= non_empty_filters(texts(all.take(i))),
        decreases rest@.len(),
    {
        let f = rest.remove(0);
        proof {
            assert(f == all[i]);
            assert(texts(all.take(i + 1)).drop_last() =~= texts(all.take(i)));
            assert(texts(all.take(i + 1)).last() == f@);
        }
        if !f.eq(&empty) {
            let ghost prev = kept@;
            kept.push(f);
            assert(texts(kept@) =~= texts(prev).push(f@));
        }
        proof {
            assert(rest@ =~= all.skip(i + 1));
            i = i + 1;
        }
    }
    assert(all.take(i) =~= all);
    if kept.len() == 0 {
        kept.push(empty);
        assert(texts(kept@) =~= seq![empty_filter()]);
    }
    kept
}

/// The request line for subscription `id` carrying `filters`, in order.
pub fn format_request(id: &String, filters: Vec<String>) -> (r: String)
    ensures
        r@ == request_line(id@, texts(filters@)),
{
    let mut req = String::new();
    req.append("\"REQ\"");
    let mut parts: Vec<String> = vec![req, quote(id.as_str())];
    let mut filters = filters;
    let ghost head = parts@;
    let ghost tail = filters@;
    parts.append(&mut filters);
    assert(texts(parts@) =~= seq!["\"REQ\"".view(), json_string_of(id@)] + texts(tail));
    let mut r = String::new();
    r.append("[");
    push_joined(&mut r, &parts);
    r.append("]");
    assert(r@ =~= request_line(id@, texts(tail)));
    r
}

/// The request line for subscription `id`: one filter per group, compacted.
pub fn assemble_request(id: &String, groups: Vec<GroupOptions>) -> (r: String)
    ensures
        r@ == request_line(id@, compacted(groups_json(groups@))),
{
    let filters = filters_json(groups);
    let kept = compact_filters(filters);
    format_request(id, kept)
}

/// The subscription id: the first group's explicit one, else a fresh random one.
pub fn subscription_id(groups: &Vec<GroupOptions>) -> (r: String)
    ensures
        match first_explicit_id(groups@) {
            Some(s) => r == s,
            None => is_uuid_v4_text(r@),
        },
{
    if groups.len() > 0 {
        match &groups[0].subscription_id {
            Some(s) => {
                return s.clone();
            },
            None => {},
        }
    }
    random_subscription_id()
}

/// The request line for the groups, with the first group's explicit
/// subscription id or, without one, a fresh random id.
pub fn assemble(groups: Vec<GroupOptions>) -> (r: String)
    ensures
        exists|id: Seq<char>|
            (match first_explicit_id(groups@) {
                Some(s) => id == s@,
                None => is_uuid_v4_text(id),
            }) && r@ == #[trigger] request_line(id, compacted(groups_json(groups@))),
{
    let id = subscription_id(&groups);
    let r = assemble_request(&id, groups);
    assert(r@ == request_line(id@, compacted(groups_json(groups@))));
    r
}

/// Filters that are all `{}` (any number, none included) compact to `{}` alone.
pub proof fn lemma_empty_filters_compact(fs: Seq<Seq<char>>)
    requires
        forall|i: int| 0 <= i < fs.len() ==> #[trigger] fs[i] == empty_filter(),
    ensures
        compacted(fs) == seq![empty_filter()],
{
    lemma_no_non_empty_filters(fs);
}

proof fn lemma_no_non_empty_filters(fs: Seq<Seq<char>>)
    requires
        forall|i: int| 0 <= i < fs.len() ==> #[trigger] fs[i] == empty_filter(),
    ensures
        non_empty_filters(fs).len() == 0,
    decreases fs.len(),
{
    if fs.len() > 0 {
        assert(fs.last() == fs[fs.len() - 1]);
        lemma_no_non_empty_filters(fs.drop_last());
    }
}

/// Groups that supply no filter option at all give a request carrying the
/// single filter `{}`, however many such groups there are.
pub proof fn lemma_empty_groups_request(id: Seq<char>, gs: Seq<GroupOptions>)
    requires
        forall|i: int| 0 <= i < gs.len() ==> (#[trigger] gs[i]).options@.len() == 0,
    ensures
        request_line(id, compacted(groups_json(gs))) == request_line(id, seq!["{}".view()]),
{
    let fs = groups_json(gs);
    assert forall|i: int| 0 <= i < fs.len() implies #[trigger] fs[i] == empty_filter() by {
        assert(gs[i].options@ =~= Seq::<FilterOption>::empty());
        lemma_empty_filter_json();
    }
    lemma_empty_filters_compact(fs);
}

} // verus!

//! One subscription filter: its constraints, how resolved options accumulate
//! into it, and its JSON text.

use vstd::prelude::*;
use crate::json::{
    decimal, join_commas, json_string_of, push_decimal, push_joined, quote, texts,
};

verus! {

/// What a [`Request`] holds: each constraint is absent (`None`) or present.
pub struct FilterModel {
    pub ids: Option<Seq<String>>,
    pub authors: Option<Seq<String>>,
    pub kinds: Option<Seq<u32>>,
    pub etags: Option<Seq<String>>,
    pub ptags: Option<Seq<String>>,
    pub since: Option<u32>,
    pub until: Option<u32>,
    pub limit: Option<u32>,
}

/// The model with every constraint absent.
pub open spec fn empty_model() -> FilterModel {
    FilterModel {
        ids: None,
        authors: None,
        kinds: None,
        etags: None,
        ptags: None,
        since: None,
        until: None,
        limit: None,
    }
}

/// A list constraint after `more` is appended to it (an absent list starts empty).
pub open spec fn appended<T>(list: Option<Seq<T>>, more: Seq<T>) -> Option<Seq<T>> {
    match list {
        Some(s) => Some(s + more),
        None => Some(more),
    }
}

/// A subscription filter (one OR-group of a request).
pub struct Request {
    ids: Option<Vec<String>>,
    authors: Option<Vec<String>>,
    kinds: Option<Vec<u32>>,
    e: Option<Vec<String>>,
    p: Option<Vec<String>>,
    since: Option<u32>,
    until: Option<u32>,
    limit: Option<u32>,
}

/// The contents of an optional vector.
pub open spec fn seq_of<T>(v: Option<Vec<T>>) -> Option<Seq<T>> {
    match v {
        Some(v) => Some(v@),
        None => None,
    }
}

/// A JSON array of strings.
pub open spec fn string_array(v: Seq<String>) -> Seq<char> {
    "[".view() + join_commas(v.map_values(|s: String| json_string_of(s@))) + "]".view()
}

/// A JSON array of numbers.
pub open spec fn number_array(v: Seq<u32>) -> Seq<char> {
    "[".view() + join_commas(v.map_values(|k: u32| decimal(k as nat))) + "]".view()
}

/// The member `key` (already quoted, with its colon) holding a string list, if present.
pub open spec fn strings_member(key: Seq<char>, list: Option<Seq<String>>) -> Seq<Seq<char>> {
    match list {
        Some(v) => seq![key + string_array(v)],
        None => Seq::empty(),
    }
}

/// The member `key` holding a number list, if present.
pub open spec fn numbers_member(key: Seq<char>, list: Option<Seq<u32>>) -> Seq<Seq<char>> {
    match list {
        Some(v) => seq![key + number_array(v)],
        None => Seq::empty(),
    }
}

/// The member `key` holding one number, if present.
pub open spec fn number_member(key: Seq<char>, n: Option<u32>) -> Seq<Seq<char>> {
    match n {
        Some(n) => seq![key + decimal(n as nat)],
        None => Seq::empty(),
    }
}

/// The members of a filter's JSON object, in their fixed order; absent
/// constraints have none.
pub open spec fn members(m: FilterModel) -> Seq<Seq<char>> {
    strings_member("\"ids\":".view(), m.ids)
        + strings_member("\"authors\":".view(), m.authors)
        + numbers_member("\"kinds\":".view(), m.kinds)
        + strings_member("\"#e\":".view(), m.etags)
        + strings_member("\"#p\":".view(), m.ptags)
        + number_member("\"since\":".view(), m.since)
        + number_member("\"until\":".view(), m.until)
        + number_member("\"limit\":".view(), m.limit)
}

/// The JSON object text of a filter.
pub open spec fn filter_json(m: FilterModel) -> Seq<char> {
    "{".view() + join_commas(members(m)) + "}".view()
}

fn string_array_text(v: &Vec<String>) -> (r: String)
    ensures
        r@ == string_array(v@),
{
    let mut quoted: Vec<String> = Vec::new();
    let mut i: usize = 0;
    while i < v.len()
        invariant
            i <= v@.len(),
            texts(quoted@) =~= v@.take(i as int).map_values(|s: String| json_string_of(s@)),
        decreases v@.len() - i,
    {
        let q = quote(v[i].as_str());
        let ghost prev = quoted@;
        quoted.push(q);
        proof {
            assert(texts(quoted@) =~= texts(prev).push(q@));
            assert(v@.take(i as int + 1).map_values(|s: String| json_string_of(s@))
                =~= v@.take(i as int).map_values(|s: String| json_string_of(s@)).push(q@));
        }
        i = i + 1;
    }
    assert(v@.take(v@.len() as int) =~= v@);
    let mut r = String::new();
    r.append("[");
    push_joined(&mut r, &quoted);
    r.append("]");
    assert(r@ =~= string_array(v@));
    r
}

fn number_array_text(v: &Vec<u32>) -> (r: String)
    ensures
        r@ == number_array(v@),
{
    let mut digits: Vec<String> = Vec::new();
    let mut i: usize = 0;
    while i < v.len()
        invariant
            i <= v@.len(),
            texts(digits@) =~= v@.take(i as int).map_values(|k: u32| decimal(k as nat)),
        decreases v@.len() - i,
    {
        let mut d = String::new();
        push_decimal(&mut d, v[i]);
        assert(d@ =~= decimal(v@[i as int] as nat));
        let ghost prev = digits@;
        digits.push(d);
        proof {
            assert(texts(digits@) =~= texts(prev).push(d@));
            assert(v@.take(i as int + 1).map_values(|k: u32| decimal(k as nat))
                =~= v@.take(i as int).map_values(|k: u32| decimal(k as nat)).push(d@));
        }
        i = i + 1;
    }
    assert(v@.take(v@.len() as int) =~= v@);
    let mut r = String::new();
    r.append("[");
    push_joined(&mut r, &digits);
    r.append("]");
    assert(r@ =~= number_array(v@));
    r
}

fn push_strings_member(out: &mut Vec<String>, key: &str, list: &Option<Vec<String>>)
    ensures
        texts(final(out)@) == texts(old(out)@) + strings_member(key@, seq_of(*list)),
{
    match list {
        Some(v) => {
            let mut m = String::new();
            m.append(key);
            let a = string_array_text(v);
            m.append(a.as_str());
            out.push(m);
            assert(texts(final(out)@) =~= texts(old(out)@) + strings_member(key@, seq_of(*list)));
        },
        None => {
            assert(texts(final(out)@) =~= texts(old(out)@) + strings_member(key@, seq_of(*list)));
        },
    }
}

fn push_numbers_member(out: &mut Vec<String>, key: &str, list: &Option<Vec<u32>>)
    ensures
        texts(final(out)@) == texts(old(out)@) + numbers_member(key@, seq_of(*list)),
{
    match list {
        Some(v) => {
            let mut m = String::new();
            m.append(key);
            let a = number_array_text(v);
            m.append(a.as_str());
            out.push(m);
            assert(texts(final(out)@) =~= texts(old(out)@) + numbers_member(key@, seq_of(*list)));
        },
        None => {
            assert(texts(final(out)@) =~= texts(old(out)@) + numbers_member(key@, seq_of(*list)));
        },
    }
}

fn push_number_member(out: &mut Vec<String>, key: &str, n: Option<u32>)
    ensures
        texts(final(out)@) == texts(old(out)@) + number_member(key@, n),
{
    match n {
        Some(n) => {
            let mut m = String::new();
            m.append(key);
            push_decimal(&mut m, n);
            out.push(m);
            assert(texts(final(out)@) =~= texts(old(out)@) + number_member(key@, Some(n)));
        },
        None => {
            assert(texts(final(out)@) =~= texts(old(out)@) + number_member(key@, n));
        },
    }
}

impl View for Request {
    type V = FilterModel;

    closed spec fn view(&self) -> FilterModel {
        FilterModel {
            ids: seq_of(self.ids),
            authors: seq_of(self.authors),
            kinds: seq_of(self.kinds),
            etags: seq_of(self.e),
            ptags: seq_of(self.p),
            since: self.since,
            until: self.until,
            limit: self.limit,
        }
    }
}

impl Request {
    /// A filter with no constraint.
    pub fn new() -> (r: Self)
        ensures
            r@ == empty_model(),
    {
        Self {
            ids: None,
            authors: None,
            kinds: None,
            e: None,
            p: None,
            since: None,
            until: None,
            limit: None,
        }
    }

    /// Appends one event id.
    pub fn id(&mut self, id: String) -> (r: &mut Self)
        ensures
            r@ == (FilterModel { ids: appended(old(self)@.ids, seq![id]), ..old(self)@ }),
            *final(self) == *final(r),
    {
        let v = vec![id];
        assert(v@ =~= seq![id]);
        self.ids(v)
    }

    /// Appends event ids, in order.
    pub fn ids(&mut self, ids: Vec<String>) -> (r: &mut Self)
        ensures
            r@ == (FilterModel { ids: appended(old(self)@.ids, ids@), ..old(self)@ }),
            *final(self) == *final(r),
    {
        let mut ids = ids;
        self.ids.get_or_insert(Vec::new()).append(&mut ids);
        self
    }

    /// Appends one author public key.
    pub fn author(&mut self, author: String) -> (r: &mut Self)
        ensures
            r@ == (FilterModel { authors: appended(old(self)@.authors, seq![author]), ..old(self)@ }),
            *final(self) == *final(r),
    {
        let v = vec![author];
        assert(v@ =~= seq![author]);
        self.authors(v)
    }

    /// Appends author public keys, in order.
    pub fn authors(&mut self, authors: Vec<String>) -> (r: &mut Self)
        ensures
            r@ == (FilterModel { authors: appended(old(self)@.authors, authors@), ..old(self)@ }),
            *final(self) == *final(r),
    {
        let mut authors = authors;
        self.authors.get_or_insert(Vec::new()).append(&mut authors);
        self
    }

    /// Appends one event kind.
    pub fn kind(&mut self, kind: u32) -> (r: &mut Self)
        ensures
            r@ == (FilterModel { kinds: appended(old(self)@.kinds, seq![kind]), ..old(self)@ }),
            *final(self) == *final(r),
    {
        let v = vec![kind];
        assert(v@ =~= seq![kind]);
        self.kinds(v)
    }

    /// Appends event kinds, in order.
    pub fn kinds(&mut self, kinds: Vec<u32>) -> (r: &mut Self)
        ensures
            r@ == (FilterModel { kinds: appended(old(self)@.kinds, kinds@), ..old(self)@ }),
            *final(self) == *final(r),
    {
        let mut kinds = kinds;
        self.kinds.get_or_insert(Vec::new()).append(&mut kinds);
        self
    }

    /// Appends one referenced event id.
    pub fn etag(&mut self, etag: String) -> (r: &mut Self)
        ensures
            r@ == (FilterModel { etags: appended(old(self)@.etags, seq![etag]), ..old(self)@ }),
            *final(self) == *final(r),
    {
        let v = vec![etag];
        assert(v@ =~= seq![etag]);
        self.etags(v)
    }

    /// Appends referenced event ids, in order.
    pub fn etags(&mut self, etags: Vec<String>) -> (r: &mut Self)
        ensures
            r@ == (FilterModel { etags: appended(old(self)@.etags, etags@), ..old(self)@ }),
            *final(self) == *final(r),
    {
        let mut etags = etags;
        self.e.get_or_insert(Vec::new()).append(&mut etags);
        self
    }

    /// Appends one referenced public key.
    pub fn ptag(&mut self, ptag: String) -> (r: &mut Self)
        ensures
            r@ == (FilterModel { ptags: appended(old(self)@.ptags, seq![ptag]), ..old(self)@ }),
            *final(self) == *final(r),
    {
        let v = vec![ptag];
        assert(v@ =~= seq![ptag]);
        self.ptags(v)
    }

    /// Appends referenced public keys, in order.
    pub fn ptags(&mut self, ptags: Vec<String>) -> (r: &mut Self)
        ensures
            r@ == (FilterModel { ptags: appended(old(self)@.ptags, ptags@), ..old(self)@ }),
            *final(self) == *final(r),
    {
        let mut ptags = ptags;
        self.p.get_or_insert(Vec::new()).append(&mut ptags);
        self
    }

    /// Sets the lower time bound, replacing any earlier one.
    pub fn since(&mut self, since: u32) -> (r: &mut Self)
        ensures
            r@ == (FilterModel { since: Some(since), ..old(self)@ }),
            *final(self) == *final(r),
    {
        self.since = Some(since);
        self
    }

    /// Sets the upper time bound, replacing any earlier one.
    pub fn until(&mut self, until: u32) -> (r: &mut Self)
        ensures
            r@ == (FilterModel { until: Some(until), ..old(self)@ }),
            *final(self) == *final(r),
    {
        self.until = Some(until);
        self
    }

    /// Sets the result limit, replacing any earlier one.
    pub fn limit(&mut self, limit: u32) -> (r: &mut Self)
        ensures
            r@ == (FilterModel { limit: Some(limit), ..old(self)@ }),
            *final(self) == *final(r),
    {
        self.limit = Some(limit);
        self
    }
    /// The filter's JSON object: present constraints only, in a fixed key order.
    pub fn to_json(&mut self) -> (r: String)
        ensures
            r@ == filter_json(old(self)@),
            *final(self) == *old(self),
    {
        let mut parts: Vec<String> = Vec::new();
        push_strings_member(&mut parts, "\"ids\":", &self.ids);
        push_strings_member(&mut parts, "\"authors\":", &self.authors);
        push_numbers_member(&mut parts, "\"kinds\":", &self.kinds);
        push_strings_member(&mut parts, "\"#e\":", &self.e);
        push_strings_member(&mut parts, "\"#p\":", &self.p);
        push_number_member(&mut parts, "\"since\":", self.since);
        push_number_member(&mut parts, "\"until\":", self.until);
        push_number_member(&mut parts, "\"limit\":", self.limit);
        assert(texts(parts@) =~= members(self@));
        let mut r = String::new();
        r.append("{");
        push_joined(&mut r, &parts);
        r.append("}");
        assert(r@ =~= filter_json(self@));
        r
    }
}

/// A filter with no constraint is the empty JSON object `{}`.
pub proof fn lemma_empty_filter_json()
    ensures
        filter_json(empty_model()) == "{}".view(),
{
    reveal_strlit("{");
    reveal_strlit("}");
    reveal_strlit("{}");
    assert(members(empty_model()) =~= Seq::<Seq<char>>::empty());
    assert(filter_json(empty_model()) =~= "{}".view());
}

/// Serialisation is deterministic: filters with the same constraints have
/// byte-identical JSON text, so serialising one filter twice gives the same text.
pub proof fn lemma_to_json_deterministic(a: &Request, b: &Request)
    requires
        a@ == b@,
    ensures
        filter_json(a@) == filter_json(b@),
{
}

} // verus!

//! A JSON value held as plain data, with a mathematical view, field access
//! and the bridge to `serde_json` for parsing and printing.

use vstd::prelude::*;
use serde_json::Value;
use crate::text::{blank, chars_of, is_blank, parse_unsigned, parse_usize, str_eq};

verus! {

/// A JSON value. Numbers are kept apart by kind: unsigned and signed
/// integers as such, any other number by its decimal text.
///
/// The type holds more than a parser yields. Parsing gives a `Signed` only
/// for a negative number, an object without repeated keys, and a `Real`
/// whose text is a number. Values built by hand need not be so, and every
/// function here takes them: a `Signed` that is not negative is printed as
/// the same number, of two fields with one key the later counts, and a
/// `Real` whose text is no number is printed as `null`. Such a value is
/// not what its printed text parses to.
#[derive(Debug, PartialEq)]
pub enum Json {
    Null,
    Bool(bool),
    Unsigned(u64),
    Signed(i64),
    Real(String),
    Str(String),
    Array(Vec<Json>),
    Object(Vec<(String, Json)>),
}

/// The mathematical value of a [`Json`]: the same tree over sequences.
/// The fields of an object keep their order; where a key occurs twice, the
/// later field is the one that counts.
#[verifier::ext_equal]
pub enum JsonView {
    Null,
    Bool(bool),
    Unsigned(u64),
    Signed(i64),
    Real(Seq<char>),
    Str(Seq<char>),
    Array(Seq<JsonView>),
    Object(Seq<(Seq<char>, JsonView)>),
}

/// The value of `j` as a tree over sequences.
pub open spec fn json_view(j: Json) -> JsonView
    decreases j,
{
    match j {
        Json::Null => JsonView::Null,
        Json::Bool(b) => JsonView::Bool(b),
        Json::Unsigned(n) => JsonView::Unsigned(n),
        Json::Signed(n) => JsonView::Signed(n),
        Json::Real(t) => JsonView::Real(t@),
        Json::Str(t) => JsonView::Str(t@),
        Json::Array(items) => JsonView::Array(
            Seq::new(
                items@.len(),
                |i: int|
                    if 0 <= i < items@.len() {
                        json_view(items@[i])
                    } else {
                        JsonView::Null
                    },
            ),
        ),
        Json::Object(fields) => JsonView::Object(
            Seq::new(
                fields@.len(),
                |i: int|
                    if 0 <= i < fields@.len() {
                        (fields@[i].0@, json_view(fields@[i].1))
                    } else {
                        (Seq::empty(), JsonView::Null)
                    },
            ),
        ),
    }
}

impl View for Json {
    type V = JsonView;

    open spec fn view(&self) -> JsonView {
        json_view(*self)
    }
}

/// The values of a list of JSON values.
pub open spec fn json_views(s: Seq<Json>) -> Seq<JsonView> {
    Seq::new(s.len(), |i: int| s[i]@)
}

/// The keys and values of a list of fields.
pub open spec fn field_views(s: Seq<(String, Json)>) -> Seq<(Seq<char>, JsonView)> {
    Seq::new(s.len(), |i: int| (s[i].0@, s[i].1@))
}

/// The view of an array is the array of its items' views.
pub broadcast proof fn lemma_array_view(items: Vec<Json>)
    ensures
        #[trigger] json_view(Json::Array(items)) == JsonView::Array(json_views(items@)),
{
    assert(json_view(Json::Array(items))->Array_0 =~= json_views(items@));
}

/// The view of an object is the list of its fields' keys and views.
pub broadcast proof fn lemma_object_view(fields: Vec<(String, Json)>)
    ensures
        #[trigger] json_view(Json::Object(fields)) == JsonView::Object(field_views(fields@)),
{
    assert(json_view(Json::Object(fields))->Object_0 =~= field_views(fields@));
}

/// The value of the last field of `fields` whose key is `key`.
pub open spec fn lookup(fields: Seq<(Seq<char>, JsonView)>, key: Seq<char>) -> Option<JsonView>
    decreases fields.len(),
{
    if fields.len() == 0 {
        None
    } else if fields.last().0 == key {
        Some(fields.last().1)
    } else {
        lookup(fields.drop_last(), key)
    }
}

/// Whether `token` names an array index: decimal digits without sign and
/// without a leading zero, except for `0` itself.
pub open spec fn index_token(token: Seq<char>) -> Option<nat> {
    if token.len() > 0 && (token[0] == '+' || (token[0] == '0' && token.len() != 1)) {
        None
    } else {
        parse_unsigned(token, usize::MAX as nat)
    }
}

impl JsonView {
    /// The member `key` of an object.
    pub open spec fn get(self, key: Seq<char>) -> Option<JsonView> {
        match self {
            JsonView::Object(fields) => lookup(fields, key),
            _ => None,
        }
    }

    /// The text of a string value.
    pub open spec fn as_str(self) -> Option<Seq<char>> {
        match self {
            JsonView::Str(t) => Some(t),
            _ => None,
        }
    }

    /// The items of an array.
    pub open spec fn as_array(self) -> Option<Seq<JsonView>> {
        match self {
            JsonView::Array(items) => Some(items),
            _ => None,
        }
    }

    /// The number as an unsigned integer, if it is one.
    pub open spec fn as_u64(self) -> Option<u64> {
        match self {
            JsonView::Unsigned(n) => Some(n),
            JsonView::Signed(n) => if n >= 0 {
                Some(n as u64)
            } else {
                None
            },
            _ => None,
        }
    }

    /// The text of the string member `key`.
    pub open spec fn str_at(self, key: Seq<char>) -> Option<Seq<char>> {
        match self.get(key) {
            Some(v) => v.as_str(),
            None => None,
        }
    }

    /// One step down the tree: the member `token` of an object, or the item
    /// of an array whose index `token` names.
    pub open spec fn child(self, token: Seq<char>) -> Option<JsonView> {
        match self {
            JsonView::Object(fields) => lookup(fields, token),
            JsonView::Array(items) => match index_token(token) {
                Some(i) => if i < items.len() {
                    Some(items[i as int])
                } else {
                    None
                },
                None => None,
            },
            _ => None,
        }
    }

    /// Two steps down the tree: first `a`, then `b`.
    pub open spec fn child2(self, a: Seq<char>, b: Seq<char>) -> Option<JsonView> {
        match self.child(a) {
            Some(next) => next.child(b),
            None => None,
        }
    }

    /// Three steps down the tree: first `a`, then `b`, then `c`.
    pub open spec fn child3(self, a: Seq<char>, b: Seq<char>, c: Seq<char>) -> Option<JsonView> {
        match self.child2(a, b) {
            Some(next) => next.child(c),
            None => None,
        }
    }

    /// The value reached from here by the steps `tokens`, taken in order.
    pub open spec fn path(self, tokens: Seq<Seq<char>>) -> Option<JsonView>
        decreases tokens.len(),
    {
        if tokens.len() == 0 {
            Some(self)
        } else {
            match self.child(tokens[0]) {
                Some(next) => next.path(tokens.drop_first()),
                None => None,
            }
        }
    }
}

/// The view of an optional reference to a JSON value.
pub open spec fn opt_view(r: Option<&Json>) -> Option<JsonView> {
    match r {
        Some(j) => Some(j@),
        None => None,
    }
}

/// The view of an optional string slice.
pub open spec fn opt_str_view(r: Option<&str>) -> Option<Seq<char>> {
    match r {
        Some(s) => Some(s@),
        None => None,
    }
}

/// The views of a list of string slices.
pub open spec fn str_views(s: Seq<&str>) -> Seq<Seq<char>> {
    Seq::new(s.len(), |i: int| s[i]@)
}

impl Clone for Json {
    /// A deep copy: the same value.
    fn clone(&self) -> (r: Json)
        ensures
            r@ == self@,
        decreases self,
    {
        match self {
            Json::Null => Json::Null,
            Json::Bool(b) => Json::Bool(*b),
            Json::Unsigned(n) => Json::Unsigned(*n),
            Json::Signed(n) => Json::Signed(*n),
            Json::Real(t) => Json::Real(t.clone()),
            Json::Str(t) => Json::Str(t.clone()),
            Json::Array(items) => {
                let mut out: Vec<Json> = Vec::new();
                let mut i: usize = 0;
                while i < items.len()
                    invariant
                        decreases_to!(*self => *items),
                        i <= items.len(),
                        out.len() == i,
                        *self == Json::Array(*items),
                        forall|k: int| 0 <= k < i ==> out@[k]@ == items@[k]@,
                    decreases items.len() - i,
                {
                    proof {
                        vstd::std_specs::vec::axiom_vec_index_decreases(*items, i as int);
                        assert(decreases_to!(*items => items[i as int]));
                    }
                    let item = items[i].clone();
                    out.push(item);
                    i += 1;
                }
                proof {
                    lemma_array_view(out);
                    lemma_array_view(*items);
                    assert(json_views(out@) =~= json_views(items@));
                }
                Json::Array(out)
            },
            Json::Object(fields) => {
                let mut out: Vec<(String, Json)> = Vec::new();
                let mut i: usize = 0;
                while i < fields.len()
                    invariant
                        decreases_to!(*self => *fields),
                        i <= fields.len(),
                        out.len() == i,
                        *self == Json::Object(*fields),
                        forall|k: int|
                            0 <= k < i ==> out@[k].0@ == fields@[k].0@ && out@[k].1@
                                == fields@[k].1@,
                    decreases fields.len() - i,
                {
                    proof {
                        vstd::std_specs::vec::axiom_vec_index_decreases(*fields, i as int);
                        assert(decreases_to!(*fields => fields[i as int]));
                    }
                    let key = fields[i].0.clone();
                    let value = fields[i].1.clone();
                    out.push((key, value));
                    i += 1;
                }
                proof {
                    lemma_object_view(out);
                    lemma_object_view(*fields);
                    assert(field_views(out@) =~= field_views(fields@));
                }
                Json::Object(out)
            },
        }
    }
}

/// Appends `value` to `out`.
pub fn push_json(out: &mut Vec<Json>, value: Json)
    ensures
        json_views(final(out)@) == json_views(old(out)@).push(value@),
{
    out.push(value);
    assert(json_views(out@) =~= json_views(old(out)@).push(value@));
}

/// Appends a copy of every value of `more` to `out`.
pub fn extend_json(out: &mut Vec<Json>, more: &Vec<Json>)
    ensures
        json_views(final(out)@) == json_views(old(out)@) + json_views(more@),
{
    let mut i: usize = 0;
    assert(json_views(out@) =~= json_views(old(out)@) + json_views(more@.take(0)));
    while i < more.len()
        invariant
            i <= more.len(),
            json_views(out@) == json_views(old(out)@) + json_views(more@.take(i as int)),
        decreases more.len() - i,
    {
        let ghost before = json_views(out@);
        let item = more[i].clone();
        push_json(out, item);
        i += 1;
        assert(json_views(more@.take(i as int)) =~= json_views(more@.take(i - 1)).push(item@));
        assert(before.push(item@) =~= json_views(old(out)@) + json_views(more@.take(i as int)));
    }
    assert(more@.take(i as int) =~= more@);
}

/// A copy of a list of values.
pub fn clone_list(list: &Vec<Json>) -> (r: Vec<Json>)
    ensures
        json_views(r@) == json_views(list@),
{
    let mut out: Vec<Json> = Vec::new();
    assert(json_views(out@) =~= Seq::<JsonView>::empty());
    extend_json(&mut out, list);
    assert(Seq::<JsonView>::empty() + json_views(list@) =~= json_views(list@));
    out
}

/// A field of an object: `key` with `value`.
pub fn field(key: &str, value: Json) -> (r: (String, Json))
    ensures
        r.0@ == key@,
        r.1 == value,
{
    (key.to_string(), value)
}

/// A field with another key does not change what a lookup finds.
proof fn lemma_lookup_take(fields: Seq<(Seq<char>, JsonView)>, key: Seq<char>, i: int)
    requires
        0 <= i < fields.len(),
        fields[i].0 != key,
    ensures
        lookup(fields.take(i + 1), key) == lookup(fields.take(i), key),
{
    assert(fields.take(i + 1).drop_last() =~= fields.take(i));
}

impl Json {
    /// The string value with the text `s`.
    pub fn string(s: &str) -> (r: Json)
        ensures
            r@ == JsonView::Str(s@),
    {
        Json::Str(s.to_string())
    }

    /// The string value with no text.
    pub fn empty_string() -> (r: Json)
        ensures
            r@ == JsonView::Str(Seq::empty()),
    {
        Json::Str(String::new())
    }

    /// The array of `items`.
    pub fn array(items: Vec<Json>) -> (r: Json)
        ensures
            r@ == JsonView::Array(json_views(items@)),
    {
        proof {
            lemma_array_view(items);
        }
        Json::Array(items)
    }

    /// The member `key` of an object; `None` for a missing key and for a
    /// value that is no object.
    pub fn get(&self, key: &str) -> (r: Option<&Json>)
        ensures
            opt_view(r) == self@.get(key@),
    {
        match self {
            Json::Object(fields) => {
                proof {
                    lemma_object_view(*fields);
                }
                let ghost all = field_views(fields@);
                let mut i: usize = fields.len();
                assert(all.take(i as int) =~= all);
                while i > 0
                    invariant
                        i <= fields.len(),
                        all == field_views(fields@),
                        self@ == JsonView::Object(all),
                        lookup(all, key@) == lookup(all.take(i as int), key@),
                    decreases i,
                {
                    i -= 1;
                    if str_eq(fields[i].0.as_str(), key) {
                        assert(all.take(i + 1).last() == all[i as int]);
                        return Some(&fields[i].1);
                    }
                    proof {
                        lemma_lookup_take(all, key@, i as int);
                    }
                }
                None
            },
            _ => None,
        }
    }

    /// The text of a string value.
    pub fn as_str(&self) -> (r: Option<&str>)
        ensures
            opt_str_view(r) == self@.as_str(),
    {
        match self {
            Json::Str(t) => Some(t.as_str()),
            _ => None,
        }
    }

    /// The items of an array.
    pub fn as_array(&self) -> (r: Option<&Vec<Json>>)
        ensures
            match r {
                Some(items) => self@.as_array() == Some(json_views(items@)),
                None => self@.as_array() is None,
            },
    {
        match self {
            Json::Array(items) => {
                proof {
                    lemma_array_view(*items);
                }
                Some(items)
            },
            _ => None,
        }
    }

    /// The number as an unsigned integer, if it is one.
    pub fn as_u64(&self) -> (r: Option<u64>)
        ensures
            r == self@.as_u64(),
    {
        match self {
            Json::Unsigned(n) => Some(*n),
            Json::Signed(n) => if *n >= 0 {
                Some(*n as u64)
            } else {
                None
            },
            _ => None,
        }
    }

    /// The text of the string member `key`.
    pub fn str_at(&self, key: &str) -> (r: Option<&str>)
        ensures
            opt_str_view(r) == self@.str_at(key@),
    {
        match self.get(key) {
            Some(v) => v.as_str(),
            None => None,
        }
    }

    /// One step down the tree: the member `token` of an object, or the item
    /// of an array whose index `token` names.
    pub fn child(&self, token: &str) -> (r: Option<&Json>)
        ensures
            opt_view(r) == self@.child(token@),
    {
        match self {
            Json::Object(_) => self.get(token),
            Json::Array(items) => {
                proof {
                    lemma_array_view(*items);
                }
                let t = chars_of(token);
                if t.len() > 0 && (t[0] == '+' || (t[0] == '0' && t.len() != 1)) {
                    return None;
                }
                match parse_usize(token) {
                    Some(i) => if i < items.len() {
                        Some(&items[i])
                    } else {
                        None
                    },
                    None => None,
                }
            },
            _ => None,
        }
    }

    /// Two steps down the tree: first `a`, then `b`.
    pub fn child2(&self, a: &str, b: &str) -> (r: Option<&Json>)
        ensures
            opt_view(r) == self@.child2(a@, b@),
    {
        match self.child(a) {
            Some(next) => next.child(b),
            None => None,
        }
    }

    /// Three steps down the tree: first `a`, then `b`, then `c`.
    pub fn child3(&self, a: &str, b: &str, c: &str) -> (r: Option<&Json>)
        ensures
            opt_view(r) == self@.child3(a@, b@, c@),
    {
        match self.child2(a, b) {
            Some(next) => next.child(c),
            None => None,
        }
    }

    /// The value reached from here by the steps `tokens`, taken in order.
    pub fn path(&self, tokens: &[&str]) -> (r: Option<&Json>)
        ensures
            opt_view(r) == self@.path(str_views(tokens@)),
    {
        let ghost all = str_views(tokens@);
        let mut cur: &Json = self;
        let mut i: usize = 0;
        assert(all.skip(0) =~= all);
        while i < tokens.len()
            invariant
                i <= tokens.len(),
                all == str_views(tokens@),
                self@.path(all) == cur@.path(all.skip(i as int)),
            decreases tokens.len() - i,
        {
            assert(all.skip(i as int)[0] == tokens@[i as int]@);
            assert(all.skip(i as int).drop_first() =~= all.skip(i + 1));
            match cur.child(tokens[i]) {
                Some(next) => {
                    cur = next;
                },
                None => {
                    return None;
                },
            }
            i += 1;
        }
        Some(cur)
    }
}

/// The fields of an object under construction.
pub struct Fields {
    list: Vec<(String, Json)>,
}

impl View for Fields {
    type V = Seq<(Seq<char>, JsonView)>;

    closed spec fn view(&self) -> Seq<(Seq<char>, JsonView)> {
        field_views(self.list@)
    }
}

impl Fields {
    /// No field yet.
    pub fn new() -> (r: Fields)
        ensures
            r@ == Seq::<(Seq<char>, JsonView)>::empty(),
    {
        let r = Fields { list: Vec::new() };
        assert(r@ =~= Seq::<(Seq<char>, JsonView)>::empty());
        r
    }

    /// These fields and then `key` with `value`.
    pub fn with(self, key: &str, value: Json) -> (r: Fields)
        ensures
            r@ == self@.push((key@, value@)),
    {
        let mut list = self.list;
        list.push((key.to_string(), value));
        let r = Fields { list };
        assert(r@ =~= self@.push((key@, value@)));
        r
    }

    /// The object with these fields.
    pub fn build(self) -> (r: Json)
        ensures
            r@ == JsonView::Object(self@),
    {
        proof {
            lemma_object_view(self.list);
        }
        Json::Object(self.list)
    }
}

/// The items of an array under construction.
pub struct Items {
    list: Vec<Json>,
}

impl View for Items {
    type V = Seq<JsonView>;

    closed spec fn view(&self) -> Seq<JsonView> {
        json_views(self.list@)
    }
}

impl Items {
    /// No item yet.
    pub fn new() -> (r: Items)
        ensures
            r@ == Seq::<JsonView>::empty(),
    {
        let r = Items { list: Vec::new() };
        assert(r@ =~= Seq::<JsonView>::empty());
        r
    }

    /// These items and then `value`.
    pub fn with(self, value: Json) -> (r: Items)
        ensures
            r@ == self@.push(value@),
    {
        let mut list = self.list;
        list.push(value);
        let r = Items { list };
        assert(r@ =~= self@.push(value@));
        r
    }

    /// The array of these items.
    pub fn build(self) -> (r: Json)
        ensures
            r@ == JsonView::Array(self@),
    {
        proof {
            lemma_array_view(self.list);
        }
        Json::Array(self.list)
    }
}

/// The object with one field.
pub fn object1(k1: &str, v1: Json) -> (r: Json)
    ensures
        r@ == JsonView::Object(seq![(k1@, v1@)]),
{
    let mut list: Vec<(String, Json)> = Vec::new();
    list.push((k1.to_string(), v1));
    proof {
        lemma_object_view(list);
        assert(field_views(list@) =~= seq![(k1@, v1@)]);
    }
    Json::Object(list)
}

/// The object with 2 fields, in this order.
pub fn object2(k1: &str, v1: Json, k2: &str, v2: Json) -> (r: Json)
    ensures
        r@ == JsonView::Object(seq![(k1@, v1@), (k2@, v2@)]),
{
    let mut list: Vec<(String, Json)> = Vec::new();
    list.push((k1.to_string(), v1));
    list.push((k2.to_string(), v2));
    proof {
        lemma_object_view(list);
        assert(field_views(list@) =~= seq![(k1@, v1@), (k2@, v2@)]);
    }
    Json::Object(list)
}

/// The object with 3 fields, in this order.
pub fn object3(k1: &str, v1: Json, k2: &str, v2: Json, k3: &str, v3: Json) -> (r: Json)
    ensures
        r@ == JsonView::Object(seq![(k1@, v1@), (k2@, v2@), (k3@, v3@)]),
{
    let mut list: Vec<(String, Json)> = Vec::new();
    list.push((k1.to_string(), v1));
    list.push((k2.to_string(), v2));
    list.push((k3.to_string(), v3));
    proof {
        lemma_object_view(list);
        assert(field_views(list@) =~= seq![(k1@, v1@), (k2@, v2@), (k3@, v3@)]);
    }
    Json::Object(list)
}

/// The object with 4 fields, in this order.
pub fn object4(
    k1: &str,
    v1: Json,
    k2: &str,
    v2: Json,
    k3: &str,
    v3: Json,
    k4: &str,
    v4: Json,
) -> (r: Json)
    ensures
        r@ == JsonView::Object(seq![(k1@, v1@), (k2@, v2@), (k3@, v3@), (k4@, v4@)]),
{
    let mut list: Vec<(String, Json)> = Vec::new();
    list.push((k1.to_string(), v1));
    list.push((k2.to_string(), v2));
    list.push((k3.to_string(), v3));
    list.push((k4.to_string(), v4));
    proof {
        lemma_object_view(list);
        assert(field_views(list@) =~= seq![(k1@, v1@), (k2@, v2@), (k3@, v3@), (k4@, v4@)]);
    }
    Json::Object(list)
}

/// The object with 5 fields, in this order.
pub fn object5(
    k1: &str,
    v1: Json,
    k2: &str,
    v2: Json,
    k3: &str,
    v3: Json,
    k4: &str,
    v4: Json,
    k5: &str,
    v5: Json,
) -> (r: Json)
    ensures
        r@ == JsonView::Object(seq![(k1@, v1@), (k2@, v2@), (k3@, v3@), (k4@, v4@), (k5@, v5@)]),
{
    let mut list: Vec<(String, Json)> = Vec::new();
    list.push((k1.to_string(), v1));
    list.push((k2.to_string(), v2));
    list.push((k3.to_string(), v3));
    list.push((k4.to_string(), v4));
    list.push((k5.to_string(), v5));
    proof {
        lemma_object_view(list);
        assert(field_views(list@) =~= seq![
            (k1@, v1@),
            (k2@, v2@),
            (k3@, v3@),
            (k4@, v4@),
            (k5@, v5@),
        ]);
    }
    Json::Object(list)
}

/// The array with one item.
pub fn array1(v1: Json) -> (r: Json)
    ensures
        r@ == JsonView::Array(seq![v1@]),
{
    let mut list: Vec<Json> = Vec::new();
    list.push(v1);
    proof {
        lemma_array_view(list);
        assert(json_views(list@) =~= seq![v1@]);
    }
    Json::Array(list)
}

/// The array with 2 items, in this order.
pub fn array2(v1: Json, v2: Json) -> (r: Json)
    ensures
        r@ == JsonView::Array(seq![v1@, v2@]),
{
    let mut list: Vec<Json> = Vec::new();
    list.push(v1);
    list.push(v2);
    proof {
        lemma_array_view(list);
        assert(json_views(list@) =~= seq![v1@, v2@]);
    }
    Json::Array(list)
}

/// The array with 3 items, in this order.
pub fn array3(v1: Json, v2: Json, v3: Json) -> (r: Json)
    ensures
        r@ == JsonView::Array(seq![v1@, v2@, v3@]),
{
    let mut list: Vec<Json> = Vec::new();
    list.push(v1);
    list.push(v2);
    list.push(v3);
    proof {
        lemma_array_view(list);
        assert(json_views(list@) =~= seq![v1@, v2@, v3@]);
    }
    Json::Array(list)
}

/// `serde_json::Value`, the tree that `serde_json` reads text into and
/// prints text from.
#[verifier::external_type_specification]
#[verifier::external_body]
pub struct ExValue(serde_json::Value);

/// What `serde_json::from_str` makes of a text: the value it reads, or the
/// message of the error it reports.
pub uninterp spec fn json_parsed(text: Seq<char>) -> Result<JsonView, Seq<char>>;

/// The compact text that `serde_json` prints for a value.
pub uninterp spec fn json_text(value: JsonView) -> Seq<char>;

/// Copies a `serde_json::Value` into a [`Json`], variant by variant. A
/// number becomes `Unsigned` where `as_u64` yields it, else `Signed` where
/// `as_i64` does, else `Real` with the text that `serde_json` prints for it.
/// Nothing is claimed of the result here.
#[verifier::external_body]
fn lift(v: &Value) -> Json {
    match v {
        Value::Null => Json::Null,
        Value::Bool(b) => Json::Bool(*b),
        Value::Number(n) => match (n.as_u64(), n.as_i64()) {
            (Some(u), _) => Json::Unsigned(u),
            (_, Some(i)) => Json::Signed(i),
            _ => Json::Real(n.to_string()),
        },
        Value::String(s) => Json::Str(s.clone()),
        Value::Array(a) => Json::Array(a.iter().map(lift).collect()),
        Value::Object(m) => Json::Object(m.iter().map(|(k, v)| (k.clone(), lift(v))).collect()),
    }
}

/// Copies a [`Json`] into a `serde_json::Value`, variant by variant. The
/// fields of an object are inserted into the map one by one, in order, so
/// a later field replaces an earlier one with its key; the text of a `Real`
/// is read back as a number, and becomes `null` where `serde_json` does not
/// accept it as one. Nothing is claimed of the result here.
#[verifier::external_body]
fn lower(j: &Json) -> Value {
    match j {
        Json::Null => Value::Null,
        Json::Bool(b) => Value::Bool(*b),
        Json::Unsigned(n) => Value::from(*n),
        Json::Signed(n) => Value::from(*n),
        Json::Real(t) => serde_json::from_str(t).map_or(Value::Null, Value::Number),
        Json::Str(s) => Value::String(s.clone()),
        Json::Array(a) => Value::Array(a.iter().map(lower).collect()),
        Json::Object(f) => {
            let mut m = serde_json::Map::new();
            f.iter().for_each(|(k, v)| { m.insert(k.clone(), lower(v)); });
            Value::Object(m)
        },
    }
}

/// `serde_json::from_str`: reads `text` as one JSON value. The contract
/// names the outcome, which depends on the text alone: the value read, or
/// the message of the error.
#[verifier::external_body]
pub(crate) fn parse(text: &str) -> (r: Result<Json, String>)
    ensures
        match r {
            Ok(j) => json_parsed(text@) == Ok::<JsonView, Seq<char>>(j@),
            Err(e) => json_parsed(text@) == Err::<JsonView, Seq<char>>(e@),
        },
{
    match serde_json::from_str::<Value>(text) {
        Ok(v) => Ok(lift(&v)),
        Err(e) => Err(e.to_string()),
    }
}

/// `serde_json::Value`'s `to_string`: the compact JSON text of `j`. The
/// contract names the text, which depends on the value alone.
#[verifier::external_body]
pub(crate) fn to_text(j: &Json) -> (r: String)
    ensures
        r@ == json_text(j@),
{
    lower(j).to_string()
}

/// The text that stands for `v` where a string is wanted: the text of a
/// string value as it is, the compact JSON text of any other value.
pub open spec fn stringify(v: JsonView) -> Seq<char> {
    match v {
        JsonView::Str(t) => t,
        _ => json_text(v),
    }
}

/// The text that stands for `value` where a string is wanted.
pub fn stringify_value(value: &Json) -> (r: String)
    ensures
        r@ == stringify(value@),
{
    match value {
        Json::Str(t) => t.clone(),
        _ => to_text(value),
    }
}

/// The input of a tool call whose arguments arrived as the text `text`:
/// `null` for blank text, the value that the text reads as where it is
/// JSON, and the text itself as a string where it is not.
pub open spec fn tool_input(text: Seq<char>) -> JsonView {
    if is_blank(text) {
        JsonView::Null
    } else {
        match json_parsed(text) {
            Ok(v) => v,
            Err(_) => JsonView::Str(text),
        }
    }
}

/// The input of a tool call whose arguments arrived as the text `text`.
pub fn parse_tool_input(text: &str) -> (r: Json)
    ensures
        r@ == tool_input(text@),
{
    if blank(text) {
        Json::Null
    } else {
        match parse(text) {
            Ok(v) => v,
            Err(_) => Json::string(text),
        }
    }
}

/// Reads `text` as one JSON value.
pub fn parse_json(text: &str) -> (r: Result<Json, String>)
    ensures
        match r {
            Ok(j) => json_parsed(text@) == Ok::<JsonView, Seq<char>>(j@),
            Err(e) => json_parsed(text@) == Err::<JsonView, Seq<char>>(e@),
        },
{
    parse(text)
}

} // verus!

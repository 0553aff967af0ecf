//! A JSON document model for the settings files and API replies the library
//! reads and rewrites, with the reading and editing operations the rest of the
//! library uses, and the parse and render steps, which serde_json performs.
use vstd::prelude::*;

use crate::text::{owned, push_digits, dec_digits, text_eq};

verus! {

/// The mathematical value of a JSON document. A number is kept as its value
/// as an `i64`, when it is an integer in that range, and its decimal text.
/// An object is the sequence of its members.
pub enum JsonVal {
    Null,
    Bool(bool),
    Num(Option<i64>, Seq<char>),
    Str(Seq<char>),
    Arr(Seq<JsonVal>),
    Obj(Seq<(Seq<char>, JsonVal)>),
}

/// A JSON document.
pub enum Json {
    Null,
    Bool(bool),
    /// The value as an `i64` when the number is an integer in that range,
    /// and the number's text.
    Number(Option<i64>, String),
    Str(String),
    Array(Vec<Json>),
    Object(Vec<(String, Json)>),
}

pub open spec fn json_view(j: Json) -> JsonVal
    decreases j,
{
    match j {
        Json::Null => JsonVal::Null,
        Json::Bool(b) => JsonVal::Bool(b),
        Json::Number(i, t) => JsonVal::Num(i, t@),
        Json::Str(s) => JsonVal::Str(s@),
        Json::Array(v) => JsonVal::Arr(
            Seq::new(
                v@.len(),
                |i: int|
                    if 0 <= i < v@.len() {
                        json_view(v@[i])
                    } else {
                        JsonVal::Null
                    },
            ),
        ),
        Json::Object(es) => JsonVal::Obj(
            Seq::new(
                es@.len(),
                |i: int|
                    if 0 <= i < es@.len() {
                        (es@[i].0@, json_view(es@[i].1))
                    } else {
                        (Seq::empty(), JsonVal::Null)
                    },
            ),
        ),
    }
}

impl View for Json {
    type V = JsonVal;

    open spec fn view(&self) -> JsonVal {
        json_view(*self)
    }
}

/// The values of a sequence of documents.
pub open spec fn items_view(v: Seq<Json>) -> Seq<JsonVal> {
    Seq::new(v.len(), |i: int| v[i]@)
}

/// The members of an object, as values.
pub open spec fn entries_view(es: Seq<(String, Json)>) -> Seq<(Seq<char>, JsonVal)> {
    Seq::new(es.len(), |i: int| (es[i].0@, es[i].1@))
}

pub proof fn lemma_array_view(v: Vec<Json>)
    ensures
        Json::Array(v)@ == JsonVal::Arr(items_view(v@)),
{
    let x = Json::Array(v)@->Arr_0;
    assert(x =~= items_view(v@));
}

pub proof fn lemma_object_view(es: Vec<(String, Json)>)
    ensures
        Json::Object(es)@ == JsonVal::Obj(entries_view(es@)),
{
    let x = Json::Object(es)@->Obj_0;
    assert(x =~= entries_view(es@));
}

// ---------------------------------------------------------------------------
// reading
// ---------------------------------------------------------------------------

/// The index of the first member named `k`, or -1.
pub open spec fn key_index(es: Seq<(Seq<char>, JsonVal)>, k: Seq<char>) -> int
    decreases es.len(),
{
    if es.len() == 0 {
        -1
    } else {
        let r = key_index(es.drop_last(), k);
        if r >= 0 {
            r
        } else if es.last().0 == k {
            es.len() - 1
        } else {
            -1
        }
    }
}

pub proof fn lemma_key_index_range(es: Seq<(Seq<char>, JsonVal)>, k: Seq<char>)
    ensures
        -1 <= key_index(es, k) < es.len(),
        key_index(es, k) >= 0 ==> es[key_index(es, k)].0 == k,
        key_index(es, k) == -1 ==> forall|i: int| 0 <= i < es.len() ==> es[i].0 != k,
    decreases es.len(),
{
    if es.len() > 0 {
        lemma_key_index_range(es.drop_last(), k);
        assert forall|i: int| 0 <= i < es.len() - 1 implies es.drop_last()[i] == es[i] by {}
    }
}

/// The value of the first member named `k`.
pub open spec fn lookup(es: Seq<(Seq<char>, JsonVal)>, k: Seq<char>) -> Option<JsonVal>
    decreases es.len(),
{
    if es.len() == 0 {
        None
    } else {
        let r = lookup(es.drop_last(), k);
        if r is Some {
            r
        } else if es.last().0 == k {
            Some(es.last().1)
        } else {
            None
        }
    }
}

/// `v.get(k)`: the member named `k` of an object.
pub open spec fn field(v: JsonVal, k: Seq<char>) -> Option<JsonVal> {
    match v {
        JsonVal::Obj(es) => lookup(es, k),
        _ => None,
    }
}

pub proof fn lemma_lookup_index(es: Seq<(Seq<char>, JsonVal)>, k: Seq<char>)
    ensures
        lookup(es, k) == (if key_index(es, k) >= 0 {
            Some(es[key_index(es, k)].1)
        } else {
            None::<JsonVal>
        }),
    decreases es.len(),
{
    if es.len() > 0 {
        lemma_lookup_index(es.drop_last(), k);
        lemma_key_index_range(es.drop_last(), k);
    }
}

pub proof fn lemma_lookup_push(es: Seq<(Seq<char>, JsonVal)>, x: (Seq<char>, JsonVal), k: Seq<char>)
    ensures
        lookup(es.push(x), k) == (if lookup(es, k) is Some {
            lookup(es, k)
        } else if x.0 == k {
            Some(x.1)
        } else {
            None
        }),
{
    assert(es.push(x).drop_last() =~= es);
}

/// Replacing a member whose name is not `k` by another whose name is not `k`
/// leaves the lookup of `k` unchanged.
pub proof fn lemma_lookup_update_other(
    es: Seq<(Seq<char>, JsonVal)>,
    i: int,
    x: (Seq<char>, JsonVal),
    k: Seq<char>,
)
    requires
        0 <= i < es.len(),
        es[i].0 != k,
        x.0 != k,
    ensures
        lookup(es.update(i, x), k) == lookup(es, k),
    decreases es.len(),
{
    let pre = es.drop_last();
    if i == es.len() - 1 {
        assert(es.update(i, x) =~= pre.push(x));
        assert(es =~= pre.push(es.last()));
        lemma_lookup_push(pre, x, k);
        lemma_lookup_push(pre, es.last(), k);
    } else {
        lemma_lookup_update_other(pre, i, x, k);
        assert(es.update(i, x) =~= pre.update(i, x).push(es.last()));
        assert(es =~= pre.push(es.last()));
        lemma_lookup_push(pre.update(i, x), es.last(), k);
        lemma_lookup_push(pre, es.last(), k);
    }
}

/// Dropping the members named `k` leaves the lookup of another name unchanged,
/// and no member named `k`.
pub proof fn lemma_lookup_drop(es: Seq<(Seq<char>, JsonVal)>, k: Seq<char>, k2: Seq<char>)
    ensures
        k2 != k ==> lookup(drop_entries(es, k), k2) == lookup(es, k2),
        lookup(drop_entries(es, k), k) is None,
    decreases es.len(),
{
    if es.len() > 0 {
        let pre = es.drop_last();
        lemma_lookup_drop(pre, k, k2);
        assert(es =~= pre.push(es.last()));
        lemma_lookup_push(pre, es.last(), k2);
        lemma_lookup_push(drop_entries(pre, k), es.last(), k2);
        lemma_lookup_push(drop_entries(pre, k), es.last(), k);
    }
}

/// After `doc[k] = v`, the member `k` is `v` and every other member is as
/// before.
pub proof fn lemma_field_with(j: JsonVal, k: Seq<char>, v: JsonVal, k2: Seq<char>)
    requires
        assignable(j),
    ensures
        field(with_field(j, k, v), k) == Some(v),
        k2 != k ==> field(with_field(j, k, v), k2) == field(j, k2),
        with_field(j, k, v) is Obj,
{
    match j {
        JsonVal::Obj(es) => {
            lemma_key_index_range(es, k);
            let i = key_index(es, k);
            if i >= 0 {
                let es2 = es.update(i, (k, v));
                // the first member named k is still at i
                lemma_lookup_index(es, k);
                lemma_key_index_update_same(es, i, k, v);
                lemma_lookup_index(es2, k);
                if k2 != k {
                    lemma_lookup_update_other(es, i, (k, v), k2);
                }
            } else {
                lemma_lookup_index(es, k);
                lemma_lookup_push(es, (k, v), k);
                lemma_lookup_push(es, (k, v), k2);
            }
        },
        _ => {
            let es: Seq<(Seq<char>, JsonVal)> = seq![(k, v)];
            assert(es =~= Seq::<(Seq<char>, JsonVal)>::empty().push((k, v)));
            lemma_lookup_push(Seq::empty(), (k, v), k);
            lemma_lookup_push(Seq::empty(), (k, v), k2);
        },
    }
}

pub proof fn lemma_key_index_update_same(es: Seq<(Seq<char>, JsonVal)>, i: int, k: Seq<char>, v: JsonVal)
    requires
        key_index(es, k) == i,
        0 <= i < es.len(),
    ensures
        key_index(es.update(i, (k, v)), k) == i,
    decreases es.len(),
{
    let pre = es.drop_last();
    lemma_key_index_range(pre, k);
    if i == es.len() - 1 {
        assert(es.update(i, (k, v)).drop_last() =~= pre);
    } else {
        assert(es.update(i, (k, v)).drop_last() =~= pre.update(i, (k, v)));
        lemma_key_index_update_same(pre, i, k, v);
    }
}

/// After removing member `k`, there is none named `k`, and every other member
/// is as before.
pub proof fn lemma_field_without(j: JsonVal, k: Seq<char>, k2: Seq<char>)
    ensures
        field(without_field(j, k), k) is None,
        k2 != k ==> field(without_field(j, k), k2) == field(j, k2),
{
    if let JsonVal::Obj(es) = j {
        lemma_lookup_drop(es, k, k2);
    }
}

proof fn lemma_drop_absent(es: Seq<(Seq<char>, JsonVal)>, k: Seq<char>)
    requires
        lookup(es, k) is None,
    ensures
        drop_entries(es, k) == es,
    decreases es.len(),
{
    if es.len() > 0 {
        lemma_drop_absent(es.drop_last(), k);
        assert(es =~= es.drop_last().push(es.last()));
    }
}

/// Removing a member that is not there changes nothing.
pub proof fn lemma_without_absent(j: JsonVal, k: Seq<char>)
    requires
        field(j, k) is None,
    ensures
        without_field(j, k) == j,
{
    if let JsonVal::Obj(es) = j {
        lemma_drop_absent(es, k);
    }
}

/// Setting a member of an object to the value it already has changes
/// nothing.
pub proof fn lemma_with_same(j: JsonVal, k: Seq<char>, v: JsonVal)
    requires
        j is Obj,
        field(j, k) == Some(v),
    ensures
        with_field(j, k, v) == j,
{
    let es = j->Obj_0;
    lemma_lookup_index(es, k);
    lemma_key_index_range(es, k);
    let i = key_index(es, k);
    assert(es[i] == (k, v));
    assert(es.update(i, (k, v)) =~= es);
}

/// `o.and_then(|v| v.get(k))`.
pub open spec fn field_of(o: Option<JsonVal>, k: Seq<char>) -> Option<JsonVal> {
    match o {
        Some(v) => field(v, k),
        None => None,
    }
}

/// `o.and_then(|v| v.as_str())`.
pub open spec fn text_of(o: Option<JsonVal>) -> Option<Seq<char>> {
    match o {
        Some(JsonVal::Str(s)) => Some(s),
        _ => None,
    }
}

/// `o.and_then(|v| v.as_bool())`.
pub open spec fn flag_of(o: Option<JsonVal>) -> Option<bool> {
    match o {
        Some(JsonVal::Bool(b)) => Some(b),
        _ => None,
    }
}

/// `o.and_then(|v| v.as_i64())`.
pub open spec fn int_of(o: Option<JsonVal>) -> Option<i64> {
    match o {
        Some(JsonVal::Num(Some(i), _)) => Some(i),
        _ => None,
    }
}

/// `o.and_then(|v| v.as_array())`.
pub open spec fn items_of(o: Option<JsonVal>) -> Option<Seq<JsonVal>> {
    match o {
        Some(JsonVal::Arr(a)) => Some(a),
        _ => None,
    }
}

/// `o.and_then(|v| v.as_object())`.
pub open spec fn members_of(o: Option<JsonVal>) -> Option<Seq<(Seq<char>, JsonVal)>> {
    match o {
        Some(JsonVal::Obj(es)) => Some(es),
        _ => None,
    }
}

/// The value of an optional document reference.
pub open spec fn opt_view(o: Option<&Json>) -> Option<JsonVal> {
    match o {
        Some(j) => Some(j@),
        None => None,
    }
}

/// The value of an optional document.
pub open spec fn opt_json_view(o: Option<Json>) -> Option<JsonVal> {
    match o {
        Some(j) => Some(j@),
        None => None,
    }
}

/// The index of the first member named `key`.
pub fn entry_index(es: &Vec<(String, Json)>, key: &str) -> (r: Option<usize>)
    ensures
        match r {
            Some(i) => key_index(entries_view(es@), key@) == i as int && i < es@.len() && es@[i as int].0@ == key@,
            None => key_index(entries_view(es@), key@) == -1,
        },
{
    let ghost ev = entries_view(es@);
    let mut found: Option<usize> = None;
    let mut i: usize = 0;
    while i < es.len()
        invariant
            i <= es@.len(),
            ev == entries_view(es@),
            match found {
                Some(j) => key_index(ev.take(i as int), key@) == j as int,
                None => key_index(ev.take(i as int), key@) == -1,
            },
        decreases es.len() - i,
    {
        assert(ev.take(i + 1).drop_last() =~= ev.take(i as int));
        if found.is_none() && text_eq(es[i].0.as_str(), key) {
            found = Some(i);
        }
        i += 1;
    }
    assert(ev.take(es@.len() as int) =~= ev);
    proof {
        lemma_key_index_range(ev, key@);
    }
    found
}

impl Json {
    /// A copy with the same value.
    pub fn copy(&self) -> (r: Json)
        ensures
            r@ == self@,
        decreases self, 1nat,
    {
        match self {
            Json::Null => Json::Null,
            Json::Bool(b) => Json::Bool(*b),
            Json::Number(i, t) => Json::Number(*i, t.clone()),
            Json::Str(s) => Json::Str(s.clone()),
            Json::Array(v) => {
                assert(decreases_to!(*self => *v));
                let out = copy_items(v);
                let r = Json::Array(out);
                proof {
                    let x = r@->Arr_0;
                    let y = self@->Arr_0;
                    assert(x =~= y);
                }
                r
            },
            Json::Object(es) => {
                assert(decreases_to!(*self => *es));
                let out = copy_entries(es);
                let r = Json::Object(out);
                proof {
                    let x = r@->Obj_0;
                    let y = self@->Obj_0;
                    assert(x =~= y);
                }
                r
            },
        }
    }

    /// `self.get(key)`: the member named `key`, when `self` is an object.
    pub fn get(&self, key: &str) -> (r: Option<&Json>)
        ensures
            opt_view(r) == field(self@, key@),
    {
        match self {
            Json::Object(es) => {
                proof {
                    lemma_object_view(*es);
                    lemma_lookup_index(entries_view(es@), key@);
                }
                match entry_index(es, key) {
                    Some(i) => Some(&es[i].1),
                    None => None,
                }
            },
            _ => None,
        }
    }

    /// `self.as_str()`.
    pub fn as_str(&self) -> (r: Option<&String>)
        ensures
            match r {
                Some(s) => self@ == JsonVal::Str(s@),
                None => !(self@ is Str),
            },
    {
        match self {
            Json::Str(s) => Some(s),
            _ => None,
        }
    }

    /// `self.as_bool()`.
    pub fn as_bool(&self) -> (r: Option<bool>)
        ensures
            r == flag_of(Some(self@)),
    {
        match self {
            Json::Bool(b) => Some(*b),
            _ => None,
        }
    }

    /// `self.as_i64()`.
    pub fn as_i64(&self) -> (r: Option<i64>)
        ensures
            r == int_of(Some(self@)),
    {
        match self {
            Json::Number(i, _) => *i,
            _ => None,
        }
    }

    /// `self.as_array()`.
    pub fn as_array(&self) -> (r: Option<&Vec<Json>>)
        ensures
            match r {
                Some(v) => self@ == JsonVal::Arr(items_view(v@)),
                None => !(self@ is Arr),
            },
    {
        match self {
            Json::Array(v) => {
                proof {
                    lemma_array_view(*v);
                }
                Some(v)
            },
            _ => None,
        }
    }

    /// `self.as_object()`.
    pub fn as_object(&self) -> (r: Option<&Vec<(String, Json)>>)
        ensures
            match r {
                Some(es) => self@ == JsonVal::Obj(entries_view(es@)),
                None => !(self@ is Obj),
            },
    {
        match self {
            Json::Object(es) => {
                proof {
                    lemma_object_view(*es);
                }
                Some(es)
            },
            _ => None,
        }
    }

    /// `self.is_object()`.
    pub fn is_object(&self) -> (r: bool)
        ensures
            r == (self@ is Obj),
    {
        match self {
            Json::Object(_) => true,
            _ => false,
        }
    }

    /// `self.is_null()`.
    pub fn is_null(&self) -> (r: bool)
        ensures
            r == (self@ is Null),
    {
        match self {
            Json::Null => true,
            _ => false,
        }
    }
}

fn copy_items(v: &Vec<Json>) -> (out: Vec<Json>)
    ensures
        out@.len() == v@.len(),
        forall|k: int| 0 <= k < v@.len() ==> out@[k]@ == v@[k]@,
    decreases v, 0nat,
{
    let mut out: Vec<Json> = Vec::new();
    let mut i: usize = 0;
    while i < v.len()
        invariant
            i <= v@.len(),
            out@.len() == i,
            forall|k: int| 0 <= k < i ==> out@[k]@ == v@[k]@,
        decreases v.len() - i,
    {
        proof {
            assert(decreases_to!(*v => v@));
            assert(decreases_to!(v@ => v@[i as int]));
        }
        out.push(v[i].copy());
        i += 1;
    }
    out
}

fn copy_entries(es: &Vec<(String, Json)>) -> (out: Vec<(String, Json)>)
    ensures
        out@.len() == es@.len(),
        forall|k: int| 0 <= k < es@.len() ==> out@[k].0@ == es@[k].0@ && out@[k].1@ == es@[k].1@,
    decreases es, 0nat,
{
    let mut out: Vec<(String, Json)> = Vec::new();
    let mut i: usize = 0;
    while i < es.len()
        invariant
            i <= es@.len(),
            out@.len() == i,
            forall|k: int|
                0 <= k < i ==> out@[k].0@ == es@[k].0@ && out@[k].1@ == es@[k].1@,
        decreases es.len() - i,
    {
        proof {
            assert(decreases_to!(*es => es@));
            assert(decreases_to!(es@ => es@[i as int]));
            assert(decreases_to!(es@[i as int] => es@[i as int].1));
        }
        out.push((es[i].0.clone(), es[i].1.copy()));
        i += 1;
    }
    out
}

// ---------------------------------------------------------------------------
// editing
// ---------------------------------------------------------------------------

/// The members with `(k, v)` put in: replacing the first member named `k`,
/// or appended when there is none.
pub open spec fn put_entry(es: Seq<(Seq<char>, JsonVal)>, k: Seq<char>, v: JsonVal) -> Seq<
    (Seq<char>, JsonVal),
> {
    let i = key_index(es, k);
    if i >= 0 {
        es.update(i, (k, v))
    } else {
        es.push((k, v))
    }
}

/// `doc[k] = v` on an object or `null` (a `null` document becomes an object
/// first). Other documents are left as they are here; the assignment is only
/// used on objects and `null`.
pub open spec fn with_field(j: JsonVal, k: Seq<char>, v: JsonVal) -> JsonVal {
    match j {
        JsonVal::Null => JsonVal::Obj(seq![(k, v)]),
        JsonVal::Obj(es) => JsonVal::Obj(put_entry(es, k, v)),
        _ => j,
    }
}

/// The members that are not named `k`.
pub open spec fn drop_entries(es: Seq<(Seq<char>, JsonVal)>, k: Seq<char>) -> Seq<
    (Seq<char>, JsonVal),
>
    decreases es.len(),
{
    if es.len() == 0 {
        es
    } else {
        let r = drop_entries(es.drop_last(), k);
        if es.last().0 == k {
            r
        } else {
            r.push(es.last())
        }
    }
}

/// `doc.as_object_mut().map(|o| o.remove(k))`: removes the member named `k`
/// from an object; other documents are unchanged.
pub open spec fn without_field(j: JsonVal, k: Seq<char>) -> JsonVal {
    match j {
        JsonVal::Obj(es) => JsonVal::Obj(drop_entries(es, k)),
        _ => j,
    }
}

/// `doc.as_object_mut().map(|o| o.insert(k, v))`: puts a member into an
/// object; other documents are unchanged.
pub open spec fn insert_if_object(j: JsonVal, k: Seq<char>, v: JsonVal) -> JsonVal {
    match j {
        JsonVal::Obj(es) => JsonVal::Obj(put_entry(es, k, v)),
        _ => j,
    }
}

/// Whether `doc[k] = ...` can be applied: the document is an object or `null`.
pub open spec fn assignable(j: JsonVal) -> bool {
    j is Obj || j is Null
}

fn put_entry_exec(es: &mut Vec<(String, Json)>, key: &str, v: Json)
    ensures
        entries_view(final(es)@) == put_entry(entries_view(old(es)@), key@, v@),
{
    let ghost before = entries_view(es@);
    match entry_index(es, key) {
        Some(i) => {
            es.set(i, (owned(key), v));
            assert(entries_view(es@) =~= before.update(i as int, (key@, v@)));
        },
        None => {
            es.push((owned(key), v));
            assert(entries_view(es@) =~= before.push((key@, v@)));
        },
    }
}

fn drop_entries_exec(es: Vec<(String, Json)>, key: &str) -> (r: Vec<(String, Json)>)
    ensures
        entries_view(r@) == drop_entries(entries_view(es@), key@),
{
    let ghost src = es@;
    let ghost ev = entries_view(es@);
    let mut out: Vec<(String, Json)> = Vec::new();
    assert(entries_view(out@) =~= drop_entries(ev.take(0), key@));
    for e in it: es
        invariant
            it.seq() == src,
            ev == entries_view(src),
            entries_view(out@) == drop_entries(ev.take(it.index() as int), key@),
    {
        let ghost i = it.index();
        assert((e.0@, e.1@) == ev[i as int]);
        assert(ev.take(i + 1).drop_last() =~= ev.take(i as int));
        if !text_eq(e.0.as_str(), key) {
            let ghost before = entries_view(out@);
            out.push(e);
            assert(entries_view(out@) =~= before.push(ev[i as int]));
        }
    }
    assert(ev.take(src.len() as int) =~= ev);
    out
}

impl Json {
    /// `self[key] = v`, for an object or `null`.
    pub fn set(&mut self, key: &str, v: Json)
        requires
            assignable(old(self)@),
        ensures
            final(self)@ == with_field(old(self)@, key@, v@),
    {
        let mut cur = Json::Null;
        std::mem::swap(&mut cur, self);
        match cur {
            Json::Object(mut es) => {
                proof {
                    lemma_object_view(es);
                }
                put_entry_exec(&mut es, key, v);
                proof {
                    lemma_object_view(es);
                }
                *self = Json::Object(es);
            },
            _ => {
                let ghost vv = v@;
                let mut es: Vec<(String, Json)> = Vec::new();
                es.push((owned(key), v));
                proof {
                    lemma_object_view(es);
                    assert(entries_view(es@) =~= seq![(key@, vv)]);
                }
                *self = Json::Object(es);
            },
        }
    }

    /// `self.as_object_mut().map(|o| o.remove(key))`.
    pub fn remove(&mut self, key: &str)
        ensures
            final(self)@ == without_field(old(self)@, key@),
    {
        let mut cur = Json::Null;
        std::mem::swap(&mut cur, self);
        match cur {
            Json::Object(es) => {
                proof {
                    lemma_object_view(es);
                }
                let out = drop_entries_exec(es, key);
                proof {
                    lemma_object_view(out);
                }
                *self = Json::Object(out);
            },
            other => {
                *self = other;
            },
        }
    }

    /// `self.as_object_mut().map(|o| o.insert(key, v))`.
    pub fn insert(&mut self, key: &str, v: Json)
        ensures
            final(self)@ == insert_if_object(old(self)@, key@, v@),
    {
        if self.is_object() {
            self.set(key, v);
        }
    }

    /// A JSON string.
    pub fn text(s: &str) -> (r: Json)
        ensures
            r@ == JsonVal::Str(s@),
    {
        Json::Str(owned(s))
    }

    /// An empty JSON object.
    pub fn empty_object() -> (r: Json)
        ensures
            r@ == JsonVal::Obj(Seq::empty()),
    {
        let es: Vec<(String, Json)> = Vec::new();
        proof {
            lemma_object_view(es);
            assert(entries_view(es@) =~= Seq::empty());
        }
        Json::Object(es)
    }

    /// The JSON number of a `u64` (`serde_json::Value::from(n)`).
    pub fn from_u64(n: u64) -> (r: Json)
        ensures
            r@ == u64_number(n),
    {
        let mut t = String::new();
        push_digits(&mut t, n);
        assert(t@ =~= dec_digits(n as nat));
        let i: Option<i64> = if n <= 0x7fff_ffff_ffff_ffff {
            Some(n as i64)
        } else {
            None
        };
        Json::Number(i, t)
    }
}

/// The value of `serde_json::Value::from(n)` for a `u64`.
pub open spec fn u64_number(n: u64) -> JsonVal {
    JsonVal::Num(
        if n <= i64::MAX {
            Some(n as i64)
        } else {
            None
        },
        dec_digits(n as nat),
    )
}

// ---------------------------------------------------------------------------
// parsing and rendering (serde_json)
// ---------------------------------------------------------------------------

#[verifier::external_type_specification]
#[verifier::external_body]
pub struct ExSerdeValue(serde_json::Value);

/// What `serde_json::from_str::<serde_json::Value>` makes of a text: `None`
/// when the text is not one JSON document, else the document.
pub uninterp spec fn parsed_json(text: Seq<char>) -> Option<JsonVal>;

/// What `serde_json::to_string_pretty` writes for a document.
pub uninterp spec fn pretty_json(v: JsonVal) -> Seq<char>;

/// What `serde_json::to_string` writes for a document.
pub uninterp spec fn compact_json(v: JsonVal) -> Seq<char>;

/// Turns a serde_json document into the library's document, member for
/// member; numbers keep their `as_i64` value and their text.
#[verifier::external_body]
fn from_serde(v: serde_json::Value) -> Json {
    match v {
        serde_json::Value::Null => Json::Null,
        serde_json::Value::Bool(b) => Json::Bool(b),
        serde_json::Value::Number(n) => Json::Number(n.as_i64(), n.to_string()),
        serde_json::Value::String(s) => Json::Str(s),
        serde_json::Value::Array(a) => Json::Array(a.into_iter().map(from_serde).collect()),
        serde_json::Value::Object(m) => Json::Object(
            m.into_iter().map(|(k, x)| (k, from_serde(x))).collect(),
        ),
    }
}

/// Turns the library's document into a serde_json document; a number is
/// rebuilt from its `i64` value, or else from its text.
#[verifier::external_body]
fn to_serde(j: &Json) -> serde_json::Value {
    match j {
        Json::Null => serde_json::Value::Null,
        Json::Bool(b) => serde_json::Value::Bool(*b),
        Json::Number(Some(i), _) => serde_json::Value::Number((*i).into()),
        Json::Number(None, t) => serde_json::from_str::<serde_json::Number>(t).map(
            serde_json::Value::Number,
        ).unwrap_or(serde_json::Value::Null),
        Json::Str(s) => serde_json::Value::String(s.clone()),
        Json::Array(a) => serde_json::Value::Array(a.iter().map(to_serde).collect()),
        Json::Object(es) => serde_json::Value::Object(
            es.iter().map(|(k, x)| (k.clone(), to_serde(x))).collect(),
        ),
    }
}

/// `serde_json::from_str::<serde_json::Value>(text).ok()`, as a library
/// document. The contract names the result; the JSON grammar is serde_json's.
#[verifier::external_body]
pub(crate) fn parse_json(text: &str) -> (r: Option<Json>)
    ensures
        opt_json_view(r) == parsed_json(text@),
{
    serde_json::from_str::<serde_json::Value>(text).ok().map(from_serde)
}

/// `serde_json::to_string_pretty` of a document. Writing a document of
/// string-keyed members to memory cannot fail, so the error arm is never
/// taken; the contract names the text.
#[verifier::external_body]
pub(crate) fn render_pretty(j: &Json) -> (r: String)
    ensures
        r@ == pretty_json(j@),
{
    serde_json::to_string_pretty(&to_serde(j)).unwrap_or_default()
}

/// `serde_json::to_string` of a document (see `render_pretty`).
#[verifier::external_body]
pub(crate) fn render_compact(j: &Json) -> (r: String)
    ensures
        r@ == compact_json(j@),
{
    serde_json::to_string(&to_serde(j)).unwrap_or_default()
}

impl Json {
    /// Reads one JSON document from a text; `None` when the text is not one.
    pub fn parse(text: &str) -> (r: Option<Json>)
        ensures
            opt_json_view(r) == parsed_json(text@),
    {
        parse_json(text)
    }

    /// The document as compact JSON text.
    pub fn to_text(&self) -> (r: String)
        ensures
            r@ == compact_json(self@),
    {
        render_compact(self)
    }

    /// The document as indented JSON text, as settings files are written.
    pub fn to_pretty_text(&self) -> (r: String)
        ensures
            r@ == pretty_json(self@),
    {
        render_pretty(self)
    }
}

} // verus!

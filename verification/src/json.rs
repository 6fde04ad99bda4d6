use vstd::prelude::*;

use crate::assoc::{as_map, holds_key, keys_distinct, lemma_as_map_index};

verus! {

broadcast use vstd::std_specs::vec::group_vec_axioms;

/// A JSON document, as the library reads and writes it.
///
/// The keys of an object are kept in the order in which they are listed.
#[derive(Debug)]
pub enum Json {
    Null,
    Bool(bool),
    Number(u64),
    /// A number that is not a non-negative integer, kept as its text.
    OtherNumber(String),
    Str(String),
    Array(Vec<Json>),
    Object(Vec<(String, Json)>),
}

/// The mathematical value of a JSON document.
pub enum JsonView {
    Null,
    Bool(bool),
    Number(u64),
    OtherNumber(Seq<char>),
    Str(Seq<char>),
    Array(Seq<JsonView>),
    Object(Seq<(Seq<char>, JsonView)>),
}

impl View for Json {
    type V = JsonView;

    open spec fn view(&self) -> JsonView {
        self.value()
    }
}

impl Json {
    /// The mathematical value of this document.
    pub open spec fn value(&self) -> JsonView
        decreases self,
        via Json::value_decreases
    {
        match self {
            Json::Null => JsonView::Null,
            Json::Bool(b) => JsonView::Bool(*b),
            Json::Number(n) => JsonView::Number(*n),
            Json::OtherNumber(s) => JsonView::OtherNumber(s@),
            Json::Str(s) => JsonView::Str(s@),
            Json::Array(v) => JsonView::Array(
                Seq::new(v.len() as nat, |i: int| if 0 <= i < v.len() { v[i].value() } else { JsonView::Null }),
            ),
            Json::Object(v) => JsonView::Object(
                Seq::new(
                    v.len() as nat,
                    |i: int| if 0 <= i < v.len() { (v[i].0@, v[i].1.value()) } else { (Seq::empty(), JsonView::Null) },
                ),
            ),
        }
    }

    #[via_fn]
    proof fn value_decreases(&self) {
        match self {
            Json::Array(v) => {
                assert forall|i: int| 0 <= i < v.len() implies decreases_to!(self => v[i]) by {
                    vstd::std_specs::vec::axiom_vec_index_decreases(*v, i);
                }
            },
            Json::Object(v) => {
                assert forall|i: int| 0 <= i < v.len() implies decreases_to!(self => v[i].1) by {
                    vstd::std_specs::vec::axiom_vec_index_decreases(*v, i);
                }
            },
            _ => {},
        }
    }
}

/// The value stored under `key` in the fields of an object: the first field
/// with that key, if any.
pub open spec fn field(fields: Seq<(Seq<char>, JsonView)>, key: Seq<char>) -> Option<JsonView>
    decreases fields.len(),
{
    if fields.len() == 0 {
        None
    } else if fields[0].0 == key {
        Some(fields[0].1)
    } else {
        field(fields.drop_first(), key)
    }
}

proof fn lemma_field_index(fields: Seq<(Seq<char>, JsonView)>, key: Seq<char>, i: int)
    requires
        0 <= i < fields.len(),
        fields[i].0 == key,
        forall|j: int| 0 <= j < i ==> fields[j].0 != key,
    ensures
        field(fields, key) == Some(fields[i].1),
    decreases i,
{
    if i > 0 {
        lemma_field_index(fields.drop_first(), key, i - 1);
    }
}

proof fn lemma_field_absent(fields: Seq<(Seq<char>, JsonView)>, key: Seq<char>)
    requires
        forall|j: int| 0 <= j < fields.len() ==> fields[j].0 != key,
    ensures
        field(fields, key) == None::<JsonView>,
    decreases fields.len(),
{
    if fields.len() > 0 {
        lemma_field_absent(fields.drop_first(), key);
    }
}

/// Finds the position of the first field stored under `key`.
pub fn find_field(fields: &Vec<(String, Json)>, key: &String) -> (r: Option<usize>)
    ensures
        match r {
            Some(i) => i < fields.len() && fields@[i as int].0@ == key@ && field(
                Json::Object(*fields)@->Object_0,
                key@,
            ) == Some(fields@[i as int].1@),
            None => field(Json::Object(*fields)@->Object_0, key@) == None::<JsonView>,
        },
{
    let ghost view = Json::Object(*fields)@->Object_0;
    let mut i: usize = 0;
    while i < fields.len()
        invariant
            i <= fields.len(),
            view == Json::Object(*fields)@->Object_0,
            view.len() == fields.len(),
            forall|j: int| 0 <= j < fields.len() ==> #[trigger] view[j] == (fields@[j].0@, fields@[j].1@),
            forall|j: int| 0 <= j < i ==> view[j].0 != key@,
        decreases fields.len() - i,
    {
        if fields[i].0.eq(key) {
            proof {
                lemma_field_index(view, key@, i as int);
            }
            return Some(i);
        }
        i += 1;
    }
    proof {
        lemma_field_absent(view, key@);
    }
    None
}

/// The value stored under `key` in `fields`, by reference.
pub fn get_field<'a>(fields: &'a Vec<(String, Json)>, key: &String) -> (r: Option<&'a Json>)
    ensures
        match r {
            Some(v) => field(Json::Object(*fields)@->Object_0, key@) == Some(v@),
            None => field(Json::Object(*fields)@->Object_0, key@) == None::<JsonView>,
        },
{
    match find_field(fields, key) {
        Some(i) => Some(&fields[i].1),
        None => None,
    }
}

impl Json {
    /// Structural equality of two documents.
    pub fn same(&self, other: &Json) -> (r: bool)
        ensures
            r == (self@ == other@),
        decreases self,
    {
        match self {
            Json::Null => match other {
                Json::Null => true,
                _ => false,
            },
            Json::Bool(a) => match other {
                Json::Bool(b) => *a == *b,
                _ => false,
            },
            Json::Number(a) => match other {
                Json::Number(b) => *a == *b,
                _ => false,
            },
            Json::OtherNumber(a) => match other {
                Json::OtherNumber(b) => a.eq(b),
                _ => false,
            },
            Json::Str(a) => match other {
                Json::Str(b) => a.eq(b),
                _ => false,
            },
            Json::Array(a) => match other {
                Json::Array(b) => {
                    if a.len() != b.len() {
                        assert(self@->Array_0.len() != other@->Array_0.len());
                        return false;
                    }
                    let mut i: usize = 0;
                    while i < a.len()
                        invariant
                            i <= a.len(),
                            a.len() == b.len(),
                            self == Json::Array(*a),
                            other == Json::Array(*b),
                            forall|j: int| 0 <= j < i ==> a@[j]@ == b@[j]@,
                        decreases a.len() - i,
                    {
                        assert(decreases_to!(self => a@[i as int]));
                        if !a[i].same(&b[i]) {
                            assert(self@->Array_0[i as int] != other@->Array_0[i as int]);
                            return false;
                        }
                        i += 1;
                    }
                    assert(self@->Array_0 =~= other@->Array_0);
                    true
                },
                _ => false,
            },
            Json::Object(a) => match other {
                Json::Object(b) => {
                    if a.len() != b.len() {
                        assert(self@->Object_0.len() != other@->Object_0.len());
                        return false;
                    }
                    let mut i: usize = 0;
                    while i < a.len()
                        invariant
                            i <= a.len(),
                            a.len() == b.len(),
                            self == Json::Object(*a),
                            other == Json::Object(*b),
                            forall|j: int| 0 <= j < i ==> a@[j].0@ == b@[j].0@ && a@[j].1@ == b@[j].1@,
                        decreases a.len() - i,
                    {
                        if !a[i].0.eq(&b[i].0) {
                            assert(self@->Object_0[i as int] != other@->Object_0[i as int]);
                            return false;
                        }
                        proof {
                        vstd::std_specs::vec::axiom_vec_index_decreases(*a, i as int);
                    }
                    assert(decreases_to!(self => self->Object_0));
                    assert(decreases_to!(self => a[i as int]));
                    assert(decreases_to!(self => a[i as int].1));
                        if !a[i].1.same(&b[i].1) {
                            assert(self@->Object_0[i as int] != other@->Object_0[i as int]);
                            return false;
                        }
                        i += 1;
                    }
                    assert(self@->Object_0 =~= other@->Object_0);
                    true
                },
                _ => false,
            },
        }
    }
}

impl Json {
    /// A copy of this document.
    #[verifier::spinoff_prover]
    pub fn copy(&self) -> (r: Json)
        ensures
            r@ == self@,
        decreases self,
    {
        match self {
            Json::Null => Json::Null,
            Json::Bool(b) => Json::Bool(*b),
            Json::Number(n) => Json::Number(*n),
            Json::OtherNumber(s) => Json::OtherNumber(s.clone()),
            Json::Str(s) => Json::Str(s.clone()),
            Json::Array(a) => {
                let mut out: Vec<Json> = Vec::new();
                let mut i: usize = 0;
                while i < a.len()
                    invariant
                        i <= a.len(),
                        self == Json::Array(*a),
                        out.len() == i,
                        forall|k: int| 0 <= k < i ==> #[trigger] out@[k]@ == a@[k]@,
                    decreases a.len() - i,
                {
                    proof {
                        vstd::std_specs::vec::axiom_vec_index_decreases(*a, i as int);
                    }
                    assert(decreases_to!(self => self->Array_0));
                    assert(decreases_to!(self => a[i as int]));
                    out.push(a[i].copy());
                    i += 1;
                }
                let r = Json::Array(out);
                assert(r@->Array_0.len() == self@->Array_0.len());
                assert forall|k: int| 0 <= k < out.len() implies r@->Array_0[k] == self@->Array_0[k] by {
                    assert(out@[k]@ == a@[k]@);
                }
                assert(r@->Array_0 =~= self@->Array_0);
                r
            },
            Json::Object(a) => {
                let mut out: Vec<(String, Json)> = Vec::new();
                let mut i: usize = 0;
                while i < a.len()
                    invariant
                        i <= a.len(),
                        self == Json::Object(*a),
                        out.len() == i,
                        forall|k: int| 0 <= k < i ==> (#[trigger] out@[k]).0@ == a@[k].0@ && out@[k].1@ == a@[k].1@,
                    decreases a.len() - i,
                {
                    proof {
                        vstd::std_specs::vec::axiom_vec_index_decreases(*a, i as int);
                    }
                    assert(decreases_to!(self => self->Object_0));
                    assert(decreases_to!(self => a[i as int]));
                    assert(decreases_to!(self => a[i as int].1));
                    let v = a[i].1.copy();
                    out.push((a[i].0.clone(), v));
                    i += 1;
                }
                let r = Json::Object(out);
                assert(r@->Object_0.len() == self@->Object_0.len());
                assert forall|k: int| 0 <= k < out.len() implies r@->Object_0[k] == self@->Object_0[k] by {
                    assert(out@[k].0@ == a@[k].0@ && out@[k].1@ == a@[k].1@);
                }
                assert(r@->Object_0 =~= self@->Object_0);
                r
            },
        }
    }
}

/// The values of the fields of an object.
pub open spec fn fields_view(v: Seq<(String, Json)>) -> Seq<(Seq<char>, JsonView)> {
    v.map_values(|f: (String, Json)| (f.0@, f.1@))
}

/// The object made of the given fields.
pub fn make_object(fields: Vec<(String, Json)>) -> (r: Json)
    ensures
        r@ == JsonView::Object(fields_view(fields@)),
{
    let r = Json::Object(fields);
    assert(r@->Object_0 =~= fields_view(fields@));
    r
}

/// Adds a field to the fields of an object.
pub fn push_field(fields: &mut Vec<(String, Json)>, key: &str, value: Json)
    ensures
        fields_view(final(fields)@) == fields_view(old(fields)@).push((key@, value@)),
{
    fields.push((key.to_owned(), value));
    assert(fields_view(fields@) =~= fields_view(old(fields)@).push((key@, value@)));
}

proof fn lemma_field_none(fields: Seq<(Seq<char>, JsonView)>, key: Seq<char>)
    requires
        field(fields, key) == None::<JsonView>,
    ensures
        forall|j: int| 0 <= j < fields.len() ==> #[trigger] fields[j].0 != key,
    decreases fields.len(),
{
    if fields.len() > 0 {
        lemma_field_none(fields.drop_first(), key);
        assert forall|j: int| 0 <= j < fields.len() implies #[trigger] fields[j].0 != key by {
            if j > 0 {
                assert(fields[j] == fields.drop_first()[j - 1]);
            }
        }
    }
}

/// Whether the fields `b`, read as a map from keys to values, are the fields
/// `a`: their keys are distinct, and they hold the same values under the same
/// keys, in whatever order.
pub fn same_fields(a: &Vec<(String, Json)>, b: &Vec<(String, Json)>) -> (r: bool)
    requires
        keys_distinct(fields_view(a@)),
    ensures
        r == (keys_distinct(fields_view(b@)) && as_map(fields_view(b@)) == as_map(fields_view(a@))),
{
    let ghost av = fields_view(a@);
    let ghost bv = fields_view(b@);
    assert(Json::Object(*a)@->Object_0 =~= av);
    assert(Json::Object(*b)@->Object_0 =~= bv);
    let mut i: usize = 0;
    while i < b.len()
        invariant
            i <= b.len(),
            bv == fields_view(b@),
            forall|x: int, y: int| 0 <= x < i && 0 <= y < b.len() && x != y ==> #[trigger] bv[x].0 != #[trigger] bv[y].0,
        decreases b.len() - i,
    {
        let mut j: usize = 0;
        while j < b.len()
            invariant
                i < b.len(),
                j <= b.len(),
                bv == fields_view(b@),
                forall|x: int, y: int| 0 <= x < i && 0 <= y < b.len() && x != y ==> #[trigger] bv[x].0 != #[trigger] bv[y].0,
                forall|y: int| 0 <= y < j && y != i ==> bv[i as int].0 != #[trigger] bv[y].0,
            decreases b.len() - j,
        {
            if j != i && b[i].0.eq(&b[j].0) {
                assert(bv[i as int].0 == bv[j as int].0);
                return false;
            }
            j += 1;
        }
        assert forall|x: int, y: int| 0 <= x < i + 1 && 0 <= y < b.len() && x != y implies #[trigger] bv[x].0
            != #[trigger] bv[y].0 by {
            if x == i {
                assert(bv[i as int].0 != bv[y].0);
            }
        }
        i += 1;
    }
    assert(keys_distinct(bv));
    let mut i: usize = 0;
    while i < b.len()
        invariant
            i <= b.len(),
            av == fields_view(a@),
            bv == fields_view(b@),
            av == Json::Object(*a)@->Object_0,
            keys_distinct(av),
            keys_distinct(bv),
            forall|x: int| 0 <= x < i ==> as_map(av).contains_key(#[trigger] bv[x].0) && as_map(av)[bv[x].0] == bv[x].1,
        decreases b.len() - i,
    {
        proof {
            lemma_as_map_index(bv, i as int);
        }
        match find_field(a, &b[i].0) {
            None => {
                proof {
                    lemma_field_none(av, bv[i as int].0);
                    assert(!holds_key(av, bv[i as int].0));
                    assert(!as_map(av).contains_key(bv[i as int].0));
                }
                return false;
            },
            Some(k) => {
                proof {
                    lemma_as_map_index(av, k as int);
                }
                if !a[k].1.same(&b[i].1) {
                    return false;
                }
            },
        }
        i += 1;
    }
    let mut i: usize = 0;
    while i < a.len()
        invariant
            i <= a.len(),
            av == fields_view(a@),
            bv == fields_view(b@),
            bv == Json::Object(*b)@->Object_0,
            keys_distinct(av),
            keys_distinct(bv),
            forall|x: int| 0 <= x < i ==> as_map(bv).contains_key(#[trigger] av[x].0),
        decreases a.len() - i,
    {
        match find_field(b, &a[i].0) {
            None => {
                proof {
                    lemma_as_map_index(av, i as int);
                    lemma_field_none(bv, av[i as int].0);
                    assert(!holds_key(bv, av[i as int].0));
                    assert(!as_map(bv).contains_key(av[i as int].0));
                }
                return false;
            },
            Some(k) => {
                proof {
                    lemma_as_map_index(bv, k as int);
                }
            },
        }
        i += 1;
    }
    proof {
        assert forall|key: Seq<char>| #[trigger] as_map(bv).contains_key(key) <==> as_map(av).contains_key(key) by {
            if holds_key(bv, key) {
                let x = choose|x: int| 0 <= x < bv.len() && #[trigger] bv[x].0 == key;
                assert(as_map(av).contains_key(bv[x].0));
            }
            if holds_key(av, key) {
                let x = choose|x: int| 0 <= x < av.len() && #[trigger] av[x].0 == key;
                assert(as_map(bv).contains_key(av[x].0));
            }
        }
        assert forall|key: Seq<char>| #[trigger] as_map(bv).contains_key(key) implies as_map(bv)[key] == as_map(
            av,
        )[key] by {
            let x = choose|x: int| 0 <= x < bv.len() && #[trigger] bv[x].0 == key;
            lemma_as_map_index(bv, x);
        }
        assert(as_map(bv) =~= as_map(av));
    }
    true
}

} // verus!

use vstd::prelude::*;

verus! {

broadcast use vstd::std_specs::vec::group_vec_axioms, vstd::seq::group_seq_axioms;

/// A JSON document held as plain values. Numbers keep their textual form.
#[derive(Debug)]
pub enum Json {
    Null,
    Bool(bool),
    Number(String),
    Str(String),
    Array(Vec<Json>),
    Object(Vec<(String, Json)>),
}

/// The mathematical model of a JSON document.
pub ghost enum JsonV {
    Null,
    Bool(bool),
    Number(Seq<char>),
    Str(Seq<char>),
    Array(Seq<JsonV>),
    Object(Seq<(Seq<char>, JsonV)>),
}

pub open spec fn view_items(s: Seq<Json>) -> Seq<JsonV>
    decreases s,
{
    if s.len() == 0 {
        Seq::empty()
    } else {
        view_items(s.drop_last()).push(json_view(s.last()))
    }
}

pub open spec fn view_entries(s: Seq<(String, Json)>) -> Seq<(Seq<char>, JsonV)>
    decreases s,
{
    if s.len() == 0 {
        Seq::empty()
    } else {
        view_entries(s.drop_last()).push((s.last().0@, json_view(s.last().1)))
    }
}

pub open spec fn json_view(j: Json) -> JsonV
    decreases j,
{
    match j {
        Json::Null => JsonV::Null,
        Json::Bool(b) => JsonV::Bool(b),
        Json::Number(n) => JsonV::Number(n@),
        Json::Str(s) => JsonV::Str(s@),
        Json::Array(v) => JsonV::Array(view_items(v@)),
        Json::Object(v) => JsonV::Object(view_entries(v@)),
    }
}


/// The document with every object entry under `key` removed, at any depth.
pub open spec fn stripped(j: JsonV, key: Seq<char>) -> JsonV
    decreases j,
{
    match j {
        JsonV::Array(s) => JsonV::Array(stripped_items(s, key)),
        JsonV::Object(es) => JsonV::Object(stripped_entries(es, key)),
        _ => j,
    }
}

pub open spec fn stripped_items(s: Seq<JsonV>, key: Seq<char>) -> Seq<JsonV>
    decreases s,
{
    if s.len() == 0 {
        Seq::empty()
    } else {
        stripped_items(s.drop_last(), key).push(stripped(s.last(), key))
    }
}

pub open spec fn stripped_entries(es: Seq<(Seq<char>, JsonV)>, key: Seq<char>) -> Seq<(Seq<char>, JsonV)>
    decreases es,
{
    if es.len() == 0 {
        Seq::empty()
    } else {
        let rest = stripped_entries(es.drop_last(), key);
        if es.last().0 == key {
            rest
        } else {
            rest.push((es.last().0, stripped(es.last().1, key)))
        }
    }
}

/// The entries of one object whose key differs from `key`, in order; values untouched.
pub open spec fn without_key(es: Seq<(Seq<char>, JsonV)>, key: Seq<char>) -> Seq<(Seq<char>, JsonV)>
    decreases es,
{
    if es.len() == 0 {
        Seq::empty()
    } else if es.last().0 == key {
        without_key(es.drop_last(), key)
    } else {
        without_key(es.drop_last(), key).push(es.last())
    }
}

/// No object anywhere in the document has an entry under `key`.
pub open spec fn key_free(j: JsonV, key: Seq<char>) -> bool
    decreases j,
{
    match j {
        JsonV::Array(s) => items_key_free(s, key),
        JsonV::Object(es) => entries_key_free(es, key),
        _ => true,
    }
}

pub open spec fn items_key_free(s: Seq<JsonV>, key: Seq<char>) -> bool
    decreases s,
{
    s.len() == 0 || (items_key_free(s.drop_last(), key) && key_free(s.last(), key))
}

pub open spec fn entries_key_free(es: Seq<(Seq<char>, JsonV)>, key: Seq<char>) -> bool
    decreases es,
{
    es.len() == 0 || (entries_key_free(es.drop_last(), key) && es.last().0 != key
        && key_free(es.last().1, key))
}

/// The key of no entry of this object is `key`.
pub open spec fn lacks_key(es: Seq<(Seq<char>, JsonV)>, key: Seq<char>) -> bool {
    forall|i: int| 0 <= i < es.len() ==> #[trigger] es[i].0 != key
}

proof fn lemma_view_items_push(v: Seq<Json>, i: int)
    requires
        0 <= i < v.len(),
    ensures
        view_items(v.take(i + 1)) == view_items(v.take(i)).push(json_view(v[i])),
{
    assert(v.take(i + 1).drop_last() =~= v.take(i));
}

proof fn lemma_view_entries_push(v: Seq<(String, Json)>, i: int)
    requires
        0 <= i < v.len(),
    ensures
        view_entries(v.take(i + 1)) == view_entries(v.take(i)).push((v[i].0@, json_view(v[i].1))),
{
    assert(v.take(i + 1).drop_last() =~= v.take(i));
}

proof fn lemma_stripped_items_push(s: Seq<JsonV>, x: JsonV, key: Seq<char>)
    ensures
        stripped_items(s.push(x), key) == stripped_items(s, key).push(stripped(x, key)),
{
    assert(s.push(x).drop_last() =~= s);
}

proof fn lemma_entries_push(s: Seq<(Seq<char>, JsonV)>, x: (Seq<char>, JsonV), key: Seq<char>)
    ensures
        stripped_entries(s.push(x), key) == (if x.0 == key {
            stripped_entries(s, key)
        } else {
            stripped_entries(s, key).push((x.0, stripped(x.1, key)))
        }),
        without_key(s.push(x), key) == (if x.0 == key {
            without_key(s, key)
        } else {
            without_key(s, key).push(x)
        }),
{
    assert(s.push(x).drop_last() =~= s);
}

pub proof fn lemma_view_items_index(s: Seq<Json>)
    ensures
        view_items(s).len() == s.len(),
        forall|i: int| 0 <= i < s.len() ==> #[trigger] view_items(s)[i] == json_view(s[i]),
    decreases s.len(),
{
    if s.len() > 0 {
        lemma_view_items_index(s.drop_last());
    }
}

pub proof fn lemma_view_entries_index(s: Seq<(String, Json)>)
    ensures
        view_entries(s).len() == s.len(),
        forall|i: int|
            0 <= i < s.len() ==> #[trigger] view_entries(s)[i] == (s[i].0@, json_view(s[i].1)),
    decreases s.len(),
{
    if s.len() > 0 {
        lemma_view_entries_index(s.drop_last());
    }
}

/// The value of the first entry under `key`, if the object has one.
pub open spec fn lookup(es: Seq<(Seq<char>, JsonV)>, key: Seq<char>) -> Option<JsonV>
    decreases es.len(),
{
    if es.len() == 0 {
        None
    } else if es[0].0 == key {
        Some(es[0].1)
    } else {
        lookup(es.skip(1), key)
    }
}

/// Finds the value of the first entry under `key` in an object's entries.
pub fn find_entry<'a>(es: &'a Vec<(String, Json)>, key: &String) -> (r: Option<&'a Json>)
    ensures
        match r {
            Some(v) => lookup(view_entries(es@), key@) == Some(json_view(*v)),
            None => lookup(view_entries(es@), key@) is None,
        },
{
    let ghost all = view_entries(es@);
    proof {
        lemma_view_entries_index(es@);
        assert(all.skip(0) =~= all);
    }
    let mut i: usize = 0;
    while i < es.len()
        invariant
            i <= es.len(),
            all == view_entries(es@),
            all.len() == es.len(),
            forall|j: int| 0 <= j < es.len() ==> #[trigger] all[j] == (es@[j].0@, json_view(es@[j].1)),
            lookup(all, key@) == lookup(all.skip(i as int), key@),
        decreases es.len() - i,
    {
        let ghost rest = all.skip(i as int);
        assert(rest[0] == all[i as int]);
        if es[i].0.eq(key) {
            return Some(&es[i].1);
        }
        assert(rest.skip(1) =~= all.skip(i + 1));
        i += 1;
    }
    None
}

/// Removes every object entry under `key`, at any depth of the document.
pub fn strip_key(doc: &Json, key: &String) -> (r: Json)
    ensures
        json_view(r) == stripped(json_view(*doc), key@),
    decreases doc,
{
    match doc {
        Json::Null => Json::Null,
        Json::Bool(b) => Json::Bool(*b),
        Json::Number(n) => Json::Number(n.clone()),
        Json::Str(s) => Json::Str(s.clone()),
        Json::Array(v) => {
            let mut out: Vec<Json> = Vec::new();
            let mut i: usize = 0;
            while i < v.len()
                invariant
                    i <= v.len(),
                    *doc == Json::Array(*v),
                    view_items(out@) == stripped_items(view_items(v@.take(i as int)), key@),
                decreases v.len() - i,
            {
                proof {
                    lemma_view_items_push(v@, i as int);
                    lemma_stripped_items_push(view_items(v@.take(i as int)), json_view(v@[i as int]), key@);
                    assert(decreases_to!(*doc => (*doc)->Array_0));
                    assert(decreases_to!(*v => v[i as int]));
                    assert(decreases_to!(*doc => v[i as int]));
                }
                let item = strip_key(&v[i], key);
                let ghost before = out@;
                out.push(item);
                proof {
                    assert(out@.drop_last() =~= before);
                }
                i += 1;
            }
            assert(v@.take(v.len() as int) =~= v@);
            Json::Array(out)
        },
        Json::Object(es) => {
            let mut out: Vec<(String, Json)> = Vec::new();
            let mut i: usize = 0;
            while i < es.len()
                invariant
                    i <= es.len(),
                    *doc == Json::Object(*es),
                    view_entries(out@) == stripped_entries(view_entries(es@.take(i as int)), key@),
                decreases es.len() - i,
            {
                proof {
                    lemma_view_entries_push(es@, i as int);
                    lemma_entries_push(view_entries(es@.take(i as int)), (es@[i as int].0@, json_view(es@[i as int].1)), key@);
                }
                proof {
                    assert(decreases_to!(*doc => (*doc)->Object_0));
                    assert(decreases_to!(*es => es[i as int]));
                    assert(decreases_to!(es[i as int] => es[i as int].1));
                    assert(decreases_to!(*doc => es[i as int].1));
                }
                let k = &es[i].0;
                if !k.eq(key) {
                    let value = strip_key(&es[i].1, key);
                    let ghost before = out@;
                    out.push((k.clone(), value));
                    proof {
                        assert(out@.drop_last() =~= before);
                    }
                }
                i += 1;
            }
            assert(es@.take(es.len() as int) =~= es@);
            Json::Object(out)
        },
    }
}


/// After stripping `key`, no object anywhere in the document has an entry under it.
pub proof fn lemma_stripped_key_free(j: JsonV, key: Seq<char>)
    ensures
        key_free(stripped(j, key), key),
    decreases j,
{
    match j {
        JsonV::Array(s) => lemma_stripped_items_key_free(s, key),
        JsonV::Object(es) => lemma_stripped_entries_key_free(es, key),
        _ => {},
    }
}

proof fn lemma_stripped_items_key_free(s: Seq<JsonV>, key: Seq<char>)
    ensures
        items_key_free(stripped_items(s, key), key),
    decreases s,
{
    if s.len() > 0 {
        lemma_stripped_items_key_free(s.drop_last(), key);
        lemma_stripped_key_free(s.last(), key);
        let rest = stripped_items(s.drop_last(), key);
        assert(rest.push(stripped(s.last(), key)).drop_last() =~= rest);
    }
}

proof fn lemma_stripped_entries_key_free(es: Seq<(Seq<char>, JsonV)>, key: Seq<char>)
    ensures
        entries_key_free(stripped_entries(es, key), key),
    decreases es,
{
    if es.len() > 0 {
        lemma_stripped_entries_key_free(es.drop_last(), key);
        lemma_stripped_key_free(es.last().1, key);
        let rest = stripped_entries(es.drop_last(), key);
        assert(rest.push((es.last().0, stripped(es.last().1, key))).drop_last() =~= rest);
    }
}

/// Dropping the entries under one key keeps a key-free object key-free, and
/// leaves no entry under the dropped key.
pub proof fn lemma_without_key(es: Seq<(Seq<char>, JsonV)>, dropped: Seq<char>, key: Seq<char>)
    ensures
        entries_key_free(es, key) ==> entries_key_free(without_key(es, dropped), key),
        lacks_key(without_key(es, dropped), dropped),
    decreases es,
{
    if es.len() > 0 {
        lemma_without_key(es.drop_last(), dropped, key);
        let rest = without_key(es.drop_last(), dropped);
        assert(rest.push(es.last()).drop_last() =~= rest);
    }
}

/// Removes the entries under `key` from the top-level object of the document;
/// any other document is returned as it is.
pub fn drop_root_key(doc: Json, key: &String) -> (r: Json)
    ensures
        json_view(r) == (match json_view(doc) {
            JsonV::Object(es) => JsonV::Object(without_key(es, key@)),
            other => other,
        }),
{
    match doc {
        Json::Object(es) => {
            let ghost orig = es@;
            let n: usize = es.len();
            let mut rest = es;
            let mut out: Vec<(String, Json)> = Vec::new();
            let mut k: usize = 0;
            while rest.len() > 0
                invariant
                    k + rest@.len() == orig.len(),
                    orig.len() == n,
                    rest@ == orig.skip(k as int),
                    view_entries(out@) == without_key(view_entries(orig.take(k as int)), key@),
                decreases rest.len(),
            {
                proof {
                    lemma_view_entries_push(orig, k as int);
                    lemma_entries_push(view_entries(orig.take(k as int)), (orig[k as int].0@, json_view(orig[k as int].1)), key@);
                }
                let entry = rest.remove(0);
                proof {
                    assert(rest@ =~= orig.skip(k + 1));
                }
                if !entry.0.eq(key) {
                    let ghost before = out@;
                    out.push(entry);
                    proof {
                        assert(out@.drop_last() =~= before);
                    }
                }
                k += 1;
            }
            assert(orig.take(orig.len() as int) =~= orig);
            Json::Object(out)
        },
        other => other,
    }
}

} // verus!

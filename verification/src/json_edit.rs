//! JSON documents and the path-based edits applied to them.
//!
//! A document is a tree of `JsonValue`s; objects keep their entries in
//! order and look keys up by their first occurrence.  Numbers are kept as
//! their text, so no arithmetic on them is ever needed.
use vstd::prelude::*;
use crate::error::IvaldiError;
use crate::text::{
    append_chars, append_str, chars_of, first_index, lemma_first_index, lemma_first_index_unique,
    slice_chars, string_of, string_views, views,
};

verus! {

/// A JSON value.
#[derive(Debug)]
pub enum JsonValue {
    Null,
    Bool(bool),
    /// A number, as written.
    Number(String),
    Str(String),
    Array(Vec<JsonValue>),
    /// Entries in document order.
    Object(Vec<JsonEntry>),
}

/// One key-value entry of a JSON object.
#[derive(Debug)]
pub struct JsonEntry {
    pub key: String,
    pub value: JsonValue,
}

/// The mathematical value of a JSON document.
pub enum JsonView {
    Null,
    Bool(bool),
    Number(Seq<char>),
    Str(Seq<char>),
    Array(Seq<JsonView>),
    Object(Seq<(Seq<char>, JsonView)>),
}

/// Abstract value of a JSON document.
pub open spec fn json_view(v: JsonValue) -> JsonView
    decreases v,
{
    match v {
        JsonValue::Null => JsonView::Null,
        JsonValue::Bool(b) => JsonView::Bool(b),
        JsonValue::Number(s) => JsonView::Number(s@),
        JsonValue::Str(s) => JsonView::Str(s@),
        JsonValue::Array(a) => JsonView::Array(array_view(a@)),
        JsonValue::Object(es) => JsonView::Object(entries_view(es@)),
    }
}

/// Abstract values of array elements.
pub open spec fn array_view(a: Seq<JsonValue>) -> Seq<JsonView>
    decreases a,
{
    if a.len() == 0 {
        Seq::empty()
    } else {
        array_view(a.drop_last()).push(json_view(a.last()))
    }
}

/// Abstract values of object entries.
pub open spec fn entries_view(es: Seq<JsonEntry>) -> Seq<(Seq<char>, JsonView)>
    decreases es,
{
    if es.len() == 0 {
        Seq::empty()
    } else {
        entries_view(es.drop_last()).push((es.last().key@, json_view(es.last().value)))
    }
}


/// An edit applied at the place a path selects.
#[derive(Debug)]
pub enum JsonOperation {
    /// Replace the selected value.
    Replace { value: JsonValue },
    /// Set `key` in the selected object.
    Add { key: String, value: JsonValue },
    /// Remove `key` from the selected object.
    Delete { key: String },
    /// Set every entry of `object` in the selected object.
    Merge { object: JsonValue },
}

/// Abstract value of an operation.
pub enum OpView {
    Replace(JsonView),
    Add(Seq<char>, JsonView),
    Delete(Seq<char>),
    Merge(JsonView),
}

/// Abstract value of an operation.
pub open spec fn op_view(op: JsonOperation) -> OpView {
    match op {
        JsonOperation::Replace { value } => OpView::Replace(json_view(value)),
        JsonOperation::Add { key, value } => OpView::Add(key@, json_view(value)),
        JsonOperation::Delete { key } => OpView::Delete(key@),
        JsonOperation::Merge { object } => OpView::Merge(json_view(object)),
    }
}

// ---------------------------------------------------------------------------
// Specification of paths and operations
// ---------------------------------------------------------------------------

/// Object entries as pairs.
pub type Entries = Seq<(Seq<char>, JsonView)>;

/// Index of the first entry with key `k`, or `es.len()`.
pub open spec fn key_index(es: Entries, k: Seq<char>) -> int
    decreases es.len(),
{
    if es.len() == 0 {
        0
    } else if es[0].0 == k {
        0
    } else {
        1 + key_index(es.drop_first(), k)
    }
}

/// The value of the first entry with key `k`.
pub open spec fn entry_get(es: Entries, k: Seq<char>) -> Option<JsonView> {
    let i = key_index(es, k);
    if i < es.len() {
        Some(es[i].1)
    } else {
        None
    }
}

/// `es` with `k` set to `v`: the first entry with that key takes the new
/// value in place, or a new entry is appended.
pub open spec fn entry_set(es: Entries, k: Seq<char>, v: JsonView) -> Entries {
    let i = key_index(es, k);
    if i < es.len() {
        es.update(i, (k, v))
    } else {
        es.push((k, v))
    }
}

/// `es` without the first entry with key `k`.
pub open spec fn entry_remove(es: Entries, k: Seq<char>) -> Entries {
    let i = key_index(es, k);
    if i < es.len() {
        es.remove(i)
    } else {
        es
    }
}

/// `es` with every entry of `src` set, in the order of `src`.
pub open spec fn entries_merge(es: Entries, src: Entries) -> Entries
    decreases src.len(),
{
    if src.len() == 0 {
        es
    } else {
        let prev = entries_merge(es, src.drop_last());
        entry_set(prev, src.last().0, src.last().1)
    }
}

/// The value a path selects, if every step finds its key in an object.
pub open spec fn get_at(v: JsonView, path: Seq<Seq<char>>) -> Option<JsonView>
    decreases path.len(),
{
    if path.len() == 0 {
        Some(v)
    } else {
        match v {
            JsonView::Object(es) => match entry_get(es, path[0]) {
                Some(c) => get_at(c, path.drop_first()),
                None => None,
            },
            _ => None,
        }
    }
}

/// An operation applied to the selected value itself: the new value and
/// whether anything changed, or the error message.
pub open spec fn apply_here(v: JsonView, op: OpView) -> Result<(JsonView, bool), Seq<char>> {
    match op {
        OpView::Replace(x) => Ok((x, true)),
        OpView::Add(k, x) => match v {
            JsonView::Object(es) => Ok((JsonView::Object(entry_set(es, k, x)), true)),
            _ => Err("Add operation requires object target"@),
        },
        OpView::Delete(k) => match v {
            JsonView::Object(es) => Ok(
                (JsonView::Object(entry_remove(es, k)), key_index(es, k) < es.len()),
            ),
            _ => Err("Delete operation requires object target"@),
        },
        OpView::Merge(o) => match (v, o) {
            (JsonView::Object(es), JsonView::Object(src)) => Ok(
                (JsonView::Object(entries_merge(es, src)), true),
            ),
            _ => Err("Merge operation requires object targets"@),
        },
    }
}

/// An operation applied at the value `path` selects, rebuilding the objects
/// along the way; a missing key or a non-object on the way is an error
/// that names the step.
pub open spec fn apply_at(v: JsonView, path: Seq<Seq<char>>, op: OpView) -> Result<
    (JsonView, bool),
    Seq<char>,
>
    decreases path.len(),
{
    if path.len() == 0 {
        apply_here(v, op)
    } else {
        match v {
            JsonView::Object(es) => {
                let i = key_index(es, path[0]);
                if i < es.len() {
                    match apply_at(es[i].1, path.drop_first(), op) {
                        Ok((nv, changed)) => Ok(
                            (JsonView::Object(es.update(i, (es[i].0, nv))), changed),
                        ),
                        Err(e) => Err(e),
                    }
                } else {
                    Err("Key '"@ + path[0] + "' not found"@)
                }
            },
            _ => Err("Cannot navigate into non-object at '"@ + path[0] + "'"@),
        }
    }
}

/// The parts of `s` between dots (`str::split('.')`).
pub open spec fn split_dots(s: Seq<char>) -> Seq<Seq<char>>
    decreases s.len(),
{
    let i = first_index(s, '.');
    proof {
        lemma_first_index(s, '.');
    }
    if i >= s.len() {
        seq![s]
    } else {
        seq![s.take(i as int)] + split_dots(s.skip((i + 1) as int))
    }
}

/// A selector `$`, `$.a`, `$.a.b`, ... parsed into its keys.
pub open spec fn parse_path_spec(s: Seq<char>) -> Result<Seq<Seq<char>>, Seq<char>> {
    if s.len() == 0 || s[0] != '$' {
        Err("JSONPath must start with $"@)
    } else if s.len() == 1 {
        Ok(Seq::empty())
    } else if s[1] != '.' {
        Err("JSONPath must start with $."@)
    } else {
        Ok(split_dots(s.skip(2)))
    }
}

// ---------------------------------------------------------------------------
// Lemmas
// ---------------------------------------------------------------------------

/// Keys joined back with dots.
pub open spec fn join_dots(ps: Seq<Seq<char>>) -> Seq<char>
    decreases ps.len(),
{
    if ps.len() == 0 {
        Seq::empty()
    } else if ps.len() == 1 {
        ps[0]
    } else {
        ps[0].push('.') + join_dots(ps.drop_first())
    }
}

proof fn lemma_split_dots(s: Seq<char>)
    ensures
        split_dots(s).len() >= 1,
        forall|k: int, j: int|
            0 <= k < split_dots(s).len() && 0 <= j < split_dots(s)[k].len() ==> #[trigger] split_dots(s)[k][j]
                != '.',
        join_dots(split_dots(s)) == s,
    decreases s.len(),
{
    let i = first_index(s, '.');
    lemma_first_index(s, '.');
    if i >= s.len() {
        assert(split_dots(s) == seq![s]);
    } else {
        let rest = s.skip((i + 1) as int);
        lemma_split_dots(rest);
        let ps = split_dots(s);
        assert(ps == seq![s.take(i as int)] + split_dots(rest));
        assert(ps.drop_first() =~= split_dots(rest));
        assert forall|k: int, j: int| 0 <= k < ps.len() && 0 <= j < ps[k].len() implies #[trigger] ps[k][j]
            != '.' by {
            if k > 0 {
                assert(ps[k] == split_dots(rest)[k - 1]);
            }
        }
        assert(s.take(i as int).push('.') + rest =~= s);
    }
}

/// A selector `$.` followed by text parses into at least one key, no key
/// holds a dot, and the keys joined with dots give the text back.
pub proof fn law_path_keys_rejoin(selector: Seq<char>)
    requires
        selector.len() >= 2,
        selector[0] == '$',
        selector[1] == '.',
    ensures
        parse_path_spec(selector) matches Ok(keys) && keys.len() >= 1 && (forall|k: int, j: int|
            0 <= k < keys.len() && 0 <= j < keys[k].len() ==> #[trigger] keys[k][j] != '.') && seq!['$', '.']
            + join_dots(keys) == selector,
{
    lemma_split_dots(selector.skip(2));
    assert(seq!['$', '.'] + selector.skip(2) =~= selector);
}

/// The view of an array, element by element.
pub proof fn lemma_array_view(a: Seq<JsonValue>)
    ensures
        array_view(a).len() == a.len(),
        forall|i: int| 0 <= i < a.len() ==> #[trigger] array_view(a)[i] == json_view(a[i]),
    decreases a.len(),
{
    if a.len() > 0 {
        lemma_array_view(a.drop_last());
    }
}

/// The view of object entries, entry by entry.
pub proof fn lemma_entries_view(es: Seq<JsonEntry>)
    ensures
        entries_view(es).len() == es.len(),
        forall|i: int|
            0 <= i < es.len() ==> #[trigger] entries_view(es)[i] == (
                es[i].key@,
                json_view(es[i].value),
            ),
    decreases es.len(),
{
    if es.len() > 0 {
        lemma_entries_view(es.drop_last());
    }
}

/// `key_index` is the position of the first entry with the key.
pub proof fn lemma_key_index(es: Entries, k: Seq<char>)
    ensures
        0 <= key_index(es, k) <= es.len(),
        forall|j: int| 0 <= j < key_index(es, k) ==> (#[trigger] es[j]).0 != k,
        key_index(es, k) < es.len() ==> es[key_index(es, k)].0 == k,
    decreases es.len(),
{
    if es.len() > 0 && es[0].0 != k {
        lemma_key_index(es.drop_first(), k);
        assert forall|j: int| 0 <= j < key_index(es, k) implies (#[trigger] es[j]).0 != k by {
            if j > 0 {
                assert(es[j] == es.drop_first()[j - 1]);
            }
        }
    }
}

/// The first entry with a key is determined by the keys before it.
pub proof fn lemma_key_index_unique(es: Entries, k: Seq<char>, i: int)
    requires
        0 <= i <= es.len(),
        forall|j: int| 0 <= j < i ==> (#[trigger] es[j]).0 != k,
        i < es.len() ==> es[i].0 == k,
    ensures
        key_index(es, k) == i,
{
    lemma_key_index(es, k);
    if key_index(es, k) < i {
        assert(es[key_index(es, k)].0 == k);
    }
    if key_index(es, k) > i {
        assert(es[i].0 != k);
    }
}

/// Changing values but not keys leaves every key's position unchanged.
pub proof fn lemma_key_index_same_keys(a: Entries, b: Entries, k: Seq<char>)
    requires
        a.len() == b.len(),
        forall|j: int| 0 <= j < a.len() ==> (#[trigger] a[j]).0 == b[j].0,
    ensures
        key_index(a, k) == key_index(b, k),
{
    lemma_key_index(a, k);
    assert forall|j: int| 0 <= j < key_index(a, k) implies (#[trigger] b[j]).0 != k by {
        assert(a[j].0 != k);
    }
    lemma_key_index_unique(b, k, key_index(a, k));
}

// ---------------------------------------------------------------------------
// Laws
// ---------------------------------------------------------------------------

/// Read after write: once a replacement at a path succeeds, the path
/// selects the new value.
pub proof fn law_replace_then_get(v: JsonView, path: Seq<Seq<char>>, x: JsonView)
    requires
        apply_at(v, path, OpView::Replace(x)) is Ok,
    ensures
        get_at(apply_at(v, path, OpView::Replace(x))->Ok_0.0, path) == Some(x),
    decreases path.len(),
{
    if path.len() > 0 {
        if let JsonView::Object(es) = v {
            let i = key_index(es, path[0]);
            lemma_key_index(es, path[0]);
            law_replace_then_get(es[i].1, path.drop_first(), x);
            let nv = apply_at(es[i].1, path.drop_first(), OpView::Replace(x))->Ok_0.0;
            let nes = es.update(i, (es[i].0, nv));
            lemma_key_index_same_keys(es, nes, path[0]);
        }
    }
}

/// An edit at a path leaves the other keys of the top-level object as
/// they were.
pub proof fn law_edit_keeps_other_keys(
    v: JsonView,
    path: Seq<Seq<char>>,
    op: OpView,
    other: Seq<char>,
)
    requires
        path.len() > 0,
        other != path[0],
        apply_at(v, path, op) is Ok,
    ensures
        get_at(apply_at(v, path, op)->Ok_0.0, seq![other]) == get_at(v, seq![other]),
{
    if let JsonView::Object(es) = v {
        let i = key_index(es, path[0]);
        lemma_key_index(es, path[0]);
        let nv = apply_at(es[i].1, path.drop_first(), op)->Ok_0.0;
        let nes = es.update(i, (es[i].0, nv));
        lemma_key_index_same_keys(es, nes, other);
        lemma_key_index(es, other);
        assert(seq![other].drop_first() =~= Seq::<Seq<char>>::empty());
    }
}

/// No key occurs twice among the entries.
pub open spec fn unique_keys(es: Entries) -> bool {
    forall|i: int, j: int| 0 <= i < j < es.len() ==> #[trigger] es[i].0 != #[trigger] es[j].0
}

/// An operation at a path acts on the value the path selects: the path
/// selects something, and after the edit it selects what the operation
/// makes of that value.
pub proof fn lemma_apply_at_selected(v: JsonView, path: Seq<Seq<char>>, op: OpView)
    requires
        apply_at(v, path, op) is Ok,
    ensures
        get_at(v, path) matches Some(t) && apply_here(t, op) is Ok && get_at(apply_at(v, path, op)->Ok_0.0, path)
            == Some(apply_here(t, op)->Ok_0.0) && apply_at(v, path, op)->Ok_0.1 == apply_here(t, op)->Ok_0.1,
    decreases path.len(),
{
    if path.len() > 0 {
        if let JsonView::Object(es) = v {
            let i = key_index(es, path[0]);
            lemma_key_index(es, path[0]);
            lemma_apply_at_selected(es[i].1, path.drop_first(), op);
            let nv = apply_at(es[i].1, path.drop_first(), op)->Ok_0.0;
            let nes = es.update(i, (es[i].0, nv));
            lemma_key_index_same_keys(es, nes, path[0]);
            assert(entry_get(nes, path[0]) == Some(nv));
        }
    }
}

/// Delete then get: once a delete of `key` at a path removed something
/// from an object whose keys are unique, that object has one entry fewer,
/// the path extended by `key` selects nothing, and every other key keeps
/// its value.
pub proof fn law_delete_then_get(v: JsonView, path: Seq<Seq<char>>, key: Seq<char>, other: Seq<char>)
    requires
        apply_at(v, path, OpView::Delete(key)) matches Ok((_, changed)) && changed,
        get_at(v, path) matches Some(JsonView::Object(es)) && unique_keys(es),
    ensures
        ({
            let es = get_at(v, path)->Some_0->Object_0;
            let nv = apply_at(v, path, OpView::Delete(key))->Ok_0.0;
            &&& get_at(nv, path) matches Some(JsonView::Object(es2)) && es2.len() + 1 == es.len() && entry_get(
                es2,
                key,
            ) is None && (other != key ==> entry_get(es2, other) == entry_get(es, other))
            &&& get_at(nv, path.push(key)) is None
        }),
{
    lemma_apply_at_selected(v, path, OpView::Delete(key));
    let es = get_at(v, path)->Some_0->Object_0;
    let nv = apply_at(v, path, OpView::Delete(key))->Ok_0.0;
    let i = key_index(es, key);
    lemma_key_index(es, key);
    let es2 = entry_remove(es, key);
    assert(i < es.len());
    assert(es2 == es.remove(i));
    assert forall|j: int| 0 <= j < es2.len() implies (#[trigger] es2[j]).0 != key by {
        if j >= i {
            assert(es2[j] == es[j + 1]);
        }
    }
    lemma_key_index_unique(es2, key, es2.len() as int);
    if other != key {
        let m = key_index(es, other);
        lemma_key_index(es, other);
        if m < i {
            assert forall|j: int| 0 <= j < m implies (#[trigger] es2[j]).0 != other by {
                assert(es2[j] == es[j]);
            }
            assert(es2[m] == es[m]);
            lemma_key_index_unique(es2, other, m);
        } else if m == es.len() {
            assert forall|j: int| 0 <= j < es2.len() implies (#[trigger] es2[j]).0 != other by {
                if j >= i {
                    assert(es2[j] == es[j + 1]);
                } else {
                    assert(es2[j] == es[j]);
                }
            }
            lemma_key_index_unique(es2, other, es2.len() as int);
        } else {
            assert(m != i);
            assert forall|j: int| 0 <= j < m - 1 implies (#[trigger] es2[j]).0 != other by {
                if j >= i {
                    assert(es2[j] == es[j + 1]);
                } else {
                    assert(es2[j] == es[j]);
                }
            }
            assert(es2[m - 1] == es[m]);
            lemma_key_index_unique(es2, other, m - 1);
        }
    }
    lemma_get_at_push(nv, path, key);
}

/// Extending a path by one key selects that key in what the path selects.
proof fn lemma_get_at_push(v: JsonView, path: Seq<Seq<char>>, key: Seq<char>)
    ensures
        get_at(v, path.push(key)) == match get_at(v, path) {
            Some(JsonView::Object(es)) => match entry_get(es, key) {
                Some(c) => Some(c),
                None => None,
            },
            _ => None,
        },
    decreases path.len(),
{
    if path.len() == 0 {
        assert(path.push(key) =~= seq![key]);
        assert(seq![key].drop_first() =~= Seq::<Seq<char>>::empty());
    } else {
        assert(path.push(key).drop_first() =~= path.drop_first().push(key));
        assert(path.push(key)[0] == path[0]);
        match v {
            JsonView::Object(es) => match entry_get(es, path[0]) {
                Some(c) => {
                    lemma_get_at_push(c, path.drop_first(), key);
                },
                None => {},
            },
            _ => {},
        }
    }
}

/// After adding `key` at a path, the extended path selects the added value.
pub proof fn law_add_then_get(v: JsonView, path: Seq<Seq<char>>, key: Seq<char>, x: JsonView)
    requires
        apply_at(v, path, OpView::Add(key, x)) is Ok,
    ensures
        get_at(apply_at(v, path, OpView::Add(key, x))->Ok_0.0, path.push(key)) == Some(x),
    decreases path.len(),
{
    if path.len() == 0 {
        if let JsonView::Object(es) = v {
            let i = key_index(es, key);
            lemma_key_index(es, key);
            let nes = entry_set(es, key, x);
            assert forall|j: int| 0 <= j < i implies (#[trigger] nes[j]).0 != key by {
                assert(nes[j] == es[j]);
            }
            lemma_key_index_unique(nes, key, i);
            assert(nes[i] == (key, x));
            assert(entry_get(nes, key) == Some(x));
            assert(seq![key].drop_first() =~= Seq::<Seq<char>>::empty());
            assert(path.push(key) =~= seq![key]);
            assert(get_at(x, Seq::empty()) == Some(x));
            assert(get_at(JsonView::Object(nes), seq![key]) == get_at(x, seq![key].drop_first()));
        }
    } else {
        if let JsonView::Object(es) = v {
            let i = key_index(es, path[0]);
            lemma_key_index(es, path[0]);
            law_add_then_get(es[i].1, path.drop_first(), key, x);
            let nv = apply_at(es[i].1, path.drop_first(), OpView::Add(key, x))->Ok_0.0;
            let nes = es.update(i, (es[i].0, nv));
            lemma_key_index_same_keys(es, nes, path[0]);
            assert(path.push(key).drop_first() =~= path.drop_first().push(key));
            assert(path.push(key)[0] == path[0]);
            assert(entry_get(nes, path[0]) == Some(nv));
        }
    }
}


// ---------------------------------------------------------------------------
// Executable
// ---------------------------------------------------------------------------

/// Updating one entry updates its view.
proof fn lemma_entries_view_update(es: Seq<JsonEntry>, i: int, e: JsonEntry)
    requires
        0 <= i < es.len(),
    ensures
        entries_view(es.update(i, e)) == entries_view(es).update(i, (e.key@, json_view(e.value))),
{
    lemma_entries_view(es);
    lemma_entries_view(es.update(i, e));
    assert(entries_view(es.update(i, e)) =~= entries_view(es).update(i, (e.key@, json_view(e.value))));
}

/// Removing one entry removes its view.
proof fn lemma_entries_view_remove(es: Seq<JsonEntry>, i: int)
    requires
        0 <= i < es.len(),
    ensures
        entries_view(es.remove(i)) == entries_view(es).remove(i),
{
    lemma_entries_view(es);
    lemma_entries_view(es.remove(i));
    assert(entries_view(es.remove(i)) =~= entries_view(es).remove(i));
}

/// An equal copy of a JSON value.
pub fn deep_copy(v: &JsonValue) -> (r: JsonValue)
    ensures
        json_view(r) == json_view(*v),
    decreases v,
{
    match v {
        JsonValue::Null => JsonValue::Null,
        JsonValue::Bool(b) => JsonValue::Bool(*b),
        JsonValue::Number(s) => JsonValue::Number(s.clone()),
        JsonValue::Str(s) => JsonValue::Str(s.clone()),
        JsonValue::Array(a) => {
            let mut out: Vec<JsonValue> = Vec::new();
            let mut i: usize = 0;
            while i < a.len()
                invariant
                    *v is Array,
                    v->Array_0 == *a,
                    i <= a@.len(),
                    array_view(out@) == array_view(a@.take(i as int)),
                decreases a.len() - i,
            {
                proof {
                    assert(*a == v->Array_0);
                    assert(decreases_to!(*v => v->Array_0));
                    assert(decreases_to!(*a => a@));
                    assert(decreases_to!(a@ => a@[i as int]));
                    assert(decreases_to!(*v => a@[i as int]));
                }
                let c = deep_copy(&a[i]);
                let ghost before = out@;
                out.push(c);
                assert(out@.drop_last() =~= before);
                assert(a@.take(i + 1).drop_last() =~= a@.take(i as int));
                i += 1;
            }
            assert(a@.take(a@.len() as int) =~= a@);
            JsonValue::Array(out)
        },
        JsonValue::Object(es) => {
            let mut out: Vec<JsonEntry> = Vec::new();
            let mut i: usize = 0;
            while i < es.len()
                invariant
                    *v is Object,
                    v->Object_0 == *es,
                    i <= es@.len(),
                    entries_view(out@) == entries_view(es@.take(i as int)),
                decreases es.len() - i,
            {
                proof {
                    assert(*es == v->Object_0);
                    assert(decreases_to!(*v => v->Object_0));
                    assert(decreases_to!(*es => es@));
                    assert(decreases_to!(es@ => es@[i as int]));
                    assert(decreases_to!(es@[i as int] => es@[i as int].value));
                    assert(decreases_to!(*v => es@[i as int].value));
                }
                let c = JsonEntry { key: es[i].key.clone(), value: deep_copy(&es[i].value) };
                let ghost before = out@;
                out.push(c);
                assert(out@.drop_last() =~= before);
                assert(es@.take(i + 1).drop_last() =~= es@.take(i as int));
                i += 1;
            }
            assert(es@.take(es@.len() as int) =~= es@);
            JsonValue::Object(out)
        },
    }
}

/// Position of the first entry with key `k`, or the number of entries.
fn key_position(es: &Vec<JsonEntry>, k: &String) -> (r: usize)
    ensures
        r == key_index(entries_view(es@), k@),
{
    proof {
        lemma_entries_view(es@);
    }
    let mut i: usize = 0;
    while i < es.len() && !(es[i].key == *k)
        invariant
            i <= es@.len(),
            entries_view(es@).len() == es@.len(),
            forall|j: int| 0 <= j < es@.len() ==> #[trigger] entries_view(es@)[j] == (es@[j].key@, json_view(es@[j].value)),
            forall|j: int| 0 <= j < i ==> (#[trigger] entries_view(es@)[j]).0 != k@,
        decreases es.len() - i,
    {
        i += 1;
    }
    proof {
        if i < es@.len() {
            assert(entries_view(es@)[i as int].0 == k@);
        }
        lemma_key_index_unique(entries_view(es@), k@, i as int);
    }
    i
}

/// Sets `k` to `v` in the entries.
pub(crate) fn entries_set(es: &mut Vec<JsonEntry>, k: String, v: JsonValue)
    ensures
        entries_view(final(es)@) == entry_set(entries_view(old(es)@), k@, json_view(v)),
{
    let i = key_position(es, &k);
    proof {
        lemma_entries_view(es@);
    }
    if i < es.len() {
        let ghost before = es@;
        let e = JsonEntry { key: k, value: v };
        es.set(i, e);
        proof {
            lemma_key_index(entries_view(before), e.key@);
            lemma_entries_view_update(before, i as int, e);
        }
    } else {
        let ghost before = es@;
        es.push(JsonEntry { key: k, value: v });
        assert(es@.drop_last() =~= before);
    }
}

/// The operation applied to the selected value itself.
fn apply_here_exec(v: JsonValue, op: &JsonOperation) -> (r: Result<(JsonValue, bool), String>)
    ensures
        match apply_here(json_view(v), op_view(*op)) {
            Ok((nv, c)) => r is Ok && json_view(r->Ok_0.0) == nv && r->Ok_0.1 == c,
            Err(m) => r is Err && r->Err_0@ == m,
        },
{
    match op {
        JsonOperation::Replace { value } => Ok((deep_copy(value), true)),
        JsonOperation::Add { key, value } => match v {
            JsonValue::Object(es) => {
                let mut es = es;
                entries_set(&mut es, key.clone(), deep_copy(value));
                Ok((JsonValue::Object(es), true))
            },
            _ => Err("Add operation requires object target".to_owned()),
        },
        JsonOperation::Delete { key } => match v {
            JsonValue::Object(es) => {
                let mut es = es;
                let i = key_position(&es, key);
                proof {
                    lemma_entries_view(es@);
                }
                if i < es.len() {
                    let ghost before = es@;
                    es.remove(i);
                    proof {
                        lemma_entries_view_remove(before, i as int);
                    }
                    Ok((JsonValue::Object(es), true))
                } else {
                    Ok((JsonValue::Object(es), false))
                }
            },
            _ => Err("Delete operation requires object target".to_owned()),
        },
        JsonOperation::Merge { object } => match (v, object) {
            (JsonValue::Object(es), JsonValue::Object(src)) => {
                let mut es = es;
                let ghost start = entries_view(es@);
                let mut i: usize = 0;
                while i < src.len()
                    invariant
                        i <= src@.len(),
                        entries_view(es@) == entries_merge(start, entries_view(src@.take(i as int))),
                    decreases src.len() - i,
                {
                    proof {
                        let t = src@.take(i + 1);
                        assert(t.drop_last() =~= src@.take(i as int));
                        assert(entries_view(t).drop_last() == entries_view(src@.take(i as int)));
                        assert(entries_view(t).last() == (src@[i as int].key@, json_view(src@[i as int].value)));
                    }
                    entries_set(&mut es, src[i].key.clone(), deep_copy(&src[i].value));
                    i += 1;
                }
                assert(src@.take(src@.len() as int) =~= src@);
                Ok((JsonValue::Object(es), true))
            },
            _ => Err("Merge operation requires object targets".to_owned()),
        },
    }
}

/// `"<before><part><after>"` as a string.
fn wrap(before: &str, part: &String, after: &str) -> (r: String)
    ensures
        r@ == before@ + part@ + after@,
{
    let mut c = chars_of(before);
    let p = chars_of(part.as_str());
    append_chars(&mut c, &p);
    append_str(&mut c, after);
    string_of(&c)
}

/// The operation applied at `path[idx..]` inside `v`.
fn apply_at_exec(v: JsonValue, path: &Vec<String>, idx: usize, op: &JsonOperation) -> (r: Result<
    (JsonValue, bool),
    String,
>)
    requires
        idx <= path@.len(),
    ensures
        match apply_at(json_view(v), string_views(path@).skip(idx as int), op_view(*op)) {
            Ok((nv, c)) => r is Ok && json_view(r->Ok_0.0) == nv && r->Ok_0.1 == c,
            Err(m) => r is Err && r->Err_0@ == m,
        },
    decreases path@.len() - idx,
{
    let ghost p = string_views(path@).skip(idx as int);
    if idx == path.len() {
        assert(p.len() == 0);
        return apply_here_exec(v, op);
    }
    proof {
        assert(p[0] == path@[idx as int]@);
        assert(p.drop_first() =~= string_views(path@).skip(idx + 1));
    }
    match v {
        JsonValue::Object(es) => {
            let mut es = es;
            let i = key_position(&es, &path[idx]);
            proof {
                lemma_entries_view(es@);
                lemma_key_index(entries_view(es@), p[0]);
            }
            if i < es.len() {
                let ghost before = es@;
                let entry = es.remove(i);
                assert(entry == before[i as int]);
                match apply_at_exec(entry.value, path, idx + 1, op) {
                    Ok((nv, changed)) => {
                        let ne = JsonEntry { key: entry.key, value: nv };
                        es.insert(i, ne);
                        proof {
                            assert(es@ =~= before.update(i as int, ne));
                            lemma_entries_view_update(before, i as int, ne);
                        }
                        Ok((JsonValue::Object(es), changed))
                    },
                    Err(e) => Err(e),
                }
            } else {
                Err(wrap("Key '", &path[idx], "' not found"))
            }
        },
        _ => Err(wrap("Cannot navigate into non-object at '", &path[idx], "'")),
    }
}

/// Splits on `.` (`str::split('.')`).
fn split_on_dots(s: &Vec<char>) -> (r: Vec<String>)
    ensures
        string_views(r@) == split_dots(s@),
{
    let mut r: Vec<String> = Vec::new();
    let mut start: usize = 0;
    let mut i: usize = 0;
    assert(s@.skip(0) =~= s@);
    while i < s.len()
        invariant
            start <= i <= s.len(),
            forall|j: int| start <= j < i ==> #[trigger] s@[j] != '.',
            split_dots(s@) == string_views(r@) + split_dots(s@.skip(start as int)),
        decreases s.len() - i,
    {
        if s[i] == '.' {
            let ghost rest = s@.skip(start as int);
            proof {
                assert forall|j: int| 0 <= j < i - start implies #[trigger] rest[j] != '.' by {
                    assert(rest[j] == s@[start + j]);
                }
                lemma_first_index_unique(rest, '.', i - start);
                assert(rest.take(i - start) =~= s@.subrange(start as int, i as int));
                assert(rest.skip(i - start + 1) =~= s@.skip(i + 1));
            }
            let part = string_of(&slice_chars(s, start, i));
            let ghost prev = string_views(r@);
            r.push(part);
            assert(string_views(r@) =~= prev.push(part@));
            start = i + 1;
        }
        i += 1;
    }
    let ghost rest = s@.skip(start as int);
    proof {
        assert forall|j: int| 0 <= j < rest.len() implies #[trigger] rest[j] != '.' by {
            assert(rest[j] == s@[start + j]);
        }
        lemma_first_index_unique(rest, '.', rest.len() as int);
        assert(rest =~= s@.subrange(start as int, s@.len() as int));
    }
    let part = string_of(&slice_chars(s, start, s.len()));
    let ghost prev = string_views(r@);
    r.push(part);
    assert(string_views(r@) =~= prev.push(part@));
    r
}

/// Parses a selector `$`, `$.a`, `$.a.b`, ... into its keys.
pub fn parse_json_path(selector: &str) -> (r: Result<Vec<String>, String>)
    ensures
        match parse_path_spec(selector@) {
            Ok(p) => r is Ok && string_views(r->Ok_0@) == p,
            Err(m) => r is Err && r->Err_0@ == m,
        },
{
    let s = chars_of(selector);
    if s.len() == 0 || s[0] != '$' {
        return Err("JSONPath must start with $".to_owned());
    }
    if s.len() == 1 {
        return Ok(Vec::new());
    }
    if s[1] != '.' {
        return Err("JSONPath must start with $.".to_owned());
    }
    let rest = slice_chars(&s, 2, s.len());
    assert(rest@ =~= s@.skip(2));
    Ok(split_on_dots(&rest))
}

/// Applies `operation` at the value `selector` picks in `json`.
///
/// On success the document holds the edited value and the result says
/// whether anything changed; on any error the document is left as it was.
pub fn apply_json_operation(json: &mut JsonValue, selector: &str, operation: &JsonOperation) -> (r:
    Result<bool, String>)
    ensures
        match parse_path_spec(selector@) {
            Err(m) => r is Err && r->Err_0@ == m && json_view(*final(json)) == json_view(*old(json)),
            Ok(p) => match apply_at(json_view(*old(json)), p, op_view(*operation)) {
                Ok((nv, c)) => r == Ok::<bool, String>(c) && json_view(*final(json)) == nv,
                Err(m) => r is Err && r->Err_0@ == m && json_view(*final(json)) == json_view(
                    *old(json),
                ),
            },
        },
{
    let parts = match parse_json_path(selector) {
        Ok(p) => p,
        Err(e) => return Err(e),
    };
    assert(string_views(parts@).skip(0) =~= string_views(parts@));
    let copy = deep_copy(json);
    match apply_at_exec(copy, &parts, 0, operation) {
        Ok((nv, changed)) => {
            *json = nv;
            Ok(changed)
        },
        Err(e) => Err(e),
    }
}

/// The value at `path` (an empty path selects the whole document).
pub fn get_value<'a>(v: &'a JsonValue, key: &str) -> (r: Option<&'a JsonValue>)
    ensures
        match v {
            JsonValue::Object(es) => match entry_get(entries_view(es@), key@) {
                Some(x) => r is Some && json_view(*r->Some_0) == x,
                None => r is None,
            },
            _ => r is None,
        },
{
    match v {
        JsonValue::Object(es) => {
            let k = key.to_owned();
            let i = key_position(es, &k);
            proof {
                lemma_entries_view(es@);
            }
            if i < es.len() {
                Some(&es[i].value)
            } else {
                None
            }
        },
        _ => None,
    }
}


// ---------------------------------------------------------------------------
// Reading documents
// ---------------------------------------------------------------------------

/// The value of field `k` of an object.
pub open spec fn field(v: JsonView, k: Seq<char>) -> Option<JsonView> {
    match v {
        JsonView::Object(es) => entry_get(es, k),
        _ => None,
    }
}

/// The text of a string value.
pub open spec fn as_str(v: Option<JsonView>) -> Option<Seq<char>> {
    match v {
        Some(JsonView::Str(s)) => Some(s),
        _ => None,
    }
}

/// A boolean value.
pub open spec fn as_bool(v: Option<JsonView>) -> Option<bool> {
    match v {
        Some(JsonView::Bool(b)) => Some(b),
        _ => None,
    }
}

/// The elements of an array value.
pub open spec fn as_array(v: Option<JsonView>) -> Option<Seq<JsonView>> {
    match v {
        Some(JsonView::Array(a)) => Some(a),
        _ => None,
    }
}

/// A run of ASCII digits.
pub open spec fn all_digits(t: Seq<char>) -> bool {
    forall|i: int| 0 <= i < t.len() ==> '0' <= #[trigger] t[i] <= '9'
}

/// The value of a run of decimal digits.
pub open spec fn digits_value(t: Seq<char>) -> nat
    decreases t.len(),
{
    if t.len() == 0 {
        0
    } else {
        digits_value(t.drop_last()) * 10 + ((t.last() as u32) - 48) as nat
    }
}

/// A number that is a non-negative integer fitting in `u64`
/// (as `serde_json::Value::as_u64` accepts).
pub open spec fn as_u64(v: Option<JsonView>) -> Option<u64> {
    match v {
        Some(JsonView::Number(t)) => if t.len() > 0 && all_digits(t) && digits_value(t)
            <= u64::MAX {
            Some(digits_value(t) as u64)
        } else {
            None
        },
        _ => None,
    }
}

/// Field `k` of `v`, if `v` is an object holding it.
pub fn get_field<'a>(v: &'a JsonValue, k: &str) -> (r: Option<&'a JsonValue>)
    ensures
        match field(json_view(*v), k@) {
            Some(x) => r is Some && json_view(*r->Some_0) == x,
            None => r is None,
        },
{
    get_value(v, k)
}

/// The text of a string value.
pub fn value_as_str(v: Option<&JsonValue>) -> (r: Option<&String>)
    ensures
        match v {
            Some(x) => match as_str(Some(json_view(*x))) {
                Some(s) => r is Some && r->Some_0@ == s,
                None => r is None,
            },
            None => r is None,
        },
{
    match v {
        Some(JsonValue::Str(s)) => Some(s),
        _ => None,
    }
}

/// A boolean value.
pub fn value_as_bool(v: Option<&JsonValue>) -> (r: Option<bool>)
    ensures
        match v {
            Some(x) => r == as_bool(Some(json_view(*x))),
            None => r is None,
        },
{
    match v {
        Some(JsonValue::Bool(b)) => Some(*b),
        _ => None,
    }
}

/// The elements of an array value.
pub fn value_as_array(v: Option<&JsonValue>) -> (r: Option<&Vec<JsonValue>>)
    ensures
        match v {
            Some(x) => match as_array(Some(json_view(*x))) {
                Some(a) => r is Some && array_view(r->Some_0@) == a,
                None => r is None,
            },
            None => r is None,
        },
{
    match v {
        Some(JsonValue::Array(a)) => Some(a),
        _ => None,
    }
}

/// A number that is a non-negative integer fitting in `u64`.
#[verifier::loop_isolation(false)]
pub fn value_as_u64(v: Option<&JsonValue>) -> (r: Option<u64>)
    ensures
        match v {
            Some(x) => r == as_u64(Some(json_view(*x))),
            None => r is None,
        },
{
    match v {
        Some(JsonValue::Number(s)) => {
            parse_digits_u64(s.as_str())
        },
        _ => None,
    }
}

/// The value of a run of decimal digits, when it is non-empty, all digits,
/// and fits in `u64`.
pub fn parse_digits_u64(s: &str) -> (r: Option<u64>)
    ensures
        r == (if s@.len() > 0 && all_digits(s@) && digits_value(s@) <= u64::MAX {
            Some(digits_value(s@) as u64)
        } else {
            None
        }),
{
    let t = chars_of(s);
    if t.len() == 0 {
        return None;
    }
    let mut acc: u64 = 0;
    let mut i: usize = 0;
    while i < t.len()
        invariant
            i <= t@.len(),
            t@ == s@,
            all_digits(t@.take(i as int)),
            acc as nat == digits_value(t@.take(i as int)),
        decreases t.len() - i,
    {
        let c = t[i];
        proof {
            assert(t@.take(i + 1).drop_last() =~= t@.take(i as int));
        }
        if !('0' <= c && c <= '9') {
            proof {
                assert(!all_digits(t@)) by {
                    assert(!('0' <= t@[i as int] <= '9'));
                }
            }
            return None;
        }
        let d = (c as u32 - 48) as u64;
        if acc > (u64::MAX - d) / 10 {
            proof {
                lemma_digits_grow(t@, i as int);
                assert(digits_value(t@.take(i + 1)) == acc * 10 + d);
                assert(acc * 10 + d > u64::MAX) by (nonlinear_arith)
                    requires
                        acc > (u64::MAX - d) / 10,
                        d <= 9,
                ;
                if all_digits(t@) {
                    lemma_digits_prefix_le(t@, i + 1);
                }
            }
            return None;
        }
        proof {
            assert(acc * 10 + d <= u64::MAX) by (nonlinear_arith)
                requires
                    acc <= (u64::MAX - d) / 10,
                    d <= 9,
            ;
        }
        acc = acc * 10 + d;
        i += 1;
        proof {
            assert forall|j: int| 0 <= j < i implies '0' <= #[trigger] t@.take(i as int)[j] <= '9' by {
                if j < i - 1 {
                    assert(t@.take(i as int)[j] == t@.take(i - 1)[j]);
                }
            }
        }
    }
    assert(t@.take(t@.len() as int) =~= t@);
    Some(acc)
}

/// Prefix values of a digit run.
proof fn lemma_digits_grow(t: Seq<char>, i: int)
    requires
        0 <= i < t.len(),
    ensures
        digits_value(t.take(i + 1)) == digits_value(t.take(i)) * 10 + ((t[i] as u32) - 48) as nat,
{
    assert(t.take(i + 1).drop_last() =~= t.take(i));
}

/// A longer digit run is worth at least as much as its prefix.
proof fn lemma_digits_prefix_le(t: Seq<char>, i: int)
    requires
        0 <= i <= t.len(),
        all_digits(t),
    ensures
        digits_value(t.take(i)) <= digits_value(t),
    decreases t.len() - i,
{
    if i < t.len() {
        lemma_digits_prefix_le(t, i + 1);
        lemma_digits_grow(t, i);
        assert('0' <= t[i] <= '9');
        assert(digits_value(t.take(i)) <= digits_value(t.take(i)) * 10) by (nonlinear_arith);
    } else {
        assert(t.take(i) =~= t);
    }
}

/// Arguments of the JSON edit tool.
#[derive(Debug)]
pub struct EditJsonArgs {
    /// The JSON file.
    pub path: String,
    /// Where to edit (`$.provider`, `$.provider.openrouter.models`).
    pub selector: String,
    pub operation: JsonOperation,
}

/// The JSON edit tool on a parsed document: the document is edited in
/// place and the result says whether it changed (an unchanged file is not
/// written); an edit that cannot be applied is an internal error
/// `JSON operation failed: <why>`, and the document is left as it was.
pub fn edit_json_document(json: &mut JsonValue, selector: &str, operation: &JsonOperation) -> (r: Result<
    bool,
    IvaldiError,
>)
    ensures
        match parse_path_spec(selector@) {
            Err(m) => (r matches Err(IvaldiError::Internal(x)) && x@ == "JSON operation failed: "@ + m)
                && json_view(*final(json)) == json_view(*old(json)),
            Ok(p) => match apply_at(json_view(*old(json)), p, op_view(*operation)) {
                Ok((nv, c)) => r == Ok::<bool, IvaldiError>(c) && json_view(*final(json)) == nv,
                Err(m) => (r matches Err(IvaldiError::Internal(x)) && x@ == "JSON operation failed: "@ + m)
                    && json_view(*final(json)) == json_view(*old(json)),
            },
        },
{
    match apply_json_operation(json, selector, operation) {
        Ok(c) => Ok(c),
        Err(e) => {
            let mut v = chars_of("JSON operation failed: ");
            append_str(&mut v, e.as_str());
            Err(IvaldiError::Internal(string_of(&v)))
        },
    }
}

} // verus!

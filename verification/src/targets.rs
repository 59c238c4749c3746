//! What a parsed file offers as edit targets, and the context reported when
//! a structural query matched no node or several.
use vstd::prelude::*;
use crate::doc::{
    array_items, bool_at, bool_of, items_at, items_of, json_views, str_at, str_of, u64_at, u64_of,
};
use crate::edit_context::{
    disambiguation_hints_spec, extract_target_name_from_query, first_capture,
    generate_disambiguation_hints, name_patterns, AmbiguousContext, AvailableTargets, FileInfo,
    ListItemInfo, MatchInfo, NoMatchContext, SelectorType, SimilarName, TargetInfo,
};
use crate::json_edit::{as_array, field, get_field, json_view, JsonValue, JsonView};
use crate::kind::{is_code, SourceKind};
use crate::line_edit::{edit_lines, edit_lines_post, EditOutcome, RichEditError};
use crate::similarity::{candidate_views, find_similar_names, similar_names_spec, similar_views};
use crate::grep_edit::{match_view, match_views};
use crate::text::{
    append_str, bytes_prefix, byte_boundary, chars_of, is_byte_boundary, lines_of, prefix_of_bytes, split_lines,
    string_of, string_views, utf8_len, utf8_len_chars, utf8_len_gt,
};

verus! {

/// Abstract value of an optional string.
pub open spec fn opt_view(o: Option<String>) -> Option<Seq<char>> {
    match o {
        Some(s) => Some(s@),
        None => None,
    }
}

/// A target as name, line, visibility and parent.
pub type TargetView = (Seq<char>, nat, Option<Seq<char>>, Option<Seq<char>>);

/// Abstract value of a target.
pub open spec fn target_view(t: TargetInfo) -> TargetView {
    (t.name@, t.line_start as nat, opt_view(t.visibility), opt_view(t.parent))
}

/// Abstract values of targets.
pub open spec fn target_views(s: Seq<TargetInfo>) -> Seq<TargetView> {
    s.map_values(|t: TargetInfo| target_view(t))
}

/// A list item as text, line, task flag and checked flag.
pub type ListItemView = (Seq<char>, nat, Option<bool>, Option<bool>);

/// Abstract value of a list item.
pub open spec fn list_item_view(l: ListItemInfo) -> ListItemView {
    (l.content@, l.line as nat, l.task, l.checked)
}

/// Abstract values of list items.
pub open spec fn list_item_views(s: Seq<ListItemInfo>) -> Seq<ListItemView> {
    s.map_values(|l: ListItemInfo| list_item_view(l))
}

/// An item's first line, or 1 when it has none.
pub open spec fn line_or_one(x: JsonView) -> nat {
    match u64_of(x, "line_start"@) {
        Some(n) => (n as usize) as nat,
        None => 1,
    }
}

/// The items that carry a string under `key`, as targets named by it, with
/// their visibility and parent when asked for.
pub open spec fn targets_from(xs: Seq<JsonView>, key: Seq<char>, vis: bool, parent: bool) -> Seq<
    TargetView,
>
    decreases xs.len(),
{
    if xs.len() == 0 {
        Seq::empty()
    } else {
        let prev = targets_from(xs.drop_last(), key, vis, parent);
        let x = xs.last();
        match str_of(x, key) {
            Some(n) => prev.push(
                (
                    n,
                    line_or_one(x),
                    if vis {
                        str_of(x, "visibility"@)
                    } else {
                        None
                    },
                    if parent {
                        str_of(x, "parent"@)
                    } else {
                        None
                    },
                ),
            ),
            None => prev,
        }
    }
}

/// The strings the items carry under `key`.
pub open spec fn names_from(xs: Seq<JsonView>, key: Seq<char>) -> Seq<Seq<char>>
    decreases xs.len(),
{
    if xs.len() == 0 {
        Seq::empty()
    } else {
        let prev = names_from(xs.drop_last(), key);
        match str_of(xs.last(), key) {
            Some(n) => prev.push(n),
            None => prev,
        }
    }
}

/// The items with text, as list items.
pub open spec fn list_items_from(xs: Seq<JsonView>) -> Seq<ListItemView>
    decreases xs.len(),
{
    if xs.len() == 0 {
        Seq::empty()
    } else {
        let prev = list_items_from(xs.drop_last());
        let x = xs.last();
        match str_of(x, "content"@) {
            Some(c) => prev.push((c, line_or_one(x), bool_of(x, "task"@), bool_of(x, "checked"@))),
            None => prev,
        }
    }
}

/// An array, or nothing.
pub open spec fn or_empty(o: Option<Seq<JsonView>>) -> Seq<JsonView> {
    match o {
        Some(a) => a,
        None => Seq::empty(),
    }
}

/// The type declarations: the `structs` entry when present, else `classes`.
pub open spec fn type_items(doc: JsonView) -> Option<Seq<JsonView>> {
    match field(doc, "structs"@) {
        Some(v) => as_array(Some(v)),
        None => items_of(doc, "classes"@),
    }
}

/// Functions a file offers: declared functions in code, nothing in
/// Markdown, and named elements in other files.
pub open spec fn functions_spec(kind: SourceKind, doc: JsonView) -> Seq<TargetView> {
    if is_code(kind) {
        targets_from(or_empty(items_of(doc, "functions"@)), "name"@, true, true)
    } else if kind is Markdown {
        Seq::empty()
    } else {
        targets_from(or_empty(items_of(doc, "elements"@)), "name"@, false, false)
    }
}

/// Types a code file declares.
pub open spec fn structs_spec(kind: SourceKind, doc: JsonView) -> Seq<TargetView> {
    if is_code(kind) {
        targets_from(or_empty(type_items(doc)), "name"@, true, false)
    } else {
        Seq::empty()
    }
}

/// Imports a code file names.
pub open spec fn imports_spec(kind: SourceKind, doc: JsonView) -> Seq<Seq<char>> {
    if is_code(kind) {
        names_from(or_empty(items_of(doc, "imports"@)), "name"@)
    } else {
        Seq::empty()
    }
}

/// Headers of a Markdown file.
pub open spec fn headers_spec(kind: SourceKind, doc: JsonView) -> Seq<TargetView> {
    if kind is Markdown {
        targets_from(or_empty(items_of(doc, "headers"@)), "content"@, false, false)
    } else {
        Seq::empty()
    }
}

/// List items of a Markdown file.
pub open spec fn list_items_spec(kind: SourceKind, doc: JsonView) -> Seq<ListItemView> {
    if kind is Markdown {
        list_items_from(or_empty(items_of(doc, "list_items"@)))
    } else {
        Seq::empty()
    }
}

/// The names under `key`, each with a category.
pub open spec fn cands_from(xs: Seq<JsonView>, key: Seq<char>, cat: Seq<char>) -> Seq<
    (Seq<char>, Seq<char>),
> {
    names_from(xs, key).map_values(|n: Seq<char>| (n, cat))
}

/// Names a file offers for "did you mean" suggestions, with their category.
pub open spec fn candidates_spec(kind: SourceKind, doc: JsonView) -> Seq<(Seq<char>, Seq<char>)> {
    if is_code(kind) {
        cands_from(or_empty(items_of(doc, "functions"@)), "name"@, "function"@) + cands_from(
            or_empty(type_items(doc)),
            "name"@,
            "struct"@,
        ) + cands_from(or_empty(items_of(doc, "imports"@)), "name"@, "import"@)
    } else if kind is Markdown {
        cands_from(or_empty(items_of(doc, "headers"@)), "content"@, "header"@) + cands_from(
            or_empty(items_of(doc, "list_items"@)),
            "content"@,
            "list_item"@,
        )
    } else {
        cands_from(or_empty(items_of(doc, "elements"@)), "name"@, "element"@)
    }
}

/// Abstract values of candidate pairs.
pub open spec fn pair_views(v: Seq<(String, String)>) -> Seq<(Seq<char>, Seq<char>)> {
    v.map_values(|p: (String, String)| (p.0@, p.1@))
}

fn opt_clone(o: Option<&String>) -> (r: Option<String>)
    ensures
        opt_view(r) == match o {
            Some(s) => Some(s@),
            None => None,
        },
{
    match o {
        Some(s) => Some(s.clone()),
        None => None,
    }
}

fn line_or_one_at(x: &JsonValue) -> (r: usize)
    ensures
        r as nat == line_or_one(json_view(*x)),
{
    match u64_at(x, "line_start") {
        Some(n) => n as usize,
        None => 1,
    }
}

/// Appends the targets among `xs` to `out`.
fn collect_targets(xs: &Vec<JsonValue>, key: &str, vis: bool, parent: bool, out: &mut Vec<TargetInfo>)
    ensures
        target_views(final(out)@) == target_views(old(out)@) + targets_from(
            json_views(xs@),
            key@,
            vis,
            parent,
        ),
{
    let ghost xv = json_views(xs@);
    let ghost base = target_views(out@);
    let mut i: usize = 0;
    while i < xs.len()
        invariant
            i <= xs@.len(),
            xv == json_views(xs@),
            target_views(out@) == base + targets_from(xv.take(i as int), key@, vis, parent),
        decreases xs.len() - i,
    {
        let x = &xs[i];
        proof {
            assert(xv.take(i + 1).drop_last() =~= xv.take(i as int));
            assert(xv.take(i + 1).last() == json_view(*x));
        }
        match str_at(x, key) {
            Some(n) => {
                let t = TargetInfo {
                    name: n.clone(),
                    line_start: line_or_one_at(x),
                    visibility: if vis {
                        opt_clone(str_at(x, "visibility"))
                    } else {
                        None
                    },
                    parent: if parent {
                        opt_clone(str_at(x, "parent"))
                    } else {
                        None
                    },
                };
                let ghost prev = target_views(out@);
                out.push(t);
                assert(target_views(out@) =~= prev.push(target_view(t)));
                assert(base + targets_from(xv.take(i + 1), key@, vis, parent) =~= (base
                    + targets_from(xv.take(i as int), key@, vis, parent)).push(target_view(t)));
            },
            None => {},
        }
        i += 1;
    }
    assert(xv.take(xs@.len() as int) =~= xv);
}

/// Appends the strings under `key` to `out`.
fn collect_names(xs: &Vec<JsonValue>, key: &str, out: &mut Vec<String>)
    ensures
        final(out)@.map_values(|s: String| s@) == old(out)@.map_values(|s: String| s@) + names_from(
            json_views(xs@),
            key@,
        ),
{
    let ghost xv = json_views(xs@);
    let ghost base = old(out)@.map_values(|s: String| s@);
    let mut i: usize = 0;
    while i < xs.len()
        invariant
            i <= xs@.len(),
            xv == json_views(xs@),
            out@.map_values(|s: String| s@) == base + names_from(xv.take(i as int), key@),
        decreases xs.len() - i,
    {
        let x = &xs[i];
        proof {
            assert(xv.take(i + 1).drop_last() =~= xv.take(i as int));
            assert(xv.take(i + 1).last() == json_view(*x));
        }
        match str_at(x, key) {
            Some(n) => {
                let ghost prev = out@.map_values(|s: String| s@);
                let c = n.clone();
                out.push(c);
                assert(out@.map_values(|s: String| s@) =~= prev.push(c@));
                assert(base + names_from(xv.take(i + 1), key@) =~= (base + names_from(
                    xv.take(i as int),
                    key@,
                )).push(c@));
            },
            None => {},
        }
        i += 1;
    }
    assert(xv.take(xs@.len() as int) =~= xv);
}

/// Appends the list items among `xs` to `out`.
fn collect_list_items(xs: &Vec<JsonValue>, out: &mut Vec<ListItemInfo>)
    ensures
        list_item_views(final(out)@) == list_item_views(old(out)@) + list_items_from(
            json_views(xs@),
        ),
{
    let ghost xv = json_views(xs@);
    let ghost base = list_item_views(out@);
    let mut i: usize = 0;
    while i < xs.len()
        invariant
            i <= xs@.len(),
            xv == json_views(xs@),
            list_item_views(out@) == base + list_items_from(xv.take(i as int)),
        decreases xs.len() - i,
    {
        let x = &xs[i];
        proof {
            assert(xv.take(i + 1).drop_last() =~= xv.take(i as int));
            assert(xv.take(i + 1).last() == json_view(*x));
        }
        match str_at(x, "content") {
            Some(c) => {
                let item = ListItemInfo {
                    content: c.clone(),
                    line: line_or_one_at(x),
                    task: bool_at(x, "task"),
                    checked: bool_at(x, "checked"),
                };
                let ghost prev = list_item_views(out@);
                out.push(item);
                assert(list_item_views(out@) =~= prev.push(list_item_view(item)));
                assert(base + list_items_from(xv.take(i + 1)) =~= (base + list_items_from(
                    xv.take(i as int),
                )).push(list_item_view(item)));
            },
            None => {},
        }
        i += 1;
    }
    assert(xv.take(xs@.len() as int) =~= xv);
}

/// Appends the names under `key`, each with category `cat`, to `out`.
fn collect_candidates(xs: &Vec<JsonValue>, key: &str, cat: &str, out: &mut Vec<(String, String)>)
    ensures
        pair_views(final(out)@) == pair_views(old(out)@) + cands_from(json_views(xs@), key@, cat@),
{
    let ghost xv = json_views(xs@);
    let ghost base = pair_views(out@);
    let mut i: usize = 0;
    while i < xs.len()
        invariant
            i <= xs@.len(),
            xv == json_views(xs@),
            pair_views(out@) == base + cands_from(xv.take(i as int), key@, cat@),
        decreases xs.len() - i,
    {
        let x = &xs[i];
        proof {
            assert(xv.take(i + 1).drop_last() =~= xv.take(i as int));
            assert(xv.take(i + 1).last() == json_view(*x));
        }
        match str_at(x, key) {
            Some(n) => {
                let p = (n.clone(), cat.to_owned());
                let ghost prev = pair_views(out@);
                out.push(p);
                assert(pair_views(out@) =~= prev.push((p.0@, p.1@)));
                assert(base + cands_from(xv.take(i + 1), key@, cat@) =~= (base + cands_from(
                    xv.take(i as int),
                    key@,
                    cat@,
                )).push((n@, cat@)));
            },
            None => {},
        }
        i += 1;
    }
    assert(xv.take(xs@.len() as int) =~= xv);
}

/// The type declarations of a parsed file.
fn type_items_at(doc: &JsonValue) -> (r: Option<&Vec<JsonValue>>)
    ensures
        match type_items(json_view(*doc)) {
            Some(a) => r is Some && a == json_views(r->Some_0@),
            None => r is None,
        },
{
    match get_field(doc, "structs") {
        Some(v) => array_items(Some(v)),
        None => items_at(doc, "classes"),
    }
}

/// The targets a parsed file offers, grouped by kind.
pub fn build_available_targets(file_type: &SourceKind, json: &JsonValue) -> (r: AvailableTargets)
    ensures
        target_views(r.functions@) == functions_spec(*file_type, json_view(*json)),
        target_views(r.structs@) == structs_spec(*file_type, json_view(*json)),
        r.classes@.len() == 0,
        r.imports@.map_values(|s: String| s@) == imports_spec(*file_type, json_view(*json)),
        target_views(r.headers@) == headers_spec(*file_type, json_view(*json)),
        list_item_views(r.list_items@) == list_items_spec(*file_type, json_view(*json)),
{
    let mut targets = AvailableTargets::empty();
    let ghost d = json_view(*json);
    proof {
        assert(target_views(targets.functions@) =~= Seq::empty());
        assert(target_views(targets.structs@) =~= Seq::empty());
        assert(target_views(targets.headers@) =~= Seq::empty());
        assert(targets.imports@.map_values(|s: String| s@) =~= Seq::empty());
        assert(list_item_views(targets.list_items@) =~= Seq::empty());
    }
    if file_type.is_code() {
        match items_at(json, "functions") {
            Some(xs) => collect_targets(xs, "name", true, true, &mut targets.functions),
            None => {},
        }
        match type_items_at(json) {
            Some(xs) => collect_targets(xs, "name", true, false, &mut targets.structs),
            None => {},
        }
        match items_at(json, "imports") {
            Some(xs) => collect_names(xs, "name", &mut targets.imports),
            None => {},
        }
    } else if matches!(file_type, SourceKind::Markdown) {
        match items_at(json, "headers") {
            Some(xs) => collect_targets(xs, "content", false, false, &mut targets.headers),
            None => {},
        }
        match items_at(json, "list_items") {
            Some(xs) => collect_list_items(xs, &mut targets.list_items),
            None => {},
        }
    } else {
        match items_at(json, "elements") {
            Some(xs) => collect_targets(xs, "name", false, false, &mut targets.functions),
            None => {},
        }
    }
    proof {
        assert(targets_from(Seq::<JsonView>::empty(), "name"@, true, true) =~= Seq::empty());
    }
    targets
}

/// Names a parsed file offers for suggestions, each with its category.
pub fn find_candidates_for_file_type(file_type: &SourceKind, json: &JsonValue) -> (r: Vec<
    (String, String),
>)
    ensures
        pair_views(r@) == candidates_spec(*file_type, json_view(*json)),
{
    let mut out: Vec<(String, String)> = Vec::new();
    let ghost d = json_view(*json);
    assert(pair_views(out@) =~= Seq::empty());
    if file_type.is_code() {
        match items_at(json, "functions") {
            Some(xs) => collect_candidates(xs, "name", "function", &mut out),
            None => {},
        }
        let ghost a = pair_views(out@);
        match type_items_at(json) {
            Some(xs) => collect_candidates(xs, "name", "struct", &mut out),
            None => {},
        }
        let ghost b = pair_views(out@);
        match items_at(json, "imports") {
            Some(xs) => collect_candidates(xs, "name", "import", &mut out),
            None => {},
        }
        proof {
            assert(names_from(Seq::<JsonView>::empty(), "name"@) =~= Seq::empty());
            assert(cands_from(Seq::<JsonView>::empty(), "name"@, "function"@) =~= Seq::empty());
            assert(cands_from(Seq::<JsonView>::empty(), "name"@, "struct"@) =~= Seq::empty());
            assert(cands_from(Seq::<JsonView>::empty(), "name"@, "import"@) =~= Seq::empty());
            assert(a =~= cands_from(or_empty(items_of(d, "functions"@)), "name"@, "function"@));
            assert(b =~= a + cands_from(or_empty(type_items(d)), "name"@, "struct"@));
            assert(pair_views(out@) =~= b + cands_from(
                or_empty(items_of(d, "imports"@)),
                "name"@,
                "import"@,
            ));
        }
    } else if matches!(file_type, SourceKind::Markdown) {
        match items_at(json, "headers") {
            Some(xs) => collect_candidates(xs, "content", "header", &mut out),
            None => {},
        }
        let ghost a = pair_views(out@);
        match items_at(json, "list_items") {
            Some(xs) => collect_candidates(xs, "content", "list_item", &mut out),
            None => {},
        }
        proof {
            assert(names_from(Seq::<JsonView>::empty(), "content"@) =~= Seq::empty());
            assert(cands_from(Seq::<JsonView>::empty(), "content"@, "header"@) =~= Seq::empty());
            assert(cands_from(Seq::<JsonView>::empty(), "content"@, "list_item"@)
                =~= Seq::empty());
            assert(a =~= cands_from(or_empty(items_of(d, "headers"@)), "content"@, "header"@));
            assert(pair_views(out@) =~= a + cands_from(
                or_empty(items_of(d, "list_items"@)),
                "content"@,
                "list_item"@,
            ));
        }
    } else {
        match items_at(json, "elements") {
            Some(xs) => collect_candidates(xs, "name", "element", &mut out),
            None => {},
        }
        proof {
            assert(names_from(Seq::<JsonView>::empty(), "name"@) =~= Seq::empty());
            assert(cands_from(Seq::<JsonView>::empty(), "name"@, "element"@) =~= Seq::empty());
            assert(pair_views(out@) =~= cands_from(
                or_empty(items_of(d, "elements"@)),
                "name"@,
                "element"@,
            ));
        }
    }
    out
}


// ---------------------------------------------------------------------------
// Context for a query that matched no node, or several
// ---------------------------------------------------------------------------

/// A match as name, lines, signature, parent and content preview.
pub type MatchView = (Seq<char>, nat, nat, Option<Seq<char>>, Option<Seq<char>>, Option<Seq<char>>);

/// A node's text shortened for display: over 50 bytes, its first 47 bytes
/// followed by `...`.
pub open spec fn preview_of(s: Seq<char>) -> Seq<char> {
    if utf8_len(s) > 50 {
        bytes_prefix(s, 47) + "..."@
    } else {
        s
    }
}

/// Shortening the node's text cuts at a character boundary.
pub open spec fn preview_ok(x: JsonView) -> bool {
    match str_of(x, "content"@) {
        Some(s) => utf8_len(s) > 50 ==> byte_boundary(s, 47),
        None => true,
    }
}

/// An item's last line, or 1 when it has none.
pub open spec fn end_or_one(x: JsonView) -> nat {
    match u64_of(x, "line_end"@) {
        Some(n) => (n as usize) as nat,
        None => 1,
    }
}

/// What a matched node contributes to an ambiguity report.
pub open spec fn node_match(x: JsonView) -> MatchView {
    (
        match str_of(x, "name"@) {
            Some(n) => n,
            None => "unknown"@,
        },
        line_or_one(x),
        end_or_one(x),
        str_of(x, "signature"@),
        str_of(x, "parent"@),
        match str_of(x, "content"@) {
            Some(c) => Some(preview_of(c)),
            None => None,
        },
    )
}

/// The file facts a report carries before its path is known.
pub open spec fn file_info_ok(f: FileInfo, type_label: Seq<char>, content: Seq<char>) -> bool {
    &&& f.path@ == "unknown"@
    &&& f.file_type@ == type_label
    &&& f.total_lines == lines_of(content).len()
    &&& f.total_bytes == utf8_len(content)
}

/// The report for a query that matched several nodes.
pub open spec fn ambiguous_ok(
    c: AmbiguousContext,
    query: Seq<char>,
    type_label: Seq<char>,
    content: Seq<char>,
    nodes: Seq<JsonView>,
) -> bool {
    &&& c.query@ == query
    &&& c.selector_type == SelectorType::AstQuery
    &&& file_info_ok(c.file_info, type_label, content)
    &&& match_views(c.matches@) == nodes.map_values(|x: JsonView| node_match(x))
    &&& string_views(c.disambiguation_hints@) == disambiguation_hints_spec(c.matches@, query)
}

/// The report for a query that matched nothing.
pub open spec fn no_match_ok(
    c: NoMatchContext,
    query: Seq<char>,
    kind: SourceKind,
    type_label: Seq<char>,
    content: Seq<char>,
    doc: JsonView,
) -> bool {
    &&& c.query@ == query
    &&& c.selector_type == SelectorType::AstQuery
    &&& file_info_ok(c.file_info, type_label, content)
    &&& c.available_targets matches Some(t) && targets_ok(t, kind, doc)
    &&& match first_capture(name_patterns(), 0, query) {
        Some(name) => similar_views(c.similar_names@) == similar_names_spec(
            name,
            candidates_spec(kind, doc),
            5,
        ),
        None => c.similar_names@.len() == 0,
    }
    &&& c.partial_matches@.len() == 0
}

/// The targets of a parsed file, grouped by kind.
pub open spec fn targets_ok(t: AvailableTargets, kind: SourceKind, doc: JsonView) -> bool {
    &&& target_views(t.functions@) == functions_spec(kind, doc)
    &&& target_views(t.structs@) == structs_spec(kind, doc)
    &&& t.classes@.len() == 0
    &&& t.imports@.map_values(|s: String| s@) == imports_spec(kind, doc)
    &&& target_views(t.headers@) == headers_spec(kind, doc)
    &&& list_item_views(t.list_items@) == list_items_spec(kind, doc)
}

fn file_info_of(type_label: &str, content: &str) -> (r: FileInfo)
    requires
        utf8_len(content@) <= usize::MAX,
    ensures
        file_info_ok(r, type_label@, content@),
{
    let cc = chars_of(content);
    let ls = split_lines(&cc);
    proof {
        assert(crate::text::views(ls@).len() == ls@.len());
    }
    FileInfo {
        path: "unknown".to_owned(),
        file_type: type_label.to_owned(),
        total_lines: ls.len(),
        total_bytes: utf8_len_chars(&cc),
    }
}

fn preview(s: &String) -> (r: String)
    requires
        utf8_len(s@) > 50 ==> byte_boundary(s@, 47),
    ensures
        r@ == preview_of(s@),
{
    let cs = chars_of(s.as_str());
    if utf8_len_gt(&cs, 50) {
        let mut p = prefix_of_bytes(&cs, 47);
        append_str(&mut p, "...");
        string_of(&p)
    } else {
        s.clone()
    }
}

fn node_match_of(x: &JsonValue) -> (r: MatchInfo)
    requires
        preview_ok(json_view(*x)),
    ensures
        match_view(r) == node_match(json_view(*x)),
{
    let name = match str_at(x, "name") {
        Some(n) => n.clone(),
        None => "unknown".to_owned(),
    };
    let line_end = match u64_at(x, "line_end") {
        Some(n) => n as usize,
        None => 1,
    };
    let content_preview = match str_at(x, "content") {
        Some(c) => Some(preview(c)),
        None => None,
    };
    MatchInfo {
        name,
        line_start: line_or_one_at(x),
        line_end,
        signature: opt_clone(str_at(x, "signature")),
        parent: opt_clone(str_at(x, "parent")),
        content_preview,
    }
}

/// The report for a query that matched several nodes: each node's name,
/// lines and shortened text, and hints that would tell them apart.
pub fn build_ambiguous_context(
    query: &str,
    type_label: &str,
    content: &str,
    results: &Vec<JsonValue>,
) -> (r: AmbiguousContext)
    requires
        utf8_len(content@) <= usize::MAX,
        forall|i: int| 0 <= i < results@.len() ==> preview_ok(#[trigger] json_view(results@[i])),
    ensures
        ambiguous_ok(r, query@, type_label@, content@, json_views(results@)),
{
    let ghost nodes = json_views(results@);
    let mut matches: Vec<MatchInfo> = Vec::new();
    let mut i: usize = 0;
    while i < results.len()
        invariant
            i <= results@.len(),
            nodes == json_views(results@),
            forall|j: int| 0 <= j < results@.len() ==> preview_ok(#[trigger] json_view(results@[j])),
            match_views(matches@) == nodes.take(i as int).map_values(|x: JsonView| node_match(x)),
        decreases results.len() - i,
    {
        let m = node_match_of(&results[i]);
        let ghost prev = match_views(matches@);
        matches.push(m);
        assert(match_views(matches@) =~= prev.push(match_view(m)));
        assert(nodes.take(i + 1).map_values(|x: JsonView| node_match(x)) =~= nodes.take(
            i as int,
        ).map_values(|x: JsonView| node_match(x)).push(node_match(nodes[i as int])));
        i += 1;
    }
    assert(nodes.take(results@.len() as int) =~= nodes);
    let disambiguation_hints = generate_disambiguation_hints(matches.as_slice(), query);
    AmbiguousContext {
        query: query.to_owned(),
        selector_type: SelectorType::AstQuery,
        file_info: file_info_of(type_label, content),
        matches,
        disambiguation_hints,
    }
}

/// Borrowed views of candidate pairs.
fn candidate_refs(cands: &Vec<(String, String)>) -> (r: Vec<(&str, &str)>)
    ensures
        candidate_views(r@) == pair_views(cands@),
{
    let mut r: Vec<(&str, &str)> = Vec::new();
    let mut i: usize = 0;
    while i < cands.len()
        invariant
            i <= cands@.len(),
            candidate_views(r@) == pair_views(cands@).take(i as int),
        decreases cands.len() - i,
    {
        let p = (cands[i].0.as_str(), cands[i].1.as_str());
        let ghost prev = candidate_views(r@);
        r.push(p);
        assert(candidate_views(r@) =~= prev.push((p.0@, p.1@)));
        i += 1;
        assert(candidate_views(r@) =~= pair_views(cands@).take(i as int));
    }
    assert(pair_views(cands@).take(cands@.len() as int) =~= pair_views(cands@));
    r
}

/// The report for a query that matched nothing: the targets the file
/// offers and, when the query names a target, the closest names.
pub fn build_no_match_context(
    query: &str,
    file_type: &SourceKind,
    type_label: &str,
    content: &str,
    json: &JsonValue,
) -> (r: NoMatchContext)
    requires
        utf8_len(content@) <= usize::MAX,
    ensures
        no_match_ok(r, query@, *file_type, type_label@, content@, json_view(*json)),
{
    let file_info = file_info_of(type_label, content);
    let target_name = extract_target_name_from_query(query);
    let available_targets = build_available_targets(file_type, json);
    let similar_names = match target_name {
        Some(target) => {
            let candidates = find_candidates_for_file_type(file_type, json);
            let refs = candidate_refs(&candidates);
            find_similar_names(target.as_str(), refs.as_slice(), 5)
        },
        None => Vec::new(),
    };
    NoMatchContext {
        query: query.to_owned(),
        selector_type: SelectorType::AstQuery,
        file_info,
        available_targets: Some(available_targets),
        similar_names,
        partial_matches: Vec::new(),
    }
}

/// Edits the one node a structural query matched, given the parsed file and
/// the query's results; reports no match or an ambiguous match otherwise.
/// The node's lines are replaced as an inferred (not explicit) range.
pub fn edit_node_results(
    content: &str,
    file_type: &SourceKind,
    type_label: &str,
    query: &str,
    replacement: &str,
    json: &JsonValue,
    results: &Vec<JsonValue>,
) -> (r: Result<EditOutcome, RichEditError>)
    requires
        utf8_len(content@) <= usize::MAX,
        results@.len() > 1 ==> forall|i: int|
            0 <= i < results@.len() ==> preview_ok(#[trigger] json_view(results@[i])),
    ensures
        results@.len() == 0 ==> (r matches Err(RichEditError::NoMatch(c)) && no_match_ok(
            *c,
            query@,
            *file_type,
            type_label@,
            content@,
            json_view(*json),
        )),
        results@.len() > 1 ==> (r matches Err(RichEditError::Ambiguous(c)) && ambiguous_ok(
            *c,
            query@,
            type_label@,
            content@,
            json_views(results@),
        )),
        results@.len() == 1 ==> ({
            let n = json_view(results@[0]);
            match (u64_of(n, "line_start"@), u64_of(n, "line_end"@)) {
                (None, _) => r matches Err(RichEditError::MissingLineStart),
                (Some(_), None) => r matches Err(RichEditError::MissingLineEnd),
                (Some(s), Some(e)) => edit_lines_post(
                    content@,
                    (s as usize) as int,
                    (e as usize) as int,
                    replacement@,
                    false,
                    r,
                ),
            }
        }),
{
    if results.len() == 0 {
        let c = build_no_match_context(query, file_type, type_label, content, json);
        return Err(RichEditError::NoMatch(Box::new(c)));
    }
    if results.len() > 1 {
        let c = build_ambiguous_context(query, type_label, content, results);
        return Err(RichEditError::Ambiguous(Box::new(c)));
    }
    let node = &results[0];
    let line_start = match u64_at(node, "line_start") {
        Some(s) => s as usize,
        None => {
            return Err(RichEditError::MissingLineStart);
        },
    };
    let line_end = match u64_at(node, "line_end") {
        Some(e) => e as usize,
        None => {
            return Err(RichEditError::MissingLineEnd);
        },
    };
    edit_lines(content, line_start, line_end, replacement, false)
}

/// Whether a matched node's content can be previewed: content longer than
/// 50 bytes is cut after 47, which must not split a character.
pub fn preview_fits(x: &JsonValue) -> (r: bool)
    ensures
        r == preview_ok(json_view(*x)),
{
    match str_at(x, "content") {
        Some(s) => {
            let c = chars_of(s.as_str());
            if utf8_len_gt(&c, 50) {
                is_byte_boundary(&c, 47)
            } else {
                true
            }
        },
        None => true,
    }
}

} // verus!

//! The advisories an edit failure is answered with: the failure's context as
//! a JSON object (keys in sorted order, fields that are empty or absent left
//! out where the context types say so) and the action suggested.
use vstd::prelude::*;
use crate::advisory::{AdvisoryLevel, AdvisoryMessage, AdvisorySource};
use crate::edit_context::{
    ambiguous_action_spec, first_n, join_sep, no_match_action_spec, AmbiguousContext,
    AvailableTargets, FileInfo, GrepAmbiguousContext, GrepNoMatchContext, ListItemInfo, MatchInfo,
    NoMatchContext, PartialMatch, SelectorType, SimilarName, TargetInfo,
};
use crate::heuristics::{jnum, jstr, push_entry};
use crate::json_edit::{array_view, entries_view, json_view, JsonEntry, JsonValue, JsonView};
use crate::text::{
    append_chars, append_str, byte_boundary, bytes_prefix, chars_of, decimal, decimal_chars,
    prefix_of_bytes, string_of, utf8_len, utf8_len_gt,
};

verus! {

/// A value that has a JSON encoding.
pub trait ToJson: Sized {
    /// The encoding.
    spec fn json_spec(&self) -> JsonView;

    /// Encodes the value.
    fn to_json(&self) -> (r: JsonValue)
        ensures
            json_view(r) == self.json_spec(),
    ;
}

/// The encodings of values, in order.
pub open spec fn jsons<T: ToJson>(s: Seq<T>) -> Seq<JsonView> {
    s.map_values(|t: T| t.json_spec())
}

/// The entries of an object (none for other values).
pub open spec fn object_entries(v: JsonView) -> Seq<(Seq<char>, JsonView)> {
    match v {
        JsonView::Object(es) => es,
        _ => Seq::empty(),
    }
}

/// An entry for an optional text, absent when the text is.
pub open spec fn opt_str_entry(k: Seq<char>, o: Option<String>) -> Seq<(Seq<char>, JsonView)> {
    match o {
        Some(s) => seq![(k, jstr(s@))],
        None => Seq::empty(),
    }
}

/// An entry for an optional flag, absent when the flag is.
pub open spec fn opt_bool_entry(k: Seq<char>, o: Option<bool>) -> Seq<(Seq<char>, JsonView)> {
    match o {
        Some(b) => seq![(k, JsonView::Bool(b))],
        None => Seq::empty(),
    }
}

/// An entry for a list, absent when the list is empty.
pub open spec fn nonempty_entry(k: Seq<char>, a: Seq<JsonView>) -> Seq<(Seq<char>, JsonView)> {
    if a.len() > 0 {
        seq![(k, JsonView::Array(a))]
    } else {
        Seq::empty()
    }
}

/// The encoding of a selector kind.
pub open spec fn selector_json(t: SelectorType) -> JsonView {
    match t {
        SelectorType::AstQuery => jstr("ast_query"@),
        SelectorType::Grep => jstr("grep"@),
        SelectorType::LineRange => jstr("line_range"@),
    }
}

/// The encoding of the targets of a file; kinds without targets are left
/// out.
pub open spec fn targets_json(a: AvailableTargets) -> JsonView {
    JsonView::Object(
        nonempty_entry("classes"@, jsons(a.classes@)) + nonempty_entry("functions"@, jsons(a.functions@))
            + nonempty_entry("headers"@, jsons(a.headers@)) + nonempty_entry("imports"@, jsons(a.imports@))
            + nonempty_entry("list_items"@, jsons(a.list_items@)) + nonempty_entry(
            "structs"@,
            jsons(a.structs@),
        ),
    )
}

impl ToJson for String {
    open spec fn json_spec(&self) -> JsonView {
        jstr(self@)
    }

    fn to_json(&self) -> (r: JsonValue) {
        JsonValue::Str(self.clone())
    }
}

fn num(n: usize) -> (r: JsonValue)
    ensures
        json_view(r) == jnum(n as nat),
{
    JsonValue::Number(string_of(&decimal_chars(n)))
}

fn text(s: &String) -> (r: JsonValue)
    ensures
        json_view(r) == jstr(s@),
{
    JsonValue::Str(s.clone())
}

fn object(es: Vec<JsonEntry>) -> (r: JsonValue)
    ensures
        json_view(r) == JsonView::Object(entries_view(es@)),
{
    JsonValue::Object(es)
}

fn push_opt_str(es: &mut Vec<JsonEntry>, k: &str, o: &Option<String>)
    ensures
        entries_view(final(es)@) == entries_view(old(es)@) + opt_str_entry(k@, *o),
{
    let ghost before = entries_view(es@);
    match o {
        Some(s) => {
            push_entry(es, k, text(s));
            assert(entries_view(es@) =~= before + opt_str_entry(k@, *o));
        },
        None => {
            assert(entries_view(es@) =~= before + opt_str_entry(k@, *o));
        },
    }
}

fn push_opt_bool(es: &mut Vec<JsonEntry>, k: &str, o: Option<bool>)
    ensures
        entries_view(final(es)@) == entries_view(old(es)@) + opt_bool_entry(k@, o),
{
    let ghost before = entries_view(es@);
    match o {
        Some(b) => {
            push_entry(es, k, JsonValue::Bool(b));
            assert(entries_view(es@) =~= before + opt_bool_entry(k@, o));
        },
        None => {
            assert(entries_view(es@) =~= before + opt_bool_entry(k@, o));
        },
    }
}

fn push_nonempty(es: &mut Vec<JsonEntry>, k: &str, a: Vec<JsonValue>)
    ensures
        entries_view(final(es)@) == entries_view(old(es)@) + nonempty_entry(k@, array_view(a@)),
{
    let ghost before = entries_view(es@);
    let ghost av = array_view(a@);
    proof {
        lemma_array_view_len(a@);
    }
    if a.len() > 0 {
        push_entry(es, k, JsonValue::Array(a));
        assert(entries_view(es@) =~= before + nonempty_entry(k@, av));
    } else {
        assert(entries_view(es@) =~= before + nonempty_entry(k@, av));
    }
}

proof fn lemma_array_view_len(a: Seq<JsonValue>)
    ensures
        array_view(a).len() == a.len(),
    decreases a.len(),
{
    if a.len() > 0 {
        lemma_array_view_len(a.drop_last());
    }
}

/// The encodings of the values, as an array.
pub fn json_array<T: ToJson>(v: &Vec<T>) -> (r: Vec<JsonValue>)
    ensures
        array_view(r@) == jsons(v@),
{
    let mut out: Vec<JsonValue> = Vec::new();
    let mut i: usize = 0;
    while i < v.len()
        invariant
            i <= v@.len(),
            array_view(out@) == jsons(v@.take(i as int)),
        decreases v.len() - i,
    {
        let x = v[i].to_json();
        let ghost before = out@;
        out.push(x);
        proof {
            assert(out@.drop_last() =~= before);
            assert(jsons(v@.take(i + 1)) =~= jsons(v@.take(i as int)).push(v@[i as int].json_spec()));
        }
        i += 1;
    }
    assert(v@.take(v@.len() as int) =~= v@);
    out
}

impl ToJson for FileInfo {
    open spec fn json_spec(&self) -> JsonView {
        JsonView::Object(
            seq![
                ("file_type"@, jstr(self.file_type@)),
                ("path"@, jstr(self.path@)),
                ("total_bytes"@, jnum(self.total_bytes as nat)),
                ("total_lines"@, jnum(self.total_lines as nat)),
            ],
        )
    }

    fn to_json(&self) -> (r: JsonValue) {
        let mut es: Vec<JsonEntry> = Vec::new();
        push_entry(&mut es, "file_type", text(&self.file_type));
        push_entry(&mut es, "path", text(&self.path));
        push_entry(&mut es, "total_bytes", num(self.total_bytes));
        push_entry(&mut es, "total_lines", num(self.total_lines));
        assert(entries_view(es@) =~= object_entries(self.json_spec()));
        object(es)
    }
}

impl ToJson for TargetInfo {
    open spec fn json_spec(&self) -> JsonView {
        JsonView::Object(
            seq![("line_start"@, jnum(self.line_start as nat)), ("name"@, jstr(self.name@))]
                + opt_str_entry("parent"@, self.parent) + opt_str_entry("visibility"@, self.visibility),
        )
    }

    fn to_json(&self) -> (r: JsonValue) {
        let mut es: Vec<JsonEntry> = Vec::new();
        push_entry(&mut es, "line_start", num(self.line_start));
        push_entry(&mut es, "name", text(&self.name));
        push_opt_str(&mut es, "parent", &self.parent);
        push_opt_str(&mut es, "visibility", &self.visibility);
        assert(entries_view(es@) =~= object_entries(self.json_spec()));
        object(es)
    }
}

impl ToJson for ListItemInfo {
    open spec fn json_spec(&self) -> JsonView {
        JsonView::Object(
            opt_bool_entry("checked"@, self.checked) + seq![
                ("content"@, jstr(self.content@)),
                ("line"@, jnum(self.line as nat)),
            ] + opt_bool_entry("task"@, self.task),
        )
    }

    fn to_json(&self) -> (r: JsonValue) {
        let mut es: Vec<JsonEntry> = Vec::new();
        push_opt_bool(&mut es, "checked", self.checked);
        push_entry(&mut es, "content", text(&self.content));
        push_entry(&mut es, "line", num(self.line));
        push_opt_bool(&mut es, "task", self.task);
        assert(entries_view(es@) =~= object_entries(self.json_spec()));
        object(es)
    }
}

impl ToJson for SimilarName {
    open spec fn json_spec(&self) -> JsonView {
        JsonView::Object(
            seq![
                ("category"@, jstr(self.category@)),
                ("distance"@, jnum(self.distance as nat)),
                ("name"@, jstr(self.name@)),
            ],
        )
    }

    fn to_json(&self) -> (r: JsonValue) {
        let mut es: Vec<JsonEntry> = Vec::new();
        push_entry(&mut es, "category", text(&self.category));
        push_entry(&mut es, "distance", num(self.distance));
        push_entry(&mut es, "name", text(&self.name));
        assert(entries_view(es@) =~= object_entries(self.json_spec()));
        object(es)
    }
}

impl ToJson for PartialMatch {
    open spec fn json_spec(&self) -> JsonView {
        JsonView::Object(
            seq![
                ("content"@, jstr(self.content@)),
                ("line"@, jnum(self.line as nat)),
                ("match_type"@, jstr(self.match_type@)),
            ],
        )
    }

    fn to_json(&self) -> (r: JsonValue) {
        let mut es: Vec<JsonEntry> = Vec::new();
        push_entry(&mut es, "content", text(&self.content));
        push_entry(&mut es, "line", num(self.line));
        push_entry(&mut es, "match_type", text(&self.match_type));
        assert(entries_view(es@) =~= object_entries(self.json_spec()));
        object(es)
    }
}

impl ToJson for MatchInfo {
    open spec fn json_spec(&self) -> JsonView {
        JsonView::Object(
            opt_str_entry("content_preview"@, self.content_preview) + seq![
                ("line_end"@, jnum(self.line_end as nat)),
                ("line_start"@, jnum(self.line_start as nat)),
                ("name"@, jstr(self.name@)),
            ] + opt_str_entry("parent"@, self.parent) + opt_str_entry("signature"@, self.signature),
        )
    }

    fn to_json(&self) -> (r: JsonValue) {
        let mut es: Vec<JsonEntry> = Vec::new();
        push_opt_str(&mut es, "content_preview", &self.content_preview);
        push_entry(&mut es, "line_end", num(self.line_end));
        push_entry(&mut es, "line_start", num(self.line_start));
        push_entry(&mut es, "name", text(&self.name));
        push_opt_str(&mut es, "parent", &self.parent);
        push_opt_str(&mut es, "signature", &self.signature);
        assert(entries_view(es@) =~= object_entries(self.json_spec()));
        object(es)
    }
}

impl ToJson for AvailableTargets {
    open spec fn json_spec(&self) -> JsonView {
        targets_json(*self)
    }

    fn to_json(&self) -> (r: JsonValue) {
        let mut es: Vec<JsonEntry> = Vec::new();
        push_nonempty(&mut es, "classes", json_array(&self.classes));
        push_nonempty(&mut es, "functions", json_array(&self.functions));
        push_nonempty(&mut es, "headers", json_array(&self.headers));
        push_nonempty(&mut es, "imports", json_array(&self.imports));
        push_nonempty(&mut es, "list_items", json_array(&self.list_items));
        push_nonempty(&mut es, "structs", json_array(&self.structs));
        assert(entries_view(es@) =~= object_entries(self.json_spec()));
        object(es)
    }
}

impl ToJson for SelectorType {
    open spec fn json_spec(&self) -> JsonView {
        selector_json(*self)
    }

    fn to_json(&self) -> (r: JsonValue) {
        match self {
            SelectorType::AstQuery => JsonValue::Str("ast_query".to_owned()),
            SelectorType::Grep => JsonValue::Str("grep".to_owned()),
            SelectorType::LineRange => JsonValue::Str("line_range".to_owned()),
        }
    }
}

/// The context of a query that matched nothing.
pub open spec fn no_match_content(c: NoMatchContext) -> JsonView {
    JsonView::Object(
        seq![
            (
                "available_targets"@,
                match c.available_targets {
                    Some(a) => targets_json(a),
                    None => JsonView::Null,
                },
            ),
            ("file"@, c.file_info.json_spec()),
            ("partial_matches"@, JsonView::Array(jsons(c.partial_matches@))),
            ("query"@, jstr(c.query@)),
            ("selector_type"@, selector_json(c.selector_type)),
            ("similar_names"@, JsonView::Array(jsons(c.similar_names@))),
        ],
    )
}

/// How one of several matches is summarised.
pub open spec fn match_line(m: MatchInfo) -> Seq<char> {
    match m.parent {
        Some(p) => "'"@ + m.name@ + "' in "@ + p@ + " (line "@ + decimal(m.line_start as nat) + ")"@,
        None => "'"@ + m.name@ + "' at line "@ + decimal(m.line_start as nat),
    }
}

/// How one of several matching lines is summarised.
pub open spec fn grep_match_line(m: MatchInfo) -> Seq<char> {
    "Line "@ + decimal(m.line_start as nat) + ": "@ + m.name@
}

/// The summaries of the first five matches.
pub open spec fn match_summary(ms: Seq<MatchInfo>) -> Seq<Seq<char>> {
    first_n(ms, 5).map_values(|m: MatchInfo| match_line(m))
}

/// The summaries of the first five matching lines.
pub open spec fn grep_match_summary(ms: Seq<MatchInfo>) -> Seq<Seq<char>> {
    first_n(ms, 5).map_values(|m: MatchInfo| grep_match_line(m))
}

/// The encodings of texts.
pub open spec fn jtexts(ls: Seq<Seq<char>>) -> Seq<JsonView> {
    ls.map_values(|l: Seq<char>| jstr(l))
}

/// The context of a query that matched several targets.
pub open spec fn ambiguous_content(c: AmbiguousContext) -> JsonView {
    JsonView::Object(
        seq![
            ("disambiguation_hints"@, JsonView::Array(jsons(c.disambiguation_hints@))),
            ("file"@, c.file_info.json_spec()),
            ("match_count"@, jnum(c.matches@.len())),
            ("match_summary"@, JsonView::Array(jtexts(match_summary(c.matches@)))),
            ("matches"@, JsonView::Array(jsons(c.matches@))),
            ("query"@, jstr(c.query@)),
            ("selector_type"@, selector_json(c.selector_type)),
        ],
    )
}

/// A similar line as shown: cut to 57 bytes and marked when longer than
/// 60 bytes.
pub open spec fn short_line(l: Seq<char>) -> Seq<char> {
    if utf8_len(l) > 60 {
        bytes_prefix(l, 57) + "..."@
    } else {
        l
    }
}

/// The first three similar lines, as shown.
pub open spec fn short_lines(ls: Seq<Seq<char>>) -> Seq<Seq<char>> {
    first_n(ls, 3).map_values(|l: Seq<char>| short_line(l))
}

/// Each of the first three lines that is longer than 60 bytes can be cut
/// after 57 bytes without splitting a character.
pub open spec fn lines_cuttable(ls: Seq<Seq<char>>) -> bool {
    forall|i: int|
        0 <= i < first_n(ls, 3).len() && utf8_len(#[trigger] ls[i]) > 60 ==> byte_boundary(ls[i], 57)
}

/// The action suggested when a grep pattern matched no line.
pub open spec fn grep_no_match_action(c: GrepNoMatchContext) -> Seq<char> {
    if c.partial_matches@.len() > 0 {
        "Found "@ + decimal(c.partial_matches@.len()) + " case-insensitive matches. Try a more specific pattern."@
    } else if c.similar_lines@.len() > 0 {
        "Similar lines found: "@ + join_sep(short_lines(crate::text::string_views(c.similar_lines@)), ", "@)
    } else {
        "Check your pattern syntax or try a broader search"@
    }
}

/// The context of a grep pattern that matched no line.
pub open spec fn grep_no_match_content(c: GrepNoMatchContext) -> JsonView {
    JsonView::Object(
        seq![
            ("file"@, c.file_info.json_spec()),
            ("partial_matches"@, JsonView::Array(jsons(c.partial_matches@))),
            ("pattern"@, jstr(c.pattern@)),
            ("selector_type"@, jstr("grep"@)),
            ("similar_lines"@, JsonView::Array(jtexts(short_lines(crate::text::string_views(c.similar_lines@))))),
        ],
    )
}

/// The context of a grep pattern that matched several lines.
pub open spec fn grep_ambiguous_content(c: GrepAmbiguousContext) -> JsonView {
    JsonView::Object(
        seq![
            ("file"@, c.file_info.json_spec()),
            ("match_count"@, jnum(c.matches@.len())),
            ("match_summary"@, JsonView::Array(jtexts(grep_match_summary(c.matches@)))),
            ("matches"@, JsonView::Array(jsons(c.matches@))),
            ("pattern"@, jstr(c.pattern@)),
            ("selector_type"@, jstr("grep"@)),
        ],
    )
}

/// The advisory carries `content` and suggests `action`.
pub open spec fn suggests(r: AdvisoryMessage, content: JsonView, action: Seq<char>) -> bool {
    &&& r.source == AdvisorySource::Adt
    &&& r.level == AdvisoryLevel::Suggest
    &&& json_view(r.content) == content
    &&& r.action matches Some(a) && a@ == action
    &&& r.reference is None
}

fn text_array(v: &Vec<Vec<char>>) -> (r: JsonValue)
    ensures
        json_view(r) == JsonView::Array(jtexts(crate::text::views(v@))),
{
    let mut out: Vec<JsonValue> = Vec::new();
    let mut i: usize = 0;
    while i < v.len()
        invariant
            i <= v@.len(),
            array_view(out@) == jtexts(crate::text::views(v@.take(i as int))),
        decreases v.len() - i,
    {
        let ghost before = out@;
        let x = JsonValue::Str(string_of(&v[i]));
        assert(json_view(x) == jstr(v@[i as int]@));
        out.push(x);
        proof {
            assert(out@.drop_last() =~= before);
            assert(array_view(out@) == array_view(before).push(json_view(x)));
            assert(crate::text::views(v@.take(i + 1)) =~= crate::text::views(v@.take(i as int)).push(
                v@[i as int]@,
            ));
            assert(jtexts(crate::text::views(v@.take(i + 1))) =~= jtexts(
                crate::text::views(v@.take(i as int)),
            ).push(jstr(v@[i as int]@)));
        }
        i += 1;
    }
    assert(v@.take(v@.len() as int) =~= v@);
    JsonValue::Array(out)
}

fn join_chars(v: &Vec<Vec<char>>, sep: &str) -> (r: Vec<char>)
    ensures
        r@ == join_sep(crate::text::views(v@), sep@),
{
    let mut out: Vec<char> = Vec::new();
    let mut i: usize = 0;
    while i < v.len()
        invariant
            i <= v@.len(),
            out@ == join_sep(crate::text::views(v@.take(i as int)), sep@),
        decreases v.len() - i,
    {
        proof {
            assert(crate::text::views(v@.take(i + 1)).drop_last() =~= crate::text::views(v@.take(i as int)));
        }
        if i > 0 {
            append_str(&mut out, sep);
        }
        append_chars(&mut out, &v[i]);
        i += 1;
    }
    assert(v@.take(v@.len() as int) =~= v@);
    out
}

impl NoMatchContext {
    /// The advisory a query that matched nothing is answered with.
    pub fn to_advisory(&self) -> (r: AdvisoryMessage)
        ensures
            suggests(r, no_match_content(*self), no_match_action_spec(*self)),
    {
        let action = self.advisory_action();
        let mut es: Vec<JsonEntry> = Vec::new();
        let at = match &self.available_targets {
            Some(a) => a.to_json(),
            None => JsonValue::Null,
        };
        push_entry(&mut es, "available_targets", at);
        push_entry(&mut es, "file", self.file_info.to_json());
        push_entry(&mut es, "partial_matches", JsonValue::Array(json_array(&self.partial_matches)));
        push_entry(&mut es, "query", text(&self.query));
        push_entry(&mut es, "selector_type", self.selector_type.to_json());
        push_entry(&mut es, "similar_names", JsonValue::Array(json_array(&self.similar_names)));
        assert(entries_view(es@) =~= object_entries(no_match_content(*self)));
        AdvisoryMessage::adt_suggest(object(es), action)
    }
}

fn summary_lines(ms: &Vec<MatchInfo>, grep: bool) -> (r: Vec<Vec<char>>)
    ensures
        crate::text::views(r@) == if grep {
            grep_match_summary(ms@)
        } else {
            match_summary(ms@)
        },
{
    let n = if ms.len() < 5 { ms.len() } else { 5 };
    let ghost want = if grep {
        grep_match_summary(ms@)
    } else {
        match_summary(ms@)
    };
    assert(want.len() == n);
    let mut out: Vec<Vec<char>> = Vec::new();
    let mut i: usize = 0;
    while i < n
        invariant
            i <= n,
            n <= ms@.len(),
            want.len() == n,
            want == (if grep {
                grep_match_summary(ms@)
            } else {
                match_summary(ms@)
            }),
            crate::text::views(out@) == want.take(i as int),
            out@.len() == i,
        decreases n - i,
    {
        let m = &ms[i];
        let mut v: Vec<char>;
        if grep {
            v = chars_of("Line ");
            append_chars(&mut v, &decimal_chars(m.line_start));
            append_str(&mut v, ": ");
            append_str(&mut v, m.name.as_str());
        } else {
            v = chars_of("'");
            append_str(&mut v, m.name.as_str());
            match &m.parent {
                Some(p) => {
                    append_str(&mut v, "' in ");
                    append_str(&mut v, p.as_str());
                    append_str(&mut v, " (line ");
                    append_chars(&mut v, &decimal_chars(m.line_start));
                    append_str(&mut v, ")");
                },
                None => {
                    append_str(&mut v, "' at line ");
                    append_chars(&mut v, &decimal_chars(m.line_start));
                },
            }
        }
        assert(v@ == want[i as int]);
        let ghost before = out@;
        out.push(v);
        assert(crate::text::views(out@) =~= want.take(i + 1)) by {
            assert forall|k: int| 0 <= k <= i implies #[trigger] crate::text::views(out@)[k] == want[k] by {
                if k < i {
                    assert(out@[k] == before[k]);
                    assert(crate::text::views(before)[k] == want.take(i as int)[k]);
                }
            }
        }
        i += 1;
    }
    assert(want.take(n as int) =~= want);
    out
}

impl AmbiguousContext {
    /// The advisory a query that matched several targets is answered with.
    pub fn to_advisory(&self) -> (r: AdvisoryMessage)
        ensures
            suggests(r, ambiguous_content(*self), ambiguous_action_spec(*self)),
    {
        let action = self.advisory_action();
        let summary = summary_lines(&self.matches, false);
        let mut es: Vec<JsonEntry> = Vec::new();
        push_entry(&mut es, "disambiguation_hints", JsonValue::Array(json_array(&self.disambiguation_hints)));
        push_entry(&mut es, "file", self.file_info.to_json());
        push_entry(&mut es, "match_count", num(self.matches.len()));
        push_entry(&mut es, "match_summary", text_array(&summary));
        push_entry(&mut es, "matches", JsonValue::Array(json_array(&self.matches)));
        push_entry(&mut es, "query", text(&self.query));
        push_entry(&mut es, "selector_type", self.selector_type.to_json());
        assert(entries_view(es@) =~= object_entries(ambiguous_content(*self)));
        AdvisoryMessage::adt_suggest(object(es), action)
    }
}

impl GrepAmbiguousContext {
    /// The advisory a grep pattern that matched several lines is answered
    /// with.
    pub fn to_advisory(&self) -> (r: AdvisoryMessage)
        ensures
            suggests(
                r,
                grep_ambiguous_content(*self),
                "Matched "@ + decimal(self.matches@.len()) + " lines. Use line numbers or a more specific pattern."@,
            ),
    {
        let action = self.advisory_action();
        let summary = summary_lines(&self.matches, true);
        let mut es: Vec<JsonEntry> = Vec::new();
        push_entry(&mut es, "file", self.file_info.to_json());
        push_entry(&mut es, "match_count", num(self.matches.len()));
        push_entry(&mut es, "match_summary", text_array(&summary));
        push_entry(&mut es, "matches", JsonValue::Array(json_array(&self.matches)));
        push_entry(&mut es, "pattern", text(&self.pattern));
        push_entry(&mut es, "selector_type", JsonValue::Str("grep".to_owned()));
        assert(entries_view(es@) =~= object_entries(grep_ambiguous_content(*self)));
        AdvisoryMessage::adt_suggest(object(es), action)
    }
}

impl GrepNoMatchContext {
    /// The first three similar lines as shown: lines longer than 60 bytes
    /// are cut after 57 bytes and marked with `...`.
    pub fn shown_lines(&self) -> (r: Vec<Vec<char>>)
        requires
            lines_cuttable(crate::text::string_views(self.similar_lines@)),
        ensures
            crate::text::views(r@) == short_lines(crate::text::string_views(self.similar_lines@)),
    {
        let ghost ls = crate::text::string_views(self.similar_lines@);
        let n = if self.similar_lines.len() < 3 { self.similar_lines.len() } else { 3 };
        let ghost want = short_lines(ls);
        assert(want.len() == n);
        let mut out: Vec<Vec<char>> = Vec::new();
        let mut i: usize = 0;
        while i < n
            invariant
                i <= n,
                n <= self.similar_lines@.len(),
                ls == crate::text::string_views(self.similar_lines@),
                want == short_lines(ls),
                want.len() == n,
                lines_cuttable(ls),
                crate::text::views(out@) == want.take(i as int),
                out@.len() == i,
            decreases n - i,
        {
            let l = chars_of(self.similar_lines[i].as_str());
            assert(l@ == ls[i as int]);
            let v = if utf8_len_gt(&l, 60) {
                assert(byte_boundary(ls[i as int], 57));
                let mut p = prefix_of_bytes(&l, 57);
                append_str(&mut p, "...");
                p
            } else {
                l
            };
            assert(v@ == want[i as int]);
            let ghost before = out@;
            out.push(v);
            assert(crate::text::views(out@) =~= want.take(i + 1)) by {
                assert forall|k: int| 0 <= k <= i implies #[trigger] crate::text::views(out@)[k] == want[k] by {
                    if k < i {
                        assert(out@[k] == before[k]);
                        assert(crate::text::views(before)[k] == want.take(i as int)[k]);
                    }
                }
            }
            i += 1;
        }
        assert(want.take(n as int) =~= want);
        out
    }

    /// The action suggested when a grep pattern matched no line.
    pub fn advisory_action(&self) -> (r: String)
        requires
            lines_cuttable(crate::text::string_views(self.similar_lines@)),
        ensures
            r@ == grep_no_match_action(*self),
    {
        if self.partial_matches.len() > 0 {
            let mut v = chars_of("Found ");
            append_chars(&mut v, &decimal_chars(self.partial_matches.len()));
            append_str(&mut v, " case-insensitive matches. Try a more specific pattern.");
            string_of(&v)
        } else if self.similar_lines.len() > 0 {
            let shown = self.shown_lines();
            let mut v = chars_of("Similar lines found: ");
            append_chars(&mut v, &join_chars(&shown, ", "));
            string_of(&v)
        } else {
            "Check your pattern syntax or try a broader search".to_owned()
        }
    }

    /// The advisory a grep pattern that matched no line is answered with.
    pub fn to_advisory(&self) -> (r: AdvisoryMessage)
        requires
            lines_cuttable(crate::text::string_views(self.similar_lines@)),
        ensures
            suggests(r, grep_no_match_content(*self), grep_no_match_action(*self)),
    {
        let action = self.advisory_action();
        let shown = self.shown_lines();
        let mut es: Vec<JsonEntry> = Vec::new();
        push_entry(&mut es, "file", self.file_info.to_json());
        push_entry(&mut es, "partial_matches", JsonValue::Array(json_array(&self.partial_matches)));
        push_entry(&mut es, "pattern", text(&self.pattern));
        push_entry(&mut es, "selector_type", JsonValue::Str("grep".to_owned()));
        push_entry(&mut es, "similar_lines", text_array(&shown));
        assert(entries_view(es@) =~= object_entries(grep_no_match_content(*self)));
        AdvisoryMessage::adt_suggest(object(es), action)
    }
}

} // verus!

//! Structural code search: turning a friendly request into a query, and
//! paging the results under the content cap.
use vstd::prelude::*;
use crate::advisory::AdvisoryMessage;
use crate::error::IvaldiError;
use crate::json_edit::{json_view, JsonValue, JsonView};
use crate::kind::SourceKind;
use crate::observe::text_advisory;
use crate::response::IvaldiResponse;
use crate::text::{
    append_chars, append_str, chars_eq, chars_of, contains, contains_chars, decimal, decimal_chars,
    lowercase, replace_all, replace_str, string_of, to_lowercase,
};

verus! {

/// Arguments of the code search tool.
#[derive(Debug, Clone)]
pub struct SearchCodeArgs {
    /// File or directory to search.
    pub path: String,
    /// A full structural query; takes precedence over `category`.
    pub query: Option<String>,
    /// A kind of element to list (functions, headers, ...).
    pub category: Option<String>,
    /// Regular expression the element's name (or text) must match.
    pub name_pattern: Option<String>,
    /// Language of a single searched file, overriding detection.
    pub language: Option<String>,
    /// Maximum directory depth.
    pub depth: usize,
    /// Glob that searched files must match.
    pub pattern: Option<String>,
    pub respect_agentignore: bool,
    /// Maximum results (0: no limit).
    pub limit: usize,
    /// Results to skip.
    pub offset: usize,
}

impl SearchCodeArgs {
    /// The default search depth.
    pub fn default_depth() -> (r: usize)
        ensures
            r == 5,
    {
        5
    }

    /// Whether `.agentignore` is respected when nothing says otherwise.
    pub fn default_true() -> (r: bool)
        ensures
            r,
    {
        true
    }

    /// Whether a search honours `.gitignore`: only when the setting
    /// (`IVALDI_ENABLE_GITIGNORE`) is `true`; it is opt-in.
    pub fn gitignore_enabled(setting: Option<&str>) -> (r: bool)
        ensures
            r == (setting matches Some(v) && v@ == "true"@),
    {
        match setting {
            Some(v) => {
                let a = chars_of(v);
                let b = chars_of("true");
                chars_eq(&a, &b)
            },
            None => false,
        }
    }
}

/// The language a single searched file is parsed as when a language is
/// named: known names select a language, others leave detection to the
/// file's path.
pub open spec fn language_kind(lower: Seq<char>) -> Option<SourceKind> {
    if lower == "rust"@ || lower == "rs"@ {
        Some(SourceKind::Rust)
    } else if lower == "python"@ || lower == "py"@ {
        Some(SourceKind::Python)
    } else if lower == "go"@ {
        Some(SourceKind::Go)
    } else if lower == "c"@ {
        Some(SourceKind::C)
    } else if lower == "cpp"@ || lower == "c++"@ {
        Some(SourceKind::Cpp)
    } else {
        None
    }
}

fn str_eq(a: &Vec<char>, b: &str) -> (r: bool)
    ensures
        r == (a@ == b@),
{
    let bc = chars_of(b);
    crate::text::chars_eq(a, &bc)
}

/// The language a named language selects (compared ignoring case); `None`
/// when the name is not known.
pub fn language_override(language: &str) -> (r: Option<SourceKind>)
    ensures
        r == language_kind(lowercase(language@)),
{
    let l = to_lowercase(language);
    let lc = chars_of(l.as_str());
    if str_eq(&lc, "rust") || str_eq(&lc, "rs") {
        Some(SourceKind::Rust)
    } else if str_eq(&lc, "python") || str_eq(&lc, "py") {
        Some(SourceKind::Python)
    } else if str_eq(&lc, "go") {
        Some(SourceKind::Go)
    } else if str_eq(&lc, "c") {
        Some(SourceKind::C)
    } else if str_eq(&lc, "cpp") || str_eq(&lc, "c++") {
        Some(SourceKind::Cpp)
    } else {
        None
    }
}

/// The element list a category selects (tested in this order, by
/// substring, on the lowercased category).
pub open spec fn category_base(c: Seq<char>) -> Option<Seq<char>> {
    if contains(c, "function"@) {
        Some(".functions[]"@)
    } else if contains(c, "class"@) {
        Some(".classes[]"@)
    } else if contains(c, "struct"@) {
        Some(".structs[]"@)
    } else if contains(c, "import"@) {
        Some(".imports[]"@)
    } else if contains(c, "comment"@) {
        Some(".comments[]"@)
    } else if contains(c, "header"@) {
        Some(".headers[]"@)
    } else if contains(c, "list_item"@) {
        Some(".list_items[]"@)
    } else if contains(c, "table"@) {
        Some(".tables[]"@)
    } else if contains(c, "code_block"@) {
        Some(".code_blocks[]"@)
    } else if contains(c, "paragraph"@) {
        Some(".paragraphs[]"@)
    } else if contains(c, "link"@) {
        Some(".links[]"@)
    } else if contains(c, "image"@) {
        Some(".images[]"@)
    } else {
        None
    }
}

/// Categories whose elements are filtered by their text rather than a name.
pub open spec fn filters_on_content(c: Seq<char>) -> bool {
    contains(c, "header"@) || contains(c, "list_item"@) || contains(c, "table"@)
}

/// The filter a name pattern adds, with its double quotes escaped.
pub open spec fn name_filter(field: Seq<char>, pattern: Seq<char>) -> Seq<char> {
    " | select(."@ + field + "? | test(\""@ + replace_all(pattern, "\""@, "\\\""@) + "\"))"@
}

/// The message for an unknown category.
pub open spec fn unknown_category_message(c: Seq<char>) -> Seq<char> {
    "Unknown category: "@ + c
        + ". Try: functions, classes, structs, imports, comments, headers, list_items, tables, code_blocks, paragraphs, links, images."@
}

/// The query a search runs over the array of parsed files, or the message
/// of the invalid-argument error the request gets.
pub open spec fn search_query_spec(
    query: Option<Seq<char>>,
    category: Option<Seq<char>>,
    name_pattern: Option<Seq<char>>,
) -> Result<Seq<char>, Seq<char>> {
    match query {
        Some(q) => Ok(
            if contains(q, ".[]"@) {
                q
            } else {
                ".[] | "@ + q
            },
        ),
        None => match category {
            Some(cat) => {
                let c = lowercase(cat);
                match category_base(c) {
                    None => Err(unknown_category_message(c)),
                    Some(base) => Ok(
                        ".[] | "@ + base + match name_pattern {
                            Some(p) => name_filter(
                                if filters_on_content(c) {
                                    "content"@
                                } else {
                                    "name"@
                                },
                                p,
                            ),
                            None => Seq::empty(),
                        },
                    ),
                }
            },
            None => Err("Must provide either 'query' (jq) OR 'category' (friendly)."@),
        },
    }
}

/// Abstract value of an optional string.
pub open spec fn opt_chars(o: Option<String>) -> Option<Seq<char>> {
    match o {
        Some(s) => Some(s@),
        None => None,
    }
}

fn has(c: &Vec<char>, p: &str) -> (r: bool)
    ensures
        r == contains(c@, p@),
{
    let pc = chars_of(p);
    contains_chars(c, &pc)
}

fn base_for(c: &Vec<char>) -> (r: Option<&'static str>)
    ensures
        match category_base(c@) {
            Some(b) => r matches Some(x) && x@ == b,
            None => r is None,
        },
{
    if has(c, "function") {
        Some(".functions[]")
    } else if has(c, "class") {
        Some(".classes[]")
    } else if has(c, "struct") {
        Some(".structs[]")
    } else if has(c, "import") {
        Some(".imports[]")
    } else if has(c, "comment") {
        Some(".comments[]")
    } else if has(c, "header") {
        Some(".headers[]")
    } else if has(c, "list_item") {
        Some(".list_items[]")
    } else if has(c, "table") {
        Some(".tables[]")
    } else if has(c, "code_block") {
        Some(".code_blocks[]")
    } else if has(c, "paragraph") {
        Some(".paragraphs[]")
    } else if has(c, "link") {
        Some(".links[]")
    } else if has(c, "image") {
        Some(".images[]")
    } else {
        None
    }
}

/// Builds the query a search runs: a given query (made to iterate over the
/// parsed files unless it already does), or the element list of a category
/// with an optional name filter.
pub fn build_search_query(args: &SearchCodeArgs) -> (r: Result<String, IvaldiError>)
    ensures
        match search_query_spec(opt_chars(args.query), opt_chars(args.category), opt_chars(args.name_pattern)) {
            Ok(q) => r matches Ok(x) && x@ == q,
            Err(m) => r matches Err(IvaldiError::InvalidArgument(x)) && x@ == m,
        },
{
    match &args.query {
        Some(q) => {
            let qc = chars_of(q.as_str());
            if has(&qc, ".[]") {
                Ok(q.clone())
            } else {
                let mut v = chars_of(".[] | ");
                append_chars(&mut v, &qc);
                Ok(string_of(&v))
            }
        },
        None => match &args.category {
            Some(cat) => {
                let lower = to_lowercase(cat.as_str());
                let c = chars_of(lower.as_str());
                match base_for(&c) {
                    None => {
                        let mut v = chars_of("Unknown category: ");
                        append_chars(&mut v, &c);
                        append_str(
                            &mut v,
                            ". Try: functions, classes, structs, imports, comments, headers, list_items, tables, code_blocks, paragraphs, links, images.",
                        );
                        Err(IvaldiError::InvalidArgument(string_of(&v)))
                    },
                    Some(base) => {
                        let mut v = chars_of(".[] | ");
                        append_str(&mut v, base);
                        match &args.name_pattern {
                            Some(p) => {
                                let field = if has(&c, "header") || has(&c, "list_item") || has(
                                    &c,
                                    "table",
                                ) {
                                    "content"
                                } else {
                                    "name"
                                };
                                let escaped = replace_str(p.as_str(), "\"", "\\\"");
                                let ghost before = v@;
                                append_str(&mut v, " | select(.");
                                append_str(&mut v, field);
                                append_str(&mut v, "? | test(\"");
                                append_str(&mut v, escaped.as_str());
                                append_str(&mut v, "\"))");
                                assert(v@ =~= before + name_filter(field@, p@));
                            },
                            None => {
                                assert(v@ =~= v@ + Seq::<char>::empty());
                            },
                        }
                        Ok(string_of(&v))
                    },
                }
            },
            None => Err(
                IvaldiError::InvalidArgument(
                    "Must provide either 'query' (jq) OR 'category' (friendly).".to_owned(),
                ),
            ),
        },
    }
}

// ---------------------------------------------------------------------------
// Paging results
// ---------------------------------------------------------------------------

/// How results are paged: the first result returned, how many, the limit
/// in force, and whether results were cut at that limit.
pub open spec fn page_spec(n: nat, offset: nat, limit: nat, max_content: Option<nat>) -> (
    nat,
    nat,
    nat,
    bool,
) {
    let start = if offset < n {
        offset
    } else {
        n
    };
    let remaining = (n - start) as nat;
    let effective = match max_content {
        Some(mc) => {
            let wanted = if limit > 0 {
                limit
            } else {
                mc
            };
            if wanted < mc {
                wanted
            } else {
                mc
            }
        },
        None => if limit > 0 {
            limit
        } else {
            remaining
        },
    };
    let limited = effective > 0 && remaining > effective;
    (start, if limited {
        effective
    } else {
        remaining
    }, effective, limited)
}

/// Paging through results: with a positive limit that no content cap
/// lowers, the page at `offset + limit` starts where the page at `offset`
/// ends, and a page never runs past the results, so stepping the offset by
/// the limit visits every result once, in order.
pub proof fn law_pages_are_adjacent(n: nat, offset: nat, limit: nat, max_content: Option<nat>)
    requires
        limit > 0,
        max_content matches Some(mc) ==> limit <= mc,
    ensures
        page_spec(n, offset, limit, max_content).0 + page_spec(n, offset, limit, max_content).1 <= n,
        offset < n ==> page_spec(n, offset + limit, limit, max_content).0 == page_spec(
            n,
            offset,
            limit,
            max_content,
        ).0 + page_spec(n, offset, limit, max_content).1,
        page_spec(n, offset, limit, max_content).1 <= limit,
{
}

/// Abstract values of JSON values.
pub open spec fn value_views(v: Seq<JsonValue>) -> Seq<JsonView> {
    v.map_values(|x: JsonValue| json_view(x))
}

/// The advisories a search's results carry, as levels and texts: the cap
/// warning, the truncation warning, and the summary.
pub open spec fn search_notes(
    limit: nat,
    max_content: Option<nat>,
    limited: bool,
    effective: nat,
    processed: nat,
    returned: nat,
) -> Seq<(crate::advisory::AdvisoryLevel, Seq<char>)> {
    let cap: Seq<(crate::advisory::AdvisoryLevel, Seq<char>)> = match max_content {
        Some(mc) => if limit > 0 && limit > mc {
            seq![
                (
                    crate::advisory::AdvisoryLevel::Warn,
                    "Requested limit "@ + decimal(limit) + " exceeds IVALDI_MAX_CONTENT="@
                        + decimal(mc) + ". Capped."@,
                ),
            ]
        } else {
            Seq::empty()
        },
        None => Seq::empty(),
    };
    let cut: Seq<(crate::advisory::AdvisoryLevel, Seq<char>)> = if limited {
        seq![
            (
                crate::advisory::AdvisoryLevel::Warn,
                "Content truncated to "@ + decimal(effective)
                    + " results (IVALDI_MAX_CONTENT cap or limit)"@,
            ),
        ]
    } else {
        Seq::empty()
    };
    let summary = if returned > 0 {
        "Scanned "@ + decimal(processed) + " files. Returned "@ + decimal(returned) + " results."@
    } else {
        "Scanned "@ + decimal(processed) + " files. Query returned 0 matches."@
    };
    cap + cut + seq![(crate::advisory::AdvisoryLevel::Info, summary)]
}

/// The advisories of a response match the expected levels and texts.
pub open spec fn notes_match(
    adv: Seq<AdvisoryMessage>,
    notes: Seq<(crate::advisory::AdvisoryLevel, Seq<char>)>,
) -> bool {
    &&& adv.len() == notes.len()
    &&& forall|i: int| 0 <= i < adv.len() ==> text_advisory(#[trigger] adv[i], notes[i].0, notes[i].1)
}

fn push_note(adv: &mut Vec<AdvisoryMessage>, warn: bool, msg: &Vec<char>)
    ensures
        final(adv)@.len() == old(adv)@.len() + 1,
        forall|i: int| 0 <= i < old(adv)@.len() ==> final(adv)@[i] == old(adv)@[i],
        text_advisory(
            final(adv)@[old(adv)@.len() as int],
            if warn {
                crate::advisory::AdvisoryLevel::Warn
            } else {
                crate::advisory::AdvisoryLevel::Info
            },
            msg@,
        ),
{
    let s = string_of(msg);
    let c = JsonValue::text(s.as_str());
    if warn {
        adv.push(AdvisoryMessage::tool_warn(c));
    } else {
        adv.push(AdvisoryMessage::tool_info(c));
    }
}

/// The response of a search: the results after skipping `offset` and
/// keeping at most the effective limit (the smaller of the requested limit
/// and the content cap, when one is set), with the advisories that say so.
pub fn search_response(
    results: Vec<JsonValue>,
    offset: usize,
    limit: usize,
    max_content: Option<usize>,
    processed: usize,
) -> (r: IvaldiResponse<Vec<JsonValue>>)
    ensures
        ({
            let mc = match max_content {
                Some(m) => Some(m as nat),
                None => None,
            };
            let p = page_spec(results@.len(), offset as nat, limit as nat, mc);
            &&& !r.is_error && r.error is None && r.ui_diffs@.len() == 0
            &&& r.content matches Some(v) && value_views(v@) == value_views(results@).subrange(
                p.0 as int,
                (p.0 + p.1) as int,
            )
            &&& notes_match(r.advisory@, search_notes(limit as nat, mc, p.3, p.2, processed as nat, p.1))
        }),
{
    let n = results.len();
    let start = if offset < n { offset } else { n };
    let remaining = n - start;
    let effective = match max_content {
        Some(mc) => {
            let wanted = if limit > 0 { limit } else { mc };
            if wanted < mc { wanted } else { mc }
        },
        None => if limit > 0 { limit } else { remaining },
    };
    let limited = effective > 0 && remaining > effective;
    let count = if limited { effective } else { remaining };
    let ghost rv = value_views(results@);
    let mut kept: Vec<JsonValue> = Vec::new();
    let mut rest = results;
    let mut i: usize = 0;
    let ghost all = rest@;
    while i < n
        invariant
            n == all.len(),
            i <= n,
            start + count <= n,
            rest@ == all.subrange(i as int, n as int),
            rv == value_views(all),
            value_views(kept@) == if i <= start {
                Seq::<JsonView>::empty()
            } else if i <= start + count {
                rv.subrange(start as int, i as int)
            } else {
                rv.subrange(start as int, start + count)
            },
        decreases n - i,
    {
        let x = rest.remove(0);
        if i >= start && i < start + count {
            let ghost prev = value_views(kept@);
            kept.push(x);
            assert(value_views(kept@) =~= prev.push(json_view(x)));
            assert(rv.subrange(start as int, i + 1) =~= rv.subrange(start as int, i as int).push(
                rv[i as int],
            ));
        }
        i += 1;
        proof {
            assert(rest@ =~= all.subrange(i as int, n as int));
            if i <= start {
                assert(value_views(kept@) =~= Seq::<JsonView>::empty());
            }
            assert(rv.subrange(start as int, start as int) =~= Seq::<JsonView>::empty());
        }
    }
    let mut adv: Vec<AdvisoryMessage> = Vec::new();
    let ghost mcn = match max_content {
        Some(m) => Some(m as nat),
        None => None,
    };
    let ghost notes = search_notes(limit as nat, mcn, limited, effective as nat, processed as nat, count as nat);
    match max_content {
        Some(mc) => {
            if limit > 0 && limit > mc {
                let mut v = chars_of("Requested limit ");
                append_chars(&mut v, &decimal_chars(limit));
                append_str(&mut v, " exceeds IVALDI_MAX_CONTENT=");
                append_chars(&mut v, &decimal_chars(mc));
                append_str(&mut v, ". Capped.");
                push_note(&mut adv, true, &v);
            }
        },
        None => {},
    }
    if limited {
        let mut v = chars_of("Content truncated to ");
        append_chars(&mut v, &decimal_chars(effective));
        append_str(&mut v, " results (IVALDI_MAX_CONTENT cap or limit)");
        push_note(&mut adv, true, &v);
    }
    let mut v = chars_of("Scanned ");
    append_chars(&mut v, &decimal_chars(processed));
    if count > 0 {
        append_str(&mut v, " files. Returned ");
        append_chars(&mut v, &decimal_chars(count));
        append_str(&mut v, " results.");
    } else {
        append_str(&mut v, " files. Query returned 0 matches.");
    }
    push_note(&mut adv, false, &v);
    proof {
        assert(notes_match(adv@, notes));
    }
    IvaldiResponse::success_with_advisory(kept, adv)
}

} // verus!

//! Appending to a named section of a document: finding the section's lines
//! and indenting the new content to match it.
use vstd::prelude::*;
use crate::doc::{items_at, items_of, str_at, str_of, field_in, u64_at, u64_of};
use crate::error::IvaldiError;
use crate::json_edit::{as_u64, field, get_field, json_view, value_as_u64, JsonValue, JsonView};
use crate::kind::{kind_name, SourceKind};
use crate::text::{
    append_chars, append_str, blank, chars_eq, chars_of, contains, contains_chars, is_blank,
    join_lines, join_with_newlines, leading_ws, leading_ws_bytes, lemma_lines_utf8_len, lines_of,
    slice_chars, split_lines, string_of, trim, trim_chars, utf8_len, utf8_len_chars, views,
};

verus! {

/// Where in a section new content goes.
#[derive(Debug, Clone, Copy, PartialEq, Eq, Structural)]
pub enum InsertPosition {
    /// At the end of the section.
    End,
    /// At the start of the section, right after its header.
    Start,
    /// Right after the header line.
    AfterHeader,
}

/// What kind of section a range of lines is.
#[derive(Debug, Clone, Copy, PartialEq, Eq, Structural)]
pub enum SectionType {
    MarkdownHeader,
    CodeStruct,
    CodeFunction,
    CodeImpl,
    JsonObject,
    Unknown,
}

/// The 1-based lines a section spans.
#[derive(Debug, Clone, Copy, PartialEq, Eq, Structural)]
pub struct SectionBounds {
    pub start_line: usize,
    pub end_line: usize,
    pub section_type: SectionType,
}

/// Arguments of the append-to-section tool.
#[derive(Debug, Clone)]
pub struct AppendToSectionArgs {
    pub path: String,
    /// Header text, or the name of a struct or function.
    pub section: String,
    pub content: String,
    pub position: InsertPosition,
}

/// What an append did.
#[derive(Debug, Clone)]
pub struct AppendResult {
    pub path: String,
    pub section: String,
    pub inserted_at_line: usize,
    pub section_bounds: SectionBounds,
    /// Bytes of content appended.
    pub content_length: usize,
}

/// Where an append goes and what it inserts.
#[derive(Debug, Clone)]
pub struct AppendPlan {
    /// The line after which the replacement is inserted.
    pub insert_line: usize,
    /// The text inserted (a line break, then the indented content).
    pub replacement: String,
    pub bounds: SectionBounds,
}

/// Abstract value of section bounds.
pub open spec fn bounds_view(b: SectionBounds) -> (nat, nat, SectionType) {
    (b.start_line as nat, b.end_line as nat, b.section_type)
}

// ---------------------------------------------------------------------------
// Finding a Markdown section
// ---------------------------------------------------------------------------

/// Number of `#` characters at the start of `s`.
pub open spec fn leading_hashes(s: Seq<char>) -> nat
    decreases s.len(),
{
    if s.len() > 0 && s[0] == '#' {
        1 + leading_hashes(s.drop_first())
    } else {
        0
    }
}

/// A header's text without its leading `#`s and surrounding whitespace.
pub open spec fn heading_key(s: Seq<char>) -> Seq<char> {
    trim(s.skip(leading_hashes(s) as int))
}

/// Whether a header item's text has the given key.
pub open spec fn header_matches(h: JsonView, key: Seq<char>) -> bool {
    match str_of(h, "content"@) {
        Some(c) => heading_key(c) == key,
        None => false,
    }
}

/// Index of the first matching header at or after `i`, or the number of
/// headers when none matches.
pub open spec fn first_header(hs: Seq<JsonView>, key: Seq<char>, i: int) -> int
    decreases hs.len() - i,
{
    if i < 0 || i >= hs.len() {
        hs.len() as int
    } else if header_matches(hs[i], key) {
        i
    } else {
        first_header(hs, key, i + 1)
    }
}

/// The line count the document's metadata gives, or 0.
pub open spec fn line_count_of(doc: JsonView) -> nat {
    match as_u64(field_in(field(doc, "metadata"@), "line_count"@)) {
        Some(n) => (n as usize) as nat,
        None => 0,
    }
}

/// The first line of a header item, or 0.
pub open spec fn header_line(h: JsonView) -> nat {
    match u64_of(h, "line_start"@) {
        Some(n) => (n as usize) as nat,
        None => 0,
    }
}

/// The header a section name selects, when it exists and has a first line,
/// and its index.
pub open spec fn selected_header(doc: JsonView, name: Seq<char>) -> Option<int> {
    match items_of(doc, "headers"@) {
        Some(hs) => {
            let i = first_header(hs, heading_key(name), 0);
            if i < hs.len() && u64_of(hs[i], "line_start"@) is Some {
                Some(i)
            } else {
                None
            }
        },
        None => None,
    }
}

/// Computing the section's end does not subtract from a zero line: the
/// header after the selected one, if any, starts on a line of at least 1.
pub open spec fn markdown_bounds_defined(doc: JsonView, name: Seq<char>) -> bool {
    match selected_header(doc, name) {
        Some(i) => {
            let hs = items_of(doc, "headers"@)->Some_0;
            i + 1 < hs.len() ==> header_line(hs[i + 1]) >= 1
        },
        None => true,
    }
}

/// The bounds of the Markdown section a name selects: from its header's line
/// to the line before the next header, or to the document's last line.
pub open spec fn markdown_bounds(doc: JsonView, name: Seq<char>) -> Result<
    (nat, nat, SectionType),
    Seq<char>,
> {
    match items_of(doc, "headers"@) {
        None => Err("No headers found"@),
        Some(hs) => {
            let i = first_header(hs, heading_key(name), 0);
            if i >= hs.len() {
                Err("Header '"@ + name + "' not found"@)
            } else {
                match u64_of(hs[i], "line_start"@) {
                    None => Err("Header missing line_start"@),
                    Some(s) => Ok(
                        (
                            (s as usize) as nat,
                            if i + 1 < hs.len() {
                                (header_line(hs[i + 1]) - 1) as nat
                            } else {
                                line_count_of(doc)
                            },
                            SectionType::MarkdownHeader,
                        ),
                    ),
                }
            }
        },
    }
}

/// A Markdown section stops before the next header: when a header follows
/// the selected one, the section's last line is the line just before that
/// header, so no line of the next section lies inside the bounds and no
/// line of this one is left out.  The section starts at its own header.
pub proof fn law_section_stops_before_next_header(doc: JsonView, name: Seq<char>)
    requires
        markdown_bounds_defined(doc, name),
        markdown_bounds(doc, name) is Ok,
    ensures
        ({
            let hs = items_of(doc, "headers"@)->Some_0;
            let i = selected_header(doc, name)->Some_0;
            let (start, end, _) = markdown_bounds(doc, name)->Ok_0;
            &&& selected_header(doc, name) is Some
            &&& start == header_line(hs[i])
            &&& i + 1 < hs.len() ==> end < header_line(hs[i + 1]) && end + 1 == header_line(hs[i + 1])
        }),
{
}

proof fn lemma_leading_hashes(s: Seq<char>)
    ensures
        leading_hashes(s) <= s.len(),
    decreases s.len(),
{
    if s.len() > 0 && s[0] == '#' {
        lemma_leading_hashes(s.drop_first());
    }
}

proof fn lemma_leading_hashes_unique(s: Seq<char>, k: int)
    requires
        0 <= k <= s.len(),
        forall|j: int| 0 <= j < k ==> #[trigger] s[j] == '#',
        k < s.len() ==> s[k] != '#',
    ensures
        leading_hashes(s) == k,
    decreases k,
{
    if k > 0 {
        assert forall|j: int| 0 <= j < k - 1 implies #[trigger] s.drop_first()[j] == '#' by {
            assert(s.drop_first()[j] == s[j + 1]);
        }
        lemma_leading_hashes_unique(s.drop_first(), k - 1);
    }
}

/// A header text's key, as characters.
fn heading_key_chars(s: &Vec<char>) -> (r: Vec<char>)
    ensures
        r@ == heading_key(s@),
{
    let mut k: usize = 0;
    while k < s.len() && s[k] == '#'
        invariant
            k <= s@.len(),
            forall|j: int| 0 <= j < k ==> #[trigger] s@[j] == '#',
        decreases s.len() - k,
    {
        k += 1;
    }
    proof {
        lemma_leading_hashes_unique(s@, k as int);
    }
    let rest = slice_chars(s, k, s.len());
    assert(rest@ =~= s@.skip(k as int));
    trim_chars(&rest)
}

/// The line the metadata gives as the document's length, or 0.
fn line_count(doc: &JsonValue) -> (r: usize)
    ensures
        r as nat == line_count_of(json_view(*doc)),
{
    let m = get_field(doc, "metadata");
    let n = match m {
        Some(mv) => value_as_u64(get_field(mv, "line_count")),
        None => None,
    };
    match n {
        Some(n) => n as usize,
        None => 0,
    }
}

/// Finds the lines of the Markdown section whose header text (ignoring
/// leading `#`s and surrounding whitespace) equals `section_name`'s.
pub fn find_markdown_section_bounds(json: &JsonValue, section_name: &str) -> (r: Result<
    SectionBounds,
    String,
>)
    requires
        markdown_bounds_defined(json_view(*json), section_name@),
    ensures
        match markdown_bounds(json_view(*json), section_name@) {
            Ok(b) => r is Ok && bounds_view(r->Ok_0) == b,
            Err(m) => r is Err && r->Err_0@ == m,
        },
{
    let headers = match items_at(json, "headers") {
        Some(h) => h,
        None => {
            return Err("No headers found".to_owned());
        },
    };
    let ghost hs = items_of(json_view(*json), "headers"@)->Some_0;
    let name_chars = chars_of(section_name);
    let key = heading_key_chars(&name_chars);
    let mut i: usize = 0;
    while i < headers.len()
        invariant_except_break
            i <= headers@.len(),
            hs.len() == headers@.len(),
            forall|j: int| 0 <= j < hs.len() ==> #[trigger] hs[j] == json_view(headers@[j]),
            key@ == heading_key(section_name@),
            first_header(hs, key@, 0) == first_header(hs, key@, i as int),
        ensures
            i <= headers@.len(),
            first_header(hs, key@, 0) == i as int,
        decreases headers.len() - i,
    {
        let matched = match str_at(&headers[i], "content") {
            Some(c) => {
                let cc = chars_of(c.as_str());
                let ck = heading_key_chars(&cc);
                chars_eq(&ck, &key)
            },
            None => false,
        };
        if matched {
            break;
        }
        i += 1;
    }
    if i >= headers.len() {
        let mut msg = chars_of("Header '");
        append_str(&mut msg, section_name);
        append_str(&mut msg, "' not found");
        return Err(string_of(&msg));
    }
    let start_line = match u64_at(&headers[i], "line_start") {
        Some(s) => s as usize,
        None => {
            return Err("Header missing line_start".to_owned());
        },
    };
    let end_line = if i + 1 < headers.len() {
        let next = match u64_at(&headers[i + 1], "line_start") {
            Some(n) => n,
            None => 0,
        };
        next as usize - 1
    } else {
        line_count(json)
    };
    Ok(SectionBounds { start_line, end_line, section_type: SectionType::MarkdownHeader })
}

// ---------------------------------------------------------------------------
// Finding a code section
// ---------------------------------------------------------------------------

/// Whether an item's name is `name`.
pub open spec fn named(item: JsonView, name: Seq<char>) -> bool {
    str_of(item, "name"@) == Some(name)
}

/// Index of the first item at or after `i` with the given name, or the
/// number of items.
pub open spec fn first_named(xs: Seq<JsonView>, name: Seq<char>, i: int) -> int
    decreases xs.len() - i,
{
    if i < 0 || i >= xs.len() {
        xs.len() as int
    } else if named(xs[i], name) {
        i
    } else {
        first_named(xs, name, i + 1)
    }
}

/// The first item named `name` in the array under `key`, if any.
pub open spec fn named_item(doc: JsonView, key: Seq<char>, name: Seq<char>) -> Option<JsonView> {
    match items_of(doc, key) {
        Some(xs) => {
            let i = first_named(xs, name, 0);
            if i < xs.len() {
                Some(xs[i])
            } else {
                None
            }
        },
        None => None,
    }
}

/// The bounds an item gives, or the message naming the missing line.
pub open spec fn item_bounds(
    item: JsonView,
    missing_start: Seq<char>,
    missing_end: Seq<char>,
    t: SectionType,
) -> Result<(nat, nat, SectionType), Seq<char>> {
    match u64_of(item, "line_start"@) {
        None => Err(missing_start),
        Some(s) => match u64_of(item, "line_end"@) {
            None => Err(missing_end),
            Some(e) => Ok(((s as usize) as nat, (e as usize) as nat, t)),
        },
    }
}

/// The bounds of the struct, or else the function, called `name`: only Rust
/// and Go sources are searched.
pub open spec fn code_bounds(doc: JsonView, name: Seq<char>, kind: SourceKind) -> Result<
    (nat, nat, SectionType),
    Seq<char>,
> {
    if kind is Rust || kind is Go {
        match named_item(doc, "structs"@, name) {
            Some(s) => item_bounds(
                s,
                "Struct missing line_start"@,
                "Struct missing line_end"@,
                SectionType::CodeStruct,
            ),
            None => match named_item(doc, "functions"@, name) {
                Some(f) => item_bounds(
                    f,
                    "Function missing line_start"@,
                    "Function missing line_end"@,
                    SectionType::CodeFunction,
                ),
                None => Err("Section '"@ + name + "' not found"@),
            },
        }
    } else {
        Err("Code section finding not implemented for "@ + kind_name(kind))
    }
}

/// The first item named `name` in the array under `key`.
fn find_named<'a>(doc: &'a JsonValue, key: &str, name: &str) -> (r: Option<&'a JsonValue>)
    ensures
        match named_item(json_view(*doc), key@, name@) {
            Some(x) => r is Some && json_view(*r->Some_0) == x,
            None => r is None,
        },
{
    let xs = match items_at(doc, key) {
        Some(xs) => xs,
        None => {
            return None;
        },
    };
    let ghost v = items_of(json_view(*doc), key@)->Some_0;
    let target = chars_of(name);
    let mut i: usize = 0;
    while i < xs.len()
        invariant
            i <= xs@.len(),
            items_of(json_view(*doc), key@) == Some(v),
            v.len() == xs@.len(),
            forall|j: int| 0 <= j < v.len() ==> #[trigger] v[j] == json_view(xs@[j]),
            target@ == name@,
            first_named(v, name@, 0) == first_named(v, name@, i as int),
        decreases xs.len() - i,
    {
        match str_at(&xs[i], "name") {
            Some(n) => {
                let nc = chars_of(n.as_str());
                if chars_eq(&nc, &target) {
                    proof {
                        assert(v[i as int] == json_view(xs@[i as int]));
                        assert(named(v[i as int], name@));
                        assert(first_named(v, name@, i as int) == i as int);
                    }
                    return Some(&xs[i]);
                }
            },
            None => {},
        }
        i += 1;
    }
    None
}

/// The bounds an item gives.
fn bounds_from(item: &JsonValue, missing_start: &str, missing_end: &str, t: SectionType) -> (r:
    Result<SectionBounds, String>)
    ensures
        match item_bounds(json_view(*item), missing_start@, missing_end@, t) {
            Ok(b) => r is Ok && bounds_view(r->Ok_0) == b,
            Err(m) => r is Err && r->Err_0@ == m,
        },
{
    let start_line = match u64_at(item, "line_start") {
        Some(s) => s as usize,
        None => {
            return Err(missing_start.to_owned());
        },
    };
    let end_line = match u64_at(item, "line_end") {
        Some(e) => e as usize,
        None => {
            return Err(missing_end.to_owned());
        },
    };
    Ok(SectionBounds { start_line, end_line, section_type: t })
}

/// Finds the lines of the struct (or else the function) called
/// `section_name` in a parsed Rust or Go source.
pub fn find_code_section_bounds(json: &JsonValue, section_name: &str, file_type: &SourceKind) -> (r:
    Result<SectionBounds, String>)
    ensures
        match code_bounds(json_view(*json), section_name@, *file_type) {
            Ok(b) => r is Ok && bounds_view(r->Ok_0) == b,
            Err(m) => r is Err && r->Err_0@ == m,
        },
{
    match file_type {
        SourceKind::Rust | SourceKind::Go => {
            match find_named(json, "structs", section_name) {
                Some(s) => {
                    return bounds_from(
                        s,
                        "Struct missing line_start",
                        "Struct missing line_end",
                        SectionType::CodeStruct,
                    );
                },
                None => {},
            }
            match find_named(json, "functions", section_name) {
                Some(f) => bounds_from(
                    f,
                    "Function missing line_start",
                    "Function missing line_end",
                    SectionType::CodeFunction,
                ),
                None => {
                    let mut msg = chars_of("Section '");
                    append_str(&mut msg, section_name);
                    append_str(&mut msg, "' not found");
                    Err(string_of(&msg))
                },
            }
        },
        _ => {
            let mut msg = chars_of("Code section finding not implemented for ");
            let n = file_type.name();
            append_str(&mut msg, n.as_str());
            Err(string_of(&msg))
        },
    }
}

// ---------------------------------------------------------------------------
// Indenting appended content
// ---------------------------------------------------------------------------

/// `n` spaces.
pub open spec fn spaces(n: nat) -> Seq<char> {
    Seq::new(n, |i: int| ' ')
}

/// A line indented by `n` spaces, unless it is blank.
pub open spec fn indent_line(l: Seq<char>, n: nat) -> Seq<char> {
    if is_blank(l) {
        l
    } else {
        spaces(n) + l
    }
}

/// Lines each indented by `n` spaces.
pub open spec fn indent_lines(ls: Seq<Seq<char>>, n: nat) -> Seq<Seq<char>> {
    ls.map_values(|l: Seq<char>| indent_line(l, n))
}

/// The lines of `content`, each non-blank one indented by `n` spaces,
/// joined by line breaks.
pub open spec fn indented(content: Seq<char>, n: nat) -> Seq<char> {
    join_lines(indent_lines(lines_of(content), n))
}

/// Bytes of leading whitespace of a line.
pub open spec fn indent_bytes(l: Seq<char>) -> nat {
    utf8_len(l.take(leading_ws(l) as int))
}

/// A line that looks like a struct field: its trimmed text holds a `:` and
/// ends with `,`.
pub open spec fn field_like(l: Seq<char>) -> bool {
    let t = trim(l);
    contains(t, ":"@) && t.len() > 0 && t.last() == ','
}

/// The indentation of the nearest field-like line among the first `k`
/// lines, searching upwards; 4 when there is none.
pub open spec fn field_indent_below(ls: Seq<Seq<char>>, k: int) -> nat
    decreases k,
{
    if k <= 0 {
        4
    } else if field_like(ls[k - 1]) {
        indent_bytes(ls[k - 1])
    } else {
        field_indent_below(ls, k - 1)
    }
}

/// `n` spaces.
fn spaces_chars(n: usize) -> (r: Vec<char>)
    ensures
        r@ == spaces(n as nat),
{
    let mut r: Vec<char> = Vec::new();
    let mut i: usize = 0;
    while i < n
        invariant
            i <= n,
            r@ == spaces(i as nat),
        decreases n - i,
    {
        r.push(' ');
        i += 1;
        assert(r@ =~= spaces(i as nat));
    }
    r
}

/// The lines of `content`, non-blank ones indented by `n` spaces, joined by
/// line breaks.
pub fn indent_text(content: &str, n: usize) -> (r: String)
    ensures
        r@ == indented(content@, n as nat),
{
    let cc = chars_of(content);
    let ls = split_lines(&cc);
    let pad = spaces_chars(n);
    let mut out: Vec<Vec<char>> = Vec::new();
    let mut i: usize = 0;
    while i < ls.len()
        invariant
            i <= ls@.len(),
            pad@ == spaces(n as nat),
            views(ls@) == lines_of(content@),
            views(out@) == indent_lines(views(ls@), n as nat).take(i as int),
        decreases ls.len() - i,
    {
        let line = &ls[i];
        let item = if blank(line) {
            slice_chars(line, 0, line.len())
        } else {
            let mut v = slice_chars(&pad, 0, pad.len());
            append_chars(&mut v, line);
            v
        };
        proof {
            assert(line@.subrange(0, line@.len() as int) =~= line@);
            assert(pad@.subrange(0, pad@.len() as int) =~= pad@);
        }
        let ghost prev = views(out@);
        out.push(item);
        assert(views(out@) =~= prev.push(item@));
        i += 1;
        assert(views(out@) =~= indent_lines(views(ls@), n as nat).take(i as int));
    }
    assert(indent_lines(views(ls@), n as nat).take(ls@.len() as int) =~= indent_lines(
        views(ls@),
        n as nat,
    ));
    let joined = join_with_newlines(&out);
    string_of(&joined)
}

/// Indentation of the nearest field-like line above `insert_line` (lines
/// numbered from 1; the line `insert_line - 1` and those after it are not
/// looked at), or 4 when there is none.
pub fn find_field_indentation(file_content: &str, insert_line: usize) -> (r: usize)
    requires
        utf8_len(file_content@) <= usize::MAX,
        insert_line <= lines_of(file_content@).len() + 1,
    ensures
        r as nat == field_indent_below(
            lines_of(file_content@),
            if insert_line >= 1 {
                insert_line - 1
            } else {
                0
            },
        ),
{
    let text = chars_of(file_content);
    let ls = split_lines(&text);
    let ghost lv = lines_of(file_content@);
    proof {
        lemma_lines_utf8_len(file_content@);
    }
    let colon = chars_of(":");
    let top: usize = if insert_line >= 1 { insert_line - 1 } else { 0 };
    let mut k: usize = top;
    while k > 0
        invariant
            k <= top <= ls@.len(),
            top == (if insert_line >= 1 {
                insert_line - 1
            } else {
                0
            }),
            views(ls@) == lv,
            lv == lines_of(file_content@),
            colon@ == ":"@,
            utf8_len(file_content@) <= usize::MAX,
            forall|i: int| 0 <= i < lv.len() ==> utf8_len(#[trigger] lv[i]) <= utf8_len(file_content@),
            field_indent_below(lv, top as int) == field_indent_below(lv, k as int),
        decreases k,
    {
        let line = &ls[k - 1];
        assert(line@ == lv[k - 1]);
        let t = trim_chars(line);
        if contains_chars(&t, &colon) && t.len() > 0 && t[t.len() - 1] == ',' {
            proof {
                assert(t@.last() == ',');
                assert(field_like(lv[k - 1]));
                assert(field_indent_below(lv, k as int) == indent_bytes(lv[k - 1]));
            }
            let r = leading_ws_bytes(line);
            assert(r as nat == indent_bytes(line@));
            return r;
        }
        k -= 1;
    }
    4
}

/// `content` indented to match the header on line `header_line` (1-based):
/// each non-blank line gets as many spaces as the header line has bytes of
/// leading whitespace.  Content is returned unchanged when the header line
/// is not before the document's last line.
pub fn prepare_markdown_content(content: &str, file_content: &str, header_line: usize) -> (r: String)
    requires
        utf8_len(file_content@) <= usize::MAX,
        header_line >= 1 || lines_of(file_content@).len() == 0,
    ensures
        r@ == if header_line >= lines_of(file_content@).len() {
            content@
        } else {
            indented(content@, indent_bytes(lines_of(file_content@)[header_line - 1]))
        },
{
    let text = chars_of(file_content);
    let ls = split_lines(&text);
    if header_line >= ls.len() {
        return content.to_owned();
    }
    proof {
        lemma_lines_utf8_len(file_content@);
        assert(ls@[header_line - 1]@ == lines_of(file_content@)[header_line - 1]);
    }
    let indent = leading_ws_bytes(&ls[header_line - 1]);
    indent_text(content, indent)
}

/// `content` indented like the fields above line `insert_line` (1-based).
/// Content is returned unchanged when that line is not before the
/// document's last line.
pub fn prepare_code_content(content: &str, file_content: &str, insert_line: usize) -> (r: String)
    requires
        utf8_len(file_content@) <= usize::MAX,
        insert_line >= 1 || lines_of(file_content@).len() == 0,
    ensures
        r@ == if insert_line >= lines_of(file_content@).len() {
            content@
        } else {
            indented(content@, field_indent_below(lines_of(file_content@), insert_line - 1))
        },
{
    let text = chars_of(file_content);
    let ls = split_lines(&text);
    if insert_line >= ls.len() {
        return content.to_owned();
    }
    let field_indent = find_field_indentation(file_content, insert_line);
    indent_text(content, field_indent)
}

// ---------------------------------------------------------------------------
// Planning an append
// ---------------------------------------------------------------------------

/// The line an append goes after, for a section's bounds.
pub open spec fn markdown_insert_line(b: (nat, nat, SectionType), pos: InsertPosition) -> int {
    match pos {
        InsertPosition::End => b.1 as int,
        _ => (b.0 + 1) as int,
    }
}

/// Plans an append to a Markdown section: the section's bounds, the line to
/// insert after, and the indented content preceded by a line break.
pub fn plan_markdown_append(file_content: &str, doc: &JsonValue, args: &AppendToSectionArgs) -> (r:
    Result<AppendPlan, IvaldiError>)
    requires
        utf8_len(file_content@) <= usize::MAX,
        markdown_bounds_defined(json_view(*doc), args.section@),
        markdown_bounds(json_view(*doc), args.section@) matches Ok(b) ==> {
            &&& b.0 < usize::MAX
            &&& b.0 >= 1 || lines_of(file_content@).len() == 0
        },
    ensures
        match markdown_bounds(json_view(*doc), args.section@) {
            Ok(b) => r matches Ok(p) && bounds_view(p.bounds) == b && p.insert_line
                == markdown_insert_line(b, args.position) && p.replacement@ == seq!['\n'] + (
            if b.0 >= lines_of(file_content@).len() {
                args.content@
            } else {
                indented(args.content@, indent_bytes(lines_of(file_content@)[b.0 - 1]))
            }),
            Err(m) => r matches Err(IvaldiError::Query(e)) && e@ == m,
        },
{
    let bounds = match find_markdown_section_bounds(doc, args.section.as_str()) {
        Ok(b) => b,
        Err(e) => {
            return Err(IvaldiError::Query(e));
        },
    };
    let insert_line = match args.position {
        InsertPosition::End => bounds.end_line,
        InsertPosition::Start | InsertPosition::AfterHeader => bounds.start_line + 1,
    };
    let indented_content = prepare_markdown_content(
        args.content.as_str(),
        file_content,
        bounds.start_line,
    );
    let mut rep = chars_of("\n");
    append_str(&mut rep, indented_content.as_str());
    proof {
        reveal_strlit("\n");
    }
    Ok(AppendPlan { insert_line, replacement: string_of(&rep), bounds })
}

/// Plans an append to a struct or function: the section's bounds, the line
/// before its last one, and the content indented like the fields above,
/// preceded by a line break.
pub fn plan_code_append(
    file_content: &str,
    doc: &JsonValue,
    file_type: &SourceKind,
    args: &AppendToSectionArgs,
) -> (r: Result<AppendPlan, IvaldiError>)
    requires
        utf8_len(file_content@) <= usize::MAX,
        code_bounds(json_view(*doc), args.section@, *file_type) matches Ok(b) ==> {
            &&& b.1 >= 1
            &&& b.1 >= 2 || lines_of(file_content@).len() == 0
        },
    ensures
        match code_bounds(json_view(*doc), args.section@, *file_type) {
            Ok(b) => r matches Ok(p) && bounds_view(p.bounds) == b && p.insert_line == b.1 - 1
                && p.replacement@ == seq!['\n'] + (if b.1 - 1 >= lines_of(file_content@).len() {
                args.content@
            } else {
                indented(
                    args.content@,
                    field_indent_below(lines_of(file_content@), b.1 - 2),
                )
            }),
            Err(m) => r matches Err(IvaldiError::Query(e)) && e@ == m,
        },
{
    let bounds = match find_code_section_bounds(doc, args.section.as_str(), file_type) {
        Ok(b) => b,
        Err(e) => {
            return Err(IvaldiError::Query(e));
        },
    };
    let insert_line = bounds.end_line - 1;
    let indented_content = prepare_code_content(args.content.as_str(), file_content, insert_line);
    let mut rep = chars_of("\n");
    append_str(&mut rep, indented_content.as_str());
    proof {
        reveal_strlit("\n");
    }
    Ok(AppendPlan { insert_line, replacement: string_of(&rep), bounds })
}

/// The result reported after a planned append was written.
pub fn append_result(args: &AppendToSectionArgs, plan: &AppendPlan) -> (r: AppendResult)
    requires
        utf8_len(args.content@) <= usize::MAX,
    ensures
        r.path@ == args.path@,
        r.section@ == args.section@,
        r.inserted_at_line == plan.insert_line,
        r.section_bounds == plan.bounds,
        r.content_length == utf8_len(args.content@),
{
    let cc = chars_of(args.content.as_str());
    AppendResult {
        path: args.path.clone(),
        section: args.section.clone(),
        inserted_at_line: plan.insert_line,
        section_bounds: plan.bounds,
        content_length: utf8_len_chars(&cc),
    }
}

/// Which planner an append goes to, by the kind of file.
#[derive(Debug, Clone, Copy, PartialEq, Eq, Structural)]
pub enum AppendRoute {
    Markdown,
    Code,
    Json,
    Unsupported,
}

/// The route of an append to a file of kind `k`.
pub open spec fn route_spec(k: SourceKind) -> AppendRoute {
    match k {
        SourceKind::Markdown => AppendRoute::Markdown,
        SourceKind::Rust | SourceKind::Python | SourceKind::Go | SourceKind::C | SourceKind::Cpp => AppendRoute::Code,
        SourceKind::Json => AppendRoute::Json,
        _ => AppendRoute::Unsupported,
    }
}

/// Markdown files go to the Markdown planner, source files to the code
/// planner, JSON files to the JSON one; other files are refused.
pub fn append_route(k: &SourceKind) -> (r: AppendRoute)
    ensures
        r == route_spec(*k),
{
    match k {
        SourceKind::Markdown => AppendRoute::Markdown,
        SourceKind::Rust | SourceKind::Python | SourceKind::Go | SourceKind::C | SourceKind::Cpp => AppendRoute::Code,
        SourceKind::Json => AppendRoute::Json,
        _ => AppendRoute::Unsupported,
    }
}

/// The refusal of an append to a file of a kind no planner handles.
pub fn unsupported_append(k: &SourceKind) -> (r: IvaldiError)
    ensures
        r matches IvaldiError::InvalidArgument(m) && m@ == "append_to_section not supported for file type: "@
            + kind_name(*k),
{
    let mut v = chars_of("append_to_section not supported for file type: ");
    append_str(&mut v, k.name().as_str());
    IvaldiError::InvalidArgument(string_of(&v))
}

/// The answer to an append to a JSON document: appends at the end of an
/// array are not supported yet, and nothing else is.
pub open spec fn json_append_message(position: InsertPosition, is_array: bool) -> Seq<char> {
    if position is End {
        if is_array {
            "JSON append_to_section not fully implemented yet. Use edit_json for JSON operations."@
        } else {
            "JSON append_to_section only supports arrays for now"@
        }
    } else {
        "JSON append_to_section only supports 'end' position for arrays"@
    }
}

/// The refusal of an append to a JSON document (see `json_append_message`).
pub fn json_append_refusal(position: InsertPosition, is_array: bool) -> (r: IvaldiError)
    ensures
        r matches IvaldiError::InvalidArgument(m) && m@ == json_append_message(position, is_array),
{
    match position {
        InsertPosition::End => {
            if is_array {
                IvaldiError::InvalidArgument(
                    "JSON append_to_section not fully implemented yet. Use edit_json for JSON operations.".to_owned(),
                )
            } else {
                IvaldiError::InvalidArgument("JSON append_to_section only supports arrays for now".to_owned())
            }
        },
        _ => IvaldiError::InvalidArgument(
            "JSON append_to_section only supports 'end' position for arrays".to_owned(),
        ),
    }
}

/// Whether the Markdown section's end can be computed (see
/// `markdown_bounds_defined`).
pub fn markdown_bounds_computable(json: &JsonValue, section_name: &str) -> (r: bool)
    ensures
        r == markdown_bounds_defined(json_view(*json), section_name@),
{
    let headers = match items_at(json, "headers") {
        Some(h) => h,
        None => {
            return true;
        },
    };
    let ghost hs = items_of(json_view(*json), "headers"@)->Some_0;
    let name_chars = chars_of(section_name);
    let key = heading_key_chars(&name_chars);
    let mut i: usize = 0;
    while i < headers.len()
        invariant_except_break
            i <= headers@.len(),
            hs.len() == headers@.len(),
            forall|j: int| 0 <= j < hs.len() ==> #[trigger] hs[j] == json_view(headers@[j]),
            key@ == heading_key(section_name@),
            first_header(hs, key@, 0) == first_header(hs, key@, i as int),
        ensures
            i <= headers@.len(),
            first_header(hs, key@, 0) == i as int,
        decreases headers.len() - i,
    {
        let matched = match str_at(&headers[i], "content") {
            Some(c) => {
                let cc = chars_of(c.as_str());
                let ck = heading_key_chars(&cc);
                chars_eq(&ck, &key)
            },
            None => false,
        };
        if matched {
            break;
        }
        i += 1;
    }
    if i >= headers.len() {
        return true;
    }
    match u64_at(&headers[i], "line_start") {
        None => true,
        Some(_) => {
            if i + 1 < headers.len() {
                match u64_at(&headers[i + 1], "line_start") {
                    Some(n) => (n as usize) >= 1,
                    None => false,
                }
            } else {
                true
            }
        },
    }
}

/// Whether a Markdown append can be planned without an out-of-range line
/// (see the requirements of `plan_markdown_append`).
pub fn markdown_append_plannable(file_content: &str, doc: &JsonValue, args: &AppendToSectionArgs) -> (r: bool)
    requires
        utf8_len(file_content@) <= usize::MAX,
    ensures
        r == (markdown_bounds_defined(json_view(*doc), args.section@) && (markdown_bounds(
            json_view(*doc),
            args.section@,
        ) matches Ok(b) ==> {
            &&& b.0 < usize::MAX
            &&& b.0 >= 1 || lines_of(file_content@).len() == 0
        })),
{
    if !markdown_bounds_computable(doc, args.section.as_str()) {
        return false;
    }
    match find_markdown_section_bounds(doc, args.section.as_str()) {
        Ok(b) => {
            let fc = chars_of(file_content);
            let ls = split_lines(&fc);
            assert(views(ls@).len() == ls@.len());
            b.start_line < usize::MAX && (b.start_line >= 1 || ls.len() == 0)
        },
        Err(_) => true,
    }
}

/// Whether a code append can be planned without an out-of-range line (see
/// the requirements of `plan_code_append`).
pub fn code_append_plannable(
    file_content: &str,
    doc: &JsonValue,
    file_type: &SourceKind,
    args: &AppendToSectionArgs,
) -> (r: bool)
    ensures
        r == (code_bounds(json_view(*doc), args.section@, *file_type) matches Ok(b) ==> {
            &&& b.1 >= 1
            &&& b.1 >= 2 || lines_of(file_content@).len() == 0
        }),
{
    match find_code_section_bounds(doc, args.section.as_str(), file_type) {
        Ok(b) => {
            let fc = chars_of(file_content);
            let ls = split_lines(&fc);
            assert(views(ls@).len() == ls@.len());
            b.end_line >= 1 && (b.end_line >= 2 || ls.len() == 0)
        },
        Err(_) => true,
    }
}

} // verus!

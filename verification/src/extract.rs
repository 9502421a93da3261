//! Extraction of typed records from fetched pages: chapter references from
//! table rows (row mode) or from a decoded JSON chapter list (structured
//! mode), fiction pages, and chapter pages.

use vstd::prelude::*;

use crate::api::{Chapter, ChapterReference, Fiction};
use crate::dom::{
    dom_from_html, matches_in_name, parsed_document, spec_attr, spec_traverse, text_of, DomNode,
    Selector,
};
use crate::errors::{ExtractionError, FetchError};
use crate::flatten::flatten_of;
use crate::locator::{contains_marker, locate_embedded_array, spec_locate};
use crate::text::{parse_u64, parse_u64_spec, trim, trim_spec};

verus! {

/// The view of one chapter reference: locator, title and time.
pub type RefView = (Seq<char>, Seq<char>, u64);

/// The view of a chapter reference value.
pub open spec fn ref_view(c: ChapterReference) -> RefView {
    (c.path@, c.title@, c.time)
}

/// The views of a chapter list.
pub open spec fn ref_views(chs: Seq<ChapterReference>) -> Seq<RefView> {
    chs.map_values(|c: ChapterReference| ref_view(c))
}

// ---------------------------------------------------------------------------
// Structured mode: entries of the embedded JSON chapter list
// ---------------------------------------------------------------------------

/// One entry of the embedded JSON chapter list, with the three string fields
/// the library reads; a field that is absent or not a string is `None`.
#[derive(Debug)]
pub struct JsonChapterEntry {
    pub url: Option<String>,
    pub title: Option<String>,
    pub date: Option<String>,
}

/// The entries that decoding a text as a JSON array of objects yields, or
/// `None` when the text is not a JSON array. Decoding is a pure function of
/// the text, so the result carries a name that the decode wrapper's contract
/// speaks of.
pub uninterp spec fn chapter_entries_of(json: Seq<char>) -> Option<Seq<JsonChapterEntry>>;

/// Relies on serde_json::from_str and serde_json::Value::{as_array, get,
/// as_str}: decodes a JSON array of objects, keeping the `url`, `title` and
/// `date` string fields of each entry; `None` when the text is not a JSON
/// array.
#[verifier::external_body]
fn parse_chapter_entries(json: &str) -> (r: Option<Vec<JsonChapterEntry>>)
    ensures
        match r {
            Some(v) => chapter_entries_of(json@) == Some(v@),
            None => chapter_entries_of(json@) is None,
        },
{
    let v: serde_json::Value = serde_json::from_str(json).ok()?;
    let arr = v.as_array()?;
    Some(arr.iter().map(|e| JsonChapterEntry {
        url: e.get("url").and_then(|x| x.as_str()).map(|s| s.to_string()),
        title: e.get("title").and_then(|x| x.as_str()).map(|s| s.to_string()),
        date: e.get("date").and_then(|x| x.as_str()).map(|s| s.to_string()),
    }).collect())
}

/// The unix seconds that parsing a text as an ISO-8601 UTC timestamp yields,
/// or `None` when it does not match the format. Parsing a fixed format is a
/// pure function of the text, so the result carries a name that the parse
/// wrapper's contract speaks of.
pub uninterp spec fn parsed_timestamp(s: Seq<char>) -> Option<i64>;

/// Relies on chrono::NaiveDateTime::parse_from_str with the fixed format
/// `%Y-%m-%dT%H:%M:%SZ`, and chrono's DateTime::timestamp: maps a date text
/// to unix seconds; `None` when the text does not match the format.
#[verifier::external_body]
fn parse_timestamp(s: &str) -> (r: Option<i64>)
    ensures
        r == parsed_timestamp(s@),
{
    chrono::NaiveDateTime::parse_from_str(s, "%Y-%m-%dT%H:%M:%SZ")
        .ok()
        .map(|dt| dt.and_utc().timestamp())
}

/// What structured mode makes of one entry: the reference views on success,
/// `MissingField` when a field is absent, `MalformedTimestamp` when the date
/// does not parse to a non-negative unix time.
pub open spec fn spec_from_entry(e: JsonChapterEntry) -> Result<RefView, ExtractionError> {
    if e.url is None || e.title is None || e.date is None {
        Err(ExtractionError::MissingField)
    } else {
        match parsed_timestamp(e.date->0@) {
            Some(t) => if 0 <= t {
                Ok((e.url->0@, e.title->0@, t as u64))
            } else {
                Err(ExtractionError::MalformedTimestamp)
            },
            None => Err(ExtractionError::MalformedTimestamp),
        }
    }
}

impl ChapterReference {
    /// Build a chapter reference from one decoded JSON chapter-list entry.
    pub fn from_entry(e: &JsonChapterEntry) -> (r: Result<ChapterReference, ExtractionError>)
        ensures
            match spec_from_entry(*e) {
                Ok(v) => r is Ok && ref_view(r->Ok_0) == v,
                Err(err) => r is Err && r->Err_0 == err,
            },
    {
        let url = match &e.url {
            Some(u) => u,
            None => {
                return Err(ExtractionError::MissingField);
            },
        };
        let title = match &e.title {
            Some(t) => t,
            None => {
                return Err(ExtractionError::MissingField);
            },
        };
        let date = match &e.date {
            Some(d) => d,
            None => {
                return Err(ExtractionError::MissingField);
            },
        };
        match parse_timestamp(date.as_str()) {
            Some(t) => {
                if t >= 0 {
                    Ok(ChapterReference { path: url.clone(), title: title.clone(), time: t as u64 })
                } else {
                    Err(ExtractionError::MalformedTimestamp)
                }
            },
            None => Err(ExtractionError::MalformedTimestamp),
        }
    }
}

// ---------------------------------------------------------------------------
// Row mode: chapter references from table rows
// ---------------------------------------------------------------------------

/// The fixed child-index path to the title text of a chapter table row.
pub open spec fn row_title_path() -> Seq<usize> {
    seq![1usize, 1usize, 0usize]
}

/// What row mode makes of one table row: the locator from its `data-url`
/// attribute, the time from the `unixtime` attribute of its first `time`
/// element, and the trimmed title text reached by the fixed index path.
pub open spec fn spec_from_row(row: DomNode) -> Result<RefView, ExtractionError> {
    match spec_attr(row, "data-url"@) {
        None => Err(ExtractionError::MissingField),
        Some(path) => {
            let times = matches_in_name(row, true, "time"@);
            if times.len() == 0 {
                Err(ExtractionError::MissingField)
            } else {
                match spec_attr(times[0], "unixtime"@) {
                    None => Err(ExtractionError::MissingField),
                    Some(ts) => match parse_u64_spec(ts) {
                        None => Err(ExtractionError::MalformedTimestamp),
                        Some(t) => match spec_traverse(row, row_title_path()) {
                            None => Err(ExtractionError::MissingField),
                            Some(tn) => Ok((path, trim_spec(text_of(tn)), t)),
                        },
                    },
                }
            }
        },
    }
}

impl ChapterReference {
    /// Build a chapter reference from one row of a fiction page's chapter table.
    pub fn from_fiction_page_row(row: &DomNode) -> (r: Result<ChapterReference, ExtractionError>)
        ensures
            match spec_from_row(*row) {
                Ok(v) => r is Ok && ref_view(r->Ok_0) == v,
                Err(err) => r is Err && r->Err_0 == err,
            },
    {
        let path = match row.attr("data-url") {
            Some(p) => p.clone(),
            None => {
                return Err(ExtractionError::MissingField);
            },
        };
        let time_sel = Selector::Tag(String::from_str("time"));
        let time_node = match row.find_first(&time_sel) {
            Some(t) => t,
            None => {
                return Err(ExtractionError::MissingField);
            },
        };
        let ts = match time_node.attr("unixtime") {
            Some(v) => v,
            None => {
                return Err(ExtractionError::MissingField);
            },
        };
        let t = match parse_u64(ts.as_str()) {
            Some(t) => t,
            None => {
                return Err(ExtractionError::MalformedTimestamp);
            },
        };
        let mut title_path: Vec<usize> = Vec::new();
        title_path.push(1);
        title_path.push(1);
        title_path.push(0);
        proof {
            assert(title_path@ =~= row_title_path());
        }
        let title_node = match crate::dom::traverse(row, &title_path) {
            Some(n) => n,
            None => {
                return Err(ExtractionError::MissingField);
            },
        };
        let title = trim(title_node.node_text().as_str());
        Ok(ChapterReference { path, title, time: t })
    }
}

// ---------------------------------------------------------------------------
// Fiction pages
// ---------------------------------------------------------------------------

/// The marker that introduces the embedded JSON chapter list in script text.
pub open spec fn chapters_marker() -> Seq<char> {
    "window.chapters = "@
}

/// The reference views that row mode extracts from the rows from position `i`
/// on; rows that fail to extract are skipped.
pub open spec fn rows_refs(rows: Seq<DomNode>, i: int) -> Seq<RefView>
    decreases rows.len() - i,
{
    if i < 0 || i >= rows.len() {
        Seq::empty()
    } else {
        (match spec_from_row(rows[i]) {
            Ok(v) => seq![v],
            Err(_) => Seq::empty(),
        }) + rows_refs(rows, i + 1)
    }
}

/// The reference views that structured mode extracts from the entries from
/// position `i` on; entries that fail to extract are skipped.
pub open spec fn entries_refs(entries: Seq<JsonChapterEntry>, i: int) -> Seq<RefView>
    decreases entries.len() - i,
{
    if i < 0 || i >= entries.len() {
        Seq::empty()
    } else {
        (match spec_from_entry(entries[i]) {
            Ok(v) => seq![v],
            Err(_) => Seq::empty(),
        }) + entries_refs(entries, i + 1)
    }
}

/// The first of the scripts from position `i` on whose text holds the marker.
pub open spec fn first_marked(scripts: Seq<DomNode>, i: int) -> Option<int>
    decreases scripts.len() - i,
{
    if i < 0 || i >= scripts.len() {
        None
    } else if contains_marker(text_of(scripts[i]), chapters_marker()) {
        Some(i)
    } else {
        first_marked(scripts, i + 1)
    }
}

/// What a fiction page yields: the text of its first `h1` heading as the
/// title, and the chapter list from the first of two sources that is present —
/// the rows classed `chapter-row`, else the JSON array after the chapter-list
/// marker in the first script that holds it. `UnrecognizedLayout` when the
/// heading is absent or neither source is found and whole.
pub open spec fn spec_fiction_views(doc: DomNode) -> Result<(Seq<char>, Seq<RefView>), FetchError> {
    let hs = matches_in_name(doc, true, "h1"@);
    if hs.len() == 0 {
        Err(FetchError::UnrecognizedLayout)
    } else {
        let title = text_of(hs[0]);
        let rows = matches_in_name(doc, false, "chapter-row"@);
        if rows.len() > 0 {
            Ok((title, rows_refs(rows, 0)))
        } else {
            let scripts = matches_in_name(doc, true, "script"@);
            match first_marked(scripts, 0) {
                None => Err(FetchError::UnrecognizedLayout),
                Some(k) => match spec_locate(text_of(scripts[k]), chapters_marker()) {
                    Err(_) => Err(FetchError::UnrecognizedLayout),
                    Ok(json) => match chapter_entries_of(json) {
                        None => Err(FetchError::UnrecognizedLayout),
                        Some(entries) => Ok((title, entries_refs(entries, 0))),
                    },
                },
            }
        }
    }
}

impl Fiction {
    /// Build a fiction from its parsed page.
    #[verifier::loop_isolation(false)]
    pub fn from_document(id: usize, doc: &DomNode) -> (r: Result<Fiction, FetchError>)
        ensures
            match spec_fiction_views(*doc) {
                Ok(v) => r is Ok && r->Ok_0.id == id && r->Ok_0.title@ == v.0 && ref_views(
                    r->Ok_0.chapters@,
                ) == v.1,
                Err(e) => r is Err && r->Err_0 == e,
            },
    {
        let h1_sel = Selector::Tag(String::from_str("h1"));
        let heading = match doc.find_first(&h1_sel) {
            Some(h) => h,
            None => {
                return Err(FetchError::UnrecognizedLayout);
            },
        };
        let title = heading.node_text();
        let row_sel = Selector::Class(String::from_str("chapter-row"));
        let rows = doc.find_all(&row_sel);
        if rows.len() > 0 {
            let ghost rows_v = crate::dom::deref_nodes(rows@);
            let mut chapters: Vec<ChapterReference> = Vec::new();
            let n = rows.len();
            let mut i: usize = 0;
            proof {
                assert(ref_views(chapters@) + rows_refs(rows_v, 0) =~= rows_refs(rows_v, 0));
            }
            while i < n
                invariant
                    i <= n,
                    ref_views(chapters@) + rows_refs(rows_v, i as int) =~= rows_refs(rows_v, 0),
                decreases n - i,
            {
                proof {
                    assert(rows_v[i as int] == *rows@[i as int]);
                }
                let ghost before = ref_views(chapters@);
                match ChapterReference::from_fiction_page_row(rows[i]) {
                    Ok(c) => {
                        chapters.push(c);
                        proof {
                            assert(ref_views(chapters@) =~= before.push(
                                ref_view(chapters@.last()),
                            ));
                        }
                    },
                    Err(_) => {},
                }
                proof {
                    assert(ref_views(chapters@) + rows_refs(rows_v, i as int + 1) =~= rows_refs(
                        rows_v,
                        0,
                    ));
                }
                i += 1;
            }
            proof {
                assert(rows_refs(rows_v, n as int) =~= Seq::<RefView>::empty());
                assert(ref_views(chapters@) =~= rows_refs(rows_v, 0));
            }
            return Ok(Fiction { title, id, chapters });
        }
        let script_sel = Selector::Tag(String::from_str("script"));
        let scripts = doc.find_all(&script_sel);
        let ghost scripts_v = crate::dom::deref_nodes(scripts@);
        let n = scripts.len();
        let mut i: usize = 0;
        proof {
            assert(first_marked(scripts_v, 0) == first_marked(scripts_v, 0));
        }
        while i < n
            invariant
                i <= n,
                first_marked(scripts_v, 0) == first_marked(scripts_v, i as int),
            decreases n - i,
        {
            proof {
                assert(scripts_v[i as int] == *scripts@[i as int]);
            }
            let text = scripts[i].node_text();
            let has = crate::locator::find_marker(text.as_str(), "window.chapters = ");
            if has.is_some() {
                let json = match locate_embedded_array(text.as_str(), "window.chapters = ") {
                    Ok(j) => j,
                    Err(_) => {
                        return Err(FetchError::UnrecognizedLayout);
                    },
                };
                let entries = match parse_chapter_entries(json.as_str()) {
                    Some(es) => es,
                    None => {
                        return Err(FetchError::UnrecognizedLayout);
                    },
                };
                let mut chapters: Vec<ChapterReference> = Vec::new();
                let m = entries.len();
                let mut j: usize = 0;
                proof {
                    assert(ref_views(chapters@) + entries_refs(entries@, 0) =~= entries_refs(
                        entries@,
                        0,
                    ));
                }
                while j < m
                    invariant
                        j <= m,
                        ref_views(chapters@) + entries_refs(entries@, j as int) =~= entries_refs(
                            entries@,
                            0,
                        ),
                    decreases m - j,
                {
                    let ghost before = ref_views(chapters@);
                    match ChapterReference::from_entry(&entries[j]) {
                        Ok(c) => {
                            chapters.push(c);
                            proof {
                                assert(ref_views(chapters@) =~= before.push(
                                    ref_view(chapters@.last()),
                                ));
                            }
                        },
                        Err(_) => {},
                    }
                    proof {
                        assert(ref_views(chapters@) + entries_refs(entries@, j as int + 1)
                            =~= entries_refs(entries@, 0));
                    }
                    j += 1;
                }
                proof {
                    assert(entries_refs(entries@, m as int) =~= Seq::<RefView>::empty());
                    assert(ref_views(chapters@) =~= entries_refs(entries@, 0));
                }
                return Ok(Fiction { title, id, chapters });
            }
            i += 1;
        }
        proof {
            assert(first_marked(scripts_v, n as int) is None);
        }
        Err(FetchError::UnrecognizedLayout)
    }

    /// Build a fiction from the raw text of its page.
    pub fn from_page(id: usize, html: &str) -> (r: Result<Fiction, FetchError>)
        ensures
            match spec_fiction_views(parsed_document(html@)) {
                Ok(v) => r is Ok && r->Ok_0.id == id && r->Ok_0.title@ == v.0 && ref_views(
                    r->Ok_0.chapters@,
                ) == v.1,
                Err(e) => r is Err && r->Err_0 == e,
            },
    {
        let doc = dom_from_html(html);
        Fiction::from_document(id, &doc)
    }

    /// Build a fiction from what the transport handed back: no page at all is
    /// `NotFound`, a page goes through extraction.
    pub fn from_fetched_page(id: usize, page: Option<&str>) -> (r: Result<Fiction, FetchError>)
        ensures
            match page {
                None => r is Err && r->Err_0 == FetchError::NotFound,
                Some(html) => match spec_fiction_views(parsed_document(html@)) {
                    Ok(v) => r is Ok && r->Ok_0.id == id && r->Ok_0.title@ == v.0 && ref_views(
                        r->Ok_0.chapters@,
                    ) == v.1,
                    Err(e) => r is Err && r->Err_0 == e,
                },
            },
    {
        match page {
            None => Err(FetchError::NotFound),
            Some(html) => Fiction::from_page(id, html),
        }
    }
}

// ---------------------------------------------------------------------------
// Chapter pages
// ---------------------------------------------------------------------------

/// The fixed child-index path to the publication-time node of the profile region.
pub open spec fn published_path() -> Seq<usize> {
    seq![3usize, 1usize, 3usize]
}

/// The fixed child-index path to the edit-time node of the profile region.
pub open spec fn edited_path() -> Seq<usize> {
    seq![3usize, 3usize, 3usize]
}

/// What a chapter page yields: publication and edit times read from `unixtime`
/// attributes in the region classed `profile-info` (the edit time defaulting
/// to the publication time when its node is absent), and the paragraphs
/// flattened from the subtree classed `chapter-content`.
pub open spec fn spec_chapter_views(doc: DomNode) -> Result<(u64, u64, Seq<Seq<char>>), FetchError> {
    let profs = matches_in_name(doc, false, "profile-info"@);
    if profs.len() == 0 {
        Err(FetchError::UnrecognizedLayout)
    } else {
        match spec_traverse(profs[0], published_path()) {
            None => Err(FetchError::UnrecognizedLayout),
            Some(pn) => match spec_attr(pn, "unixtime"@) {
                None => Err(FetchError::UnrecognizedLayout),
                Some(pv) => match parse_u64_spec(pv) {
                    None => Err(FetchError::UnrecognizedLayout),
                    Some(published) => {
                        let edited = match spec_traverse(profs[0], edited_path()) {
                            None => Some(published),
                            Some(en) => match spec_attr(en, "unixtime"@) {
                                None => None,
                                Some(ev) => parse_u64_spec(ev),
                            },
                        };
                        match edited {
                            None => Err(FetchError::UnrecognizedLayout),
                            Some(edited) => {
                                let bodies = matches_in_name(doc, false, "chapter-content"@);
                                if bodies.len() == 0 {
                                    Err(FetchError::UnrecognizedLayout)
                                } else {
                                    Ok((published, edited, flatten_of(bodies[0])))
                                }
                            },
                        }
                    },
                },
            },
        }
    }
}

impl Chapter {
    /// Build a chapter from its reference and its parsed page.
    pub fn from_document(reference: &ChapterReference, doc: &DomNode) -> (r: Result<
        Chapter,
        FetchError,
    >)
        ensures
            match spec_chapter_views(*doc) {
                Ok(v) => r is Ok && r->Ok_0.name@ == reference.title@ && r->Ok_0.path@
                    == reference.path@ && r->Ok_0.published == v.0 && r->Ok_0.edited == v.1
                    && r->Ok_0.content.deep_view() == v.2,
                Err(e) => r is Err && r->Err_0 == e,
            },
    {
        let prof_sel = Selector::Class(String::from_str("profile-info"));
        let profile = match doc.find_first(&prof_sel) {
            Some(p) => p,
            None => {
                return Err(FetchError::UnrecognizedLayout);
            },
        };
        let mut pub_path: Vec<usize> = Vec::new();
        pub_path.push(3);
        pub_path.push(1);
        pub_path.push(3);
        proof {
            assert(pub_path@ =~= published_path());
        }
        let pn = match crate::dom::traverse(profile, &pub_path) {
            Some(n) => n,
            None => {
                return Err(FetchError::UnrecognizedLayout);
            },
        };
        let pv = match pn.attr("unixtime") {
            Some(v) => v,
            None => {
                return Err(FetchError::UnrecognizedLayout);
            },
        };
        let published = match parse_u64(pv.as_str()) {
            Some(t) => t,
            None => {
                return Err(FetchError::UnrecognizedLayout);
            },
        };
        let mut edit_path: Vec<usize> = Vec::new();
        edit_path.push(3);
        edit_path.push(3);
        edit_path.push(3);
        proof {
            assert(edit_path@ =~= edited_path());
        }
        let edited = match crate::dom::traverse(profile, &edit_path) {
            None => published,
            Some(en) => {
                let ev = match en.attr("unixtime") {
                    Some(v) => v,
                    None => {
                        return Err(FetchError::UnrecognizedLayout);
                    },
                };
                match parse_u64(ev.as_str()) {
                    Some(t) => t,
                    None => {
                        return Err(FetchError::UnrecognizedLayout);
                    },
                }
            },
        };
        let body_sel = Selector::Class(String::from_str("chapter-content"));
        let body = match doc.find_first(&body_sel) {
            Some(b) => b,
            None => {
                return Err(FetchError::UnrecognizedLayout);
            },
        };
        let content = body.flatten_content();
        Ok(Chapter {
            name: reference.title.clone(),
            path: reference.path.clone(),
            content,
            published,
            edited,
        })
    }

    /// Build a chapter from its reference and the raw text of its page.
    pub fn from_page(reference: &ChapterReference, html: &str) -> (r: Result<Chapter, FetchError>)
        ensures
            match spec_chapter_views(parsed_document(html@)) {
                Ok(v) => r is Ok && r->Ok_0.name@ == reference.title@ && r->Ok_0.path@
                    == reference.path@ && r->Ok_0.published == v.0 && r->Ok_0.edited == v.1
                    && r->Ok_0.content.deep_view() == v.2,
                Err(e) => r is Err && r->Err_0 == e,
            },
    {
        let doc = dom_from_html(html);
        Chapter::from_document(reference, &doc)
    }

    /// Build a chapter from what the transport handed back: no page at all is
    /// `NotFound`, a page goes through extraction.
    pub fn from_fetched_page(reference: &ChapterReference, page: Option<&str>) -> (r: Result<
        Chapter,
        FetchError,
    >)
        ensures
            match page {
                None => r is Err && r->Err_0 == FetchError::NotFound,
                Some(html) => match spec_chapter_views(parsed_document(html@)) {
                    Ok(v) => r is Ok && r->Ok_0.name@ == reference.title@ && r->Ok_0.path@
                        == reference.path@ && r->Ok_0.published == v.0 && r->Ok_0.edited == v.1
                        && r->Ok_0.content.deep_view() == v.2,
                    Err(e) => r is Err && r->Err_0 == e,
                },
            },
    {
        match page {
            None => Err(FetchError::NotFound),
            Some(html) => Chapter::from_page(reference, html),
        }
    }
}

} // verus!

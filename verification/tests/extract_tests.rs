use royal_api::api::{Chapter, ChapterReference, Fiction};
use royal_api::dom::{DomNode, Selector};
use royal_api::errors::{ExtractionError, FetchError};
use royal_api::extract::JsonChapterEntry;
use royal_api::locator::locate_embedded_array;

fn element(tag: &str, attrs: Vec<(&str, &str)>, children: Vec<DomNode>) -> DomNode {
    DomNode::Element {
        tag: String::from(tag),
        attrs: attrs
            .into_iter()
            .map(|(k, v)| (String::from(k), String::from(v)))
            .collect(),
        children,
    }
}

fn text(t: &str) -> DomNode {
    DomNode::Text { text: String::from(t) }
}

// ---------------------------------------------------------------------------
// Locating the embedded array
// ---------------------------------------------------------------------------

#[test]
fn locates_embedded_array() {
    let r = locate_embedded_array("window.chapters = [1,[2,3],4]; done", "window.chapters = ");
    assert_eq!(r, Ok(String::from("[1,[2,3],4]")));
}

#[test]
fn locator_reports_missing_marker() {
    let r = locate_embedded_array("var x = [1,2];", "window.chapters = ");
    assert_eq!(r, Err(ExtractionError::MarkerNotFound));
}

#[test]
fn locator_reports_unbalanced_brackets() {
    let r = locate_embedded_array("window.chapters = [1,[2,3]", "window.chapters = ");
    assert_eq!(r, Err(ExtractionError::UnbalancedBrackets));
    let r = locate_embedded_array("window.chapters = nothing here", "window.chapters = ");
    assert_eq!(r, Err(ExtractionError::UnbalancedBrackets));
}

#[test]
fn locator_takes_first_bracket_after_marker() {
    let r = locate_embedded_array("pre [0] window.chapters =  x [[]] tail", "window.chapters = ");
    assert_eq!(r, Ok(String::from("[[]]")));
}

#[test]
fn locator_counts_brackets_inside_string_literals_too() {
    // the depth counter is byte-exact: a bracket inside a quoted JSON string
    // still counts, so such an array is cut at the first balancing bracket
    let r = locate_embedded_array("window.chapters = [\"a]b\"]", "window.chapters = ");
    assert_eq!(r, Ok(String::from("[\"a]")));
}

// ---------------------------------------------------------------------------
// Flattening chapter bodies
// ---------------------------------------------------------------------------

#[test]
fn flattens_text_around_separator() {
    let body = element("div", vec![], vec![text("Hello"), text(" \n"), text("World")]);
    let paragraphs = body.flatten_content();
    assert_eq!(paragraphs, vec!["Hello", "World"]);
}

#[test]
fn flattens_all_whitespace_to_nothing() {
    let body = element(
        "div",
        vec![],
        vec![text("\n"), element("p", vec![], vec![text("  \t")]), text(" ")],
    );
    assert_eq!(body.flatten_content(), Vec::<String>::new());
}

#[test]
fn flattens_adjacent_text_into_one_paragraph() {
    let body = element("div", vec![], vec![text("Hello"), text("World")]);
    assert_eq!(body.flatten_content(), vec!["HelloWorld"]);
}

#[test]
fn flattening_drops_trailing_separator_and_comments() {
    let body = element(
        "div",
        vec![],
        vec![text("One"), DomNode::Comment, text("\n"), text("Two"), text("\n")],
    );
    assert_eq!(body.flatten_content(), vec!["One", "Two"]);
}

#[test]
fn flattening_recurses_into_elements() {
    let body = element(
        "div",
        vec![],
        vec![
            element("p", vec![], vec![text("A")]),
            text("\n"),
            element("p", vec![], vec![element("em", vec![], vec![text("B")])]),
        ],
    );
    assert_eq!(body.flatten_content(), vec!["A", "B"]);
}

// ---------------------------------------------------------------------------
// The document model
// ---------------------------------------------------------------------------

#[test]
fn attr_and_text_and_search() {
    let n = element(
        "div",
        vec![("class", "a b"), ("id", "x")],
        vec![text("he"), element("b", vec![], vec![text("llo")])],
    );
    assert_eq!(n.attr("id"), Some(&String::from("x")));
    assert_eq!(n.attr("missing"), None);
    assert_eq!(n.node_text(), "hello");
    let found = n.find_all(&Selector::Class(String::from("b")));
    assert_eq!(found.len(), 1);
    let found = n.find_all(&Selector::Tag(String::from("b")));
    assert_eq!(found.len(), 1);
    assert!(n.find_first(&Selector::Tag(String::from("i"))).is_none());
}

#[test]
fn traverses_index_paths() {
    let inner = element("span", vec![], vec![text("deep")]);
    let n = element(
        "div",
        vec![],
        vec![text("x"), element("p", vec![], vec![text("y"), inner])],
    );
    let found = royal_api::dom::traverse(&n, &vec![1, 1, 0]).unwrap();
    assert_eq!(found.node_text(), "deep");
    assert!(royal_api::dom::traverse(&n, &vec![]).is_none());
    assert!(royal_api::dom::traverse(&n, &vec![5]).is_none());
}

// ---------------------------------------------------------------------------
// Row mode
// ---------------------------------------------------------------------------

fn chapter_row(path: &str, title: &str, unixtime: &str) -> DomNode {
    element(
        "tr",
        vec![("class", "chapter-row"), ("data-url", path)],
        vec![
            element("td", vec![], vec![element("time", vec![("unixtime", unixtime)], vec![])]),
            element(
                "td",
                vec![],
                vec![text("pad"), element("a", vec![], vec![text(title)])],
            ),
        ],
    )
}

#[test]
fn extracts_reference_from_row() {
    let row = chapter_row("/fiction/1/chapter/2", "  The Title \n", "1620051721");
    let c = ChapterReference::from_fiction_page_row(&row).unwrap();
    assert_eq!(c.path, "/fiction/1/chapter/2");
    assert_eq!(c.title, "The Title");
    assert_eq!(c.time, 1620051721);
}

#[test]
fn row_without_locator_is_missing_field() {
    let row = element("tr", vec![("class", "chapter-row")], vec![]);
    assert_eq!(
        ChapterReference::from_fiction_page_row(&row).unwrap_err(),
        ExtractionError::MissingField
    );
}

#[test]
fn row_with_bad_time_is_malformed_timestamp() {
    let row = chapter_row("/c", "T", "not-a-number");
    assert_eq!(
        ChapterReference::from_fiction_page_row(&row).unwrap_err(),
        ExtractionError::MalformedTimestamp
    );
}

#[test]
fn ten_rows_extract_in_row_order() {
    let mut children = vec![element("h1", vec![], vec![text("A Fiction")])];
    for i in 0..10 {
        children.push(chapter_row(&format!("/chap/{}", i), &format!("Chapter {}", i), "100"));
    }
    let doc = element("html", vec![], children);
    let fiction = Fiction::from_document(40920, &doc).unwrap();
    assert_eq!(fiction.id, 40920);
    assert_eq!(fiction.title, "A Fiction");
    assert_eq!(fiction.chapters.len(), 10);
    for i in 0..10 {
        assert_eq!(fiction.chapters[i].path, format!("/chap/{}", i));
        assert_eq!(fiction.chapters[i].title, format!("Chapter {}", i));
    }
}

// ---------------------------------------------------------------------------
// Structured mode
// ---------------------------------------------------------------------------

#[test]
fn entry_maps_date_to_unix_seconds() {
    let e = JsonChapterEntry {
        url: Some(String::from("/c1")),
        title: Some(String::from("One")),
        date: Some(String::from("1970-01-02T00:00:00Z")),
    };
    let c = ChapterReference::from_entry(&e).unwrap();
    assert_eq!(c.path, "/c1");
    assert_eq!(c.title, "One");
    assert_eq!(c.time, 86400);
}

#[test]
fn entry_with_missing_field_fails() {
    let e = JsonChapterEntry { url: None, title: Some(String::from("x")), date: None };
    assert_eq!(ChapterReference::from_entry(&e).unwrap_err(), ExtractionError::MissingField);
}

#[test]
fn entry_with_bad_date_fails() {
    let e = JsonChapterEntry {
        url: Some(String::from("/c")),
        title: Some(String::from("x")),
        date: Some(String::from("May 3rd 2021")),
    };
    assert_eq!(
        ChapterReference::from_entry(&e).unwrap_err(),
        ExtractionError::MalformedTimestamp
    );
}

// ---------------------------------------------------------------------------
// Whole pages through the HTML parser
// ---------------------------------------------------------------------------

#[test]
fn fiction_page_with_embedded_json_chapters() {
    let html = "<html><body><h1>My Fiction</h1>\
        <div class=\"page-container-bg-solid\"><script>\
        window.chapters = [{\"url\":\"/c1\",\"title\":\"One\",\"date\":\"2021-05-03T14:22:01Z\"},\
        {\"url\":\"/c2\",\"title\":\"Two\",\"date\":\"2021-05-04T00:00:00Z\"}];\
        </script></div></body></html>";
    let fiction = Fiction::from_page(7, html).unwrap();
    assert_eq!(fiction.id, 7);
    assert_eq!(fiction.title, "My Fiction");
    assert_eq!(fiction.chapters.len(), 2);
    assert_eq!(fiction.chapters[0].path, "/c1");
    assert_eq!(fiction.chapters[0].title, "One");
    assert_eq!(fiction.chapters[0].time, 1620051721);
    assert_eq!(fiction.chapters[1].path, "/c2");
}

#[test]
fn fiction_page_with_chapter_table() {
    let html = "<html><body><h1>Table Fic</h1><table>\
        <tr class=\"chapter-row\" data-url=\"/f/1/c/1\">\
        <td><time unixtime=\"500\"></time></td>\
        <td>x<a> First </a></td></tr>\
        </table></body></html>";
    let fiction = Fiction::from_page(1, html).unwrap();
    assert_eq!(fiction.title, "Table Fic");
    assert_eq!(fiction.chapters.len(), 1);
    assert_eq!(fiction.chapters[0].path, "/f/1/c/1");
    assert_eq!(fiction.chapters[0].title, "First");
    assert_eq!(fiction.chapters[0].time, 500);
}

#[test]
fn fiction_page_without_sources_is_unrecognized() {
    let html = "<html><body><h1>Empty</h1><p>no chapters anywhere</p></body></html>";
    assert_eq!(Fiction::from_page(1, html).unwrap_err(), FetchError::UnrecognizedLayout);
    let html = "<html><body><p>not even a heading</p></body></html>";
    assert_eq!(Fiction::from_page(1, html).unwrap_err(), FetchError::UnrecognizedLayout);
}

fn reference(path: &str, title: &str) -> ChapterReference {
    ChapterReference { path: String::from(path), title: String::from(title), time: 1 }
}

fn at_index_3(inner: DomNode) -> DomNode {
    element("div", vec![], vec![text("0"), text("1"), text("2"), inner])
}

#[test]
fn chapter_document_reads_times_and_paragraphs() {
    let stamp = |t: &str| element("time", vec![("unixtime", t)], vec![]);
    // children[3] of the profile region holds, at [1][3] the published stamp
    // and at [3][3] the edited stamp
    let region = element(
        "div",
        vec![("class", "profile-info")],
        vec![
            text("0"),
            text("1"),
            text("2"),
            element(
                "div",
                vec![],
                vec![
                    text("0"),
                    at_index_3(stamp("1000")),
                    text("2"),
                    at_index_3(stamp("2000")),
                ],
            ),
        ],
    );
    let body = element(
        "div",
        vec![("class", "chapter-content")],
        vec![text("First paragraph."), text("\n"), text("Second.")],
    );
    let doc = element("html", vec![], vec![region, body]);
    let c = Chapter::from_document(&reference("/c", "T"), &doc).unwrap();
    assert_eq!(c.name, "T");
    assert_eq!(c.path, "/c");
    assert_eq!(c.published, 1000);
    assert_eq!(c.edited, 2000);
    assert_eq!(c.content, vec!["First paragraph.", "Second."]);
}

#[test]
fn chapter_edit_time_defaults_to_published() {
    let stamp = element("time", vec![("unixtime", "1234")], vec![]);
    // the published path resolves, the edited path finds no child at its
    // second index, so the edit time defaults
    let deep = element("div", vec![], vec![text("0"), at_index_3(stamp)]);
    let region = element(
        "div",
        vec![("class", "profile-info")],
        vec![text("0"), text("1"), text("2"), deep],
    );
    let body = element("div", vec![("class", "chapter-content")], vec![text("P")]);
    let doc = element("html", vec![], vec![region, body]);
    let c = Chapter::from_document(&reference("/c", "T"), &doc).unwrap();
    assert_eq!(c.published, 1234);
    assert_eq!(c.edited, 1234);
}

#[test]
fn chapter_without_profile_region_is_unrecognized() {
    let doc = element("html", vec![], vec![element("div", vec![], vec![text("x")])]);
    assert_eq!(
        Chapter::from_document(&reference("/c", "T"), &doc).unwrap_err(),
        FetchError::UnrecognizedLayout
    );
}

#[test]
fn chapter_page_through_the_parser() {
    let html = "<html><body><div class=\"profile-info\">a b c\
        <div>x<div>p<div>q r s<time unixtime=\"777\"></time></div></div></div></div>\
        <div class=\"chapter-content\">Hello<br>World</div></body></html>";
    // In the parsed region, children[3] is the inner div, whose [1] is the
    // next div, whose [3] would be the edit stamp; here the published stamp
    // sits at [3][1][3] and no edit stamp exists.
    let c = Chapter::from_page(&reference("/c", "T"), html);
    // The fixed index path depends on the exact parsed shape; what must hold
    // either way is that a malformed region never panics.
    match c {
        Ok(ch) => {
            assert_eq!(ch.name, "T");
        }
        Err(e) => {
            assert_eq!(e, FetchError::UnrecognizedLayout);
        }
    }
}

#[test]
fn unfetched_pages_are_not_found() {
    assert_eq!(Fiction::from_fetched_page(1, None).unwrap_err(), FetchError::NotFound);
    assert_eq!(
        Chapter::from_fetched_page(&reference("/c", "T"), None).unwrap_err(),
        FetchError::NotFound
    );
    let html = "<html><body><h1>Empty</h1></body></html>";
    assert_eq!(
        Fiction::from_fetched_page(1, Some(html)).unwrap_err(),
        FetchError::UnrecognizedLayout
    );
}

#[test]
fn duplicate_copies_fields() {
    let c = ChapterReference { path: String::from("/p"), title: String::from("t"), time: 9 };
    let d = c.duplicate();
    assert_eq!(d.path, "/p");
    assert_eq!(d.title, "t");
    assert_eq!(d.time, 9);
}

#[test]
fn error_descriptions() {
    assert_eq!(ExtractionError::MarkerNotFound.describe(), "marker not found");
    assert_eq!(ExtractionError::UnbalancedBrackets.describe(), "unbalanced brackets");
    assert_eq!(ExtractionError::MissingField.describe(), "missing field");
    assert_eq!(ExtractionError::MalformedTimestamp.describe(), "malformed timestamp");
    assert_eq!(FetchError::NotFound.describe(), "not found");
    assert_eq!(FetchError::UnrecognizedLayout.describe(), "unrecognized layout");
}

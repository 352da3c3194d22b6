use document_tree::{Document, HasChildren};
use rotuli::datum::Datum;
use rotuli::error::{DocumentFault, SiteError};
use rotuli::markup::{rstrender, top_level_rst_section, wants_lead, RenderedRst};
use rotuli::metadata::Metadata;
use rotuli::page::{find_separator, Draft, Page};

fn render_tree(document: &Document) -> Option<String> {
    let mut bytes = Vec::new();
    rst_renderer::render_html(document, &mut bytes, false).ok()?;
    String::from_utf8(bytes).ok()
}

fn render_lead(document: &Document) -> Option<String> {
    let section = top_level_rst_section(document).ok()?;
    let element = section.children().get(1)?.clone();
    render_tree(&Document::with_children(vec![element]))
}

fn render_body(s: &str) -> Result<RenderedRst, DocumentFault> {
    if s.is_empty() {
        return rstrender(s, None, None, None);
    }
    let document = rst_parser::parse(s).ok();
    let body = document.as_ref().and_then(render_tree);
    let lead = match &document {
        Some(tree) if wants_lead(tree) => render_lead(tree),
        _ => None,
    };
    rstrender(s, document.as_ref(), body, lead)
}

fn page_from(path: &str, root: &str, index: &str, data: &str) -> Result<Page, SiteError> {
    let draft = Draft::from_source(path, root, index, data)?;
    let rendered = render_body(&draft.content);
    Page::from_draft(draft, rendered)
}

fn page(url: &str, entries: Vec<(&str, Datum)>) -> Page {
    Page {
        path: format!("{}.rst", url),
        url: url.to_string(),
        title: "Extracted".to_string(),
        metadata: Metadata::new(entries.into_iter().map(|(k, v)| (k.to_string(), v)).collect()),
        content: String::new(),
        content_rendered: String::new(),
        summary_rendered: String::new(),
        groups: vec![],
        translations: vec![],
    }
}

fn text(s: &str) -> Datum {
    Datum::String(s.to_string())
}

#[test]
fn display_url_appends_a_slash() {
    assert_eq!(page("/foo/bar", vec![]).display_url().unwrap(), "/foo/bar/");
    assert_eq!(page("/foo", vec![("url_as_is", Datum::Bool(false))]).display_url().unwrap(), "/foo/");
}

#[test]
fn display_url_of_the_root_stays() {
    assert_eq!(page("/", vec![]).display_url().unwrap(), "/");
}

#[test]
fn display_url_as_is_stays() {
    let p = page("/feed.xml", vec![("url_as_is", Datum::Bool(true))]);
    assert_eq!(p.display_url().unwrap(), "/feed.xml");
}

#[test]
fn display_url_refuses_a_flag_that_is_no_truth_value() {
    let p = page("/foo", vec![("url_as_is", text("yes"))]);
    match p.display_url() {
        Err(SiteError::TypeMismatch { key }) => assert_eq!(key, "url_as_is"),
        other => panic!("expected a type mismatch, got {:?}", other),
    }
    assert!(matches!(p.output_path(), Err(SiteError::TypeMismatch { .. })));
}

#[test]
fn output_path_is_a_directory_index() {
    assert_eq!(page("/foo/bar", vec![]).output_path().unwrap(), "foo/bar/index.html");
    assert_eq!(page("/foo", vec![]).output_path().unwrap(), "foo/index.html");
    assert_eq!(page("/", vec![]).output_path().unwrap(), "index.html");
}

#[test]
fn output_path_as_is_is_the_url_without_its_slash() {
    let p = page("/feed.xml", vec![("url_as_is", Datum::Bool(true))]);
    assert_eq!(p.output_path().unwrap(), "feed.xml");
    let root = page("/", vec![("url_as_is", Datum::Bool(true))]);
    assert_eq!(root.output_path().unwrap(), "");
}

#[test]
fn output_path_never_starts_with_a_slash() {
    for url in ["/", "/a", "/a/b", "/a.b/c.d"] {
        for as_is in [false, true] {
            let p = page(url, vec![("url_as_is", Datum::Bool(as_is))]);
            let path = p.output_path().unwrap();
            assert!(!path.starts_with('/'), "{} gave {}", url, path);
            if !as_is {
                assert!(path.ends_with("index.html"), "{} gave {}", url, path);
            }
        }
    }
}

#[test]
fn template_name_is_required() {
    let p = page("/a", vec![("template", text("page.html"))]);
    assert_eq!(p.template_name().unwrap(), "page.html");
    match page("/a", vec![]).template_name() {
        Err(SiteError::MissingRequiredMetadata { key }) => assert_eq!(key, "template"),
        other => panic!("expected a missing key, got {:?}", other),
    }
    match page("/a", vec![("template", Datum::Bool(true))]).template_name() {
        Err(SiteError::TypeMismatch { key }) => assert_eq!(key, "template"),
        other => panic!("expected a type mismatch, got {:?}", other),
    }
}

#[test]
fn title_prefers_the_metadata() {
    assert_eq!(page("/a", vec![("title", text("Declared"))]).title(), "Declared");
    assert_eq!(page("/a", vec![]).title(), "Extracted");
    assert_eq!(page("/a", vec![("title", Datum::Bool(true))]).title(), "Extracted");
}

#[test]
fn find_separator_finds_the_first_blank_line() {
    let chars = |s: &str| s.chars().collect::<Vec<char>>();
    assert_eq!(find_separator(&chars("a: 1\n\nbody")), Some(4));
    assert_eq!(find_separator(&chars("a\n\nb\n\nc")), Some(1));
    assert_eq!(find_separator(&chars("\n\nbody")), Some(0));
    assert_eq!(find_separator(&chars("a: 1\n")), None);
    assert_eq!(find_separator(&chars("a: 1\nb: 2\n")), None);
    assert_eq!(find_separator(&chars("")), None);
    assert_eq!(find_separator(&chars("a\n\n")), Some(1));
}

#[test]
fn from_source_reads_block_and_body() {
    let data = "title: Declared\nok: true\n\nHeading\n=======\n\nFirst paragraph.\n\nSecond.\n";
    let p = page_from("src/en/page.rst", "src", "index.rst", data).unwrap();
    assert_eq!(p.path, "/en/page.rst");
    assert_eq!(p.url, "/en/page");
    assert_eq!(p.title, "Heading");
    assert_eq!(p.title(), "Declared");
    assert_eq!(p.metadata.keys(), vec!["title", "ok"]);
    assert_eq!(p.content, "Heading\n=======\n\nFirst paragraph.\n\nSecond.\n");
    assert!(p.content_rendered.contains("<h1>Heading</h1>"));
    assert!(p.content_rendered.contains("<p>Second.</p>"));
    assert_eq!(p.summary_rendered.trim(), "<p>First paragraph.</p>");
    assert!(p.groups.is_empty());
    assert!(p.translations.is_empty());
}

#[test]
fn from_source_takes_an_empty_body() {
    let p = page_from("src/index.rst", "src", "index.rst", "ok: true\n\n").unwrap();
    assert_eq!(p.url, "/");
    assert_eq!(p.path, "/index.rst");
    assert_eq!(p.title, "");
    assert_eq!(p.content, "");
    assert_eq!(p.content_rendered, "");
    assert_eq!(p.summary_rendered, "");
}

#[test]
fn from_source_needs_a_separator() {
    match page_from("src/a.rst", "src", "index.rst", "ok: true\nTitle\n=====\n") {
        Err(SiteError::MissingSeparator { path }) => assert_eq!(path, "/a.rst"),
        other => panic!("expected a missing separator, got {:?}", other),
    }
}

#[test]
fn from_source_names_the_document_with_bad_metadata() {
    match page_from("src/a.rst", "src", "index.rst", "- no\n- mapping\n\nTitle\n=====\n") {
        Err(SiteError::MetadataParse { path, .. }) => assert_eq!(path, "/a.rst"),
        other => panic!("expected a metadata error, got {:?}", other),
    }
}

#[test]
fn from_source_names_the_document_with_a_bad_body() {
    match page_from("src/a.rst", "src", "index.rst", "ok: true\n\nJust a paragraph.\n") {
        Err(SiteError::MalformedDocument { path, .. }) => assert_eq!(path, "/a.rst"),
        other => panic!("expected a malformed document, got {:?}", other),
    }
}

#[test]
fn draft_from_source_reads_the_block_and_keeps_the_body() {
    let draft = Draft::from_source("src/en/page.rst", "src", "index.rst", "ok: true\n\nBody\n====\n").unwrap();
    assert_eq!(draft.path, "/en/page.rst");
    assert_eq!(draft.url, "/en/page");
    assert_eq!(draft.metadata.keys(), vec!["ok"]);
    assert_eq!(draft.content, "Body\n====\n");
}

#[test]
fn from_draft_takes_what_was_rendered() {
    let draft = Draft::from_source("src/a.rst", "src", "index.rst", "ok: true\n\nbody").unwrap();
    let rendered = RenderedRst {
        title: "T".to_string(),
        summary: "<p>s</p>".to_string(),
        body: "<h1>T</h1>".to_string(),
    };
    let page = Page::from_draft(draft, Ok(rendered)).unwrap();
    assert_eq!(page.path, "/a.rst");
    assert_eq!(page.url, "/a");
    assert_eq!(page.title, "T");
    assert_eq!(page.content, "body");
    assert_eq!(page.content_rendered, "<h1>T</h1>");
    assert_eq!(page.summary_rendered, "<p>s</p>");
    let draft = Draft::from_source("src/a.rst", "src", "index.rst", "ok: true\n\nbody").unwrap();
    match Page::from_draft(draft, Err(DocumentFault::RichTitle)) {
        Err(SiteError::MalformedDocument { path, defect }) => {
            assert_eq!(path, "/a.rst");
            assert_eq!(defect, DocumentFault::RichTitle);
        },
        other => panic!("expected a malformed document, got {:?}", other),
    }
}

#[test]
fn is_well_formed_wants_a_rooted_url() {
    assert!(page("/", vec![]).is_well_formed());
    assert!(page("/a/b", vec![]).is_well_formed());
    assert!(!page("", vec![]).is_well_formed());
    assert!(!page("a", vec![]).is_well_formed());
    assert!(!page("//a", vec![]).is_well_formed());
}

use document_tree::{Document, HasChildren};
use rotuli::context::{full_context, rendered_page, sequence, text_datum, RenderedPage};
use rotuli::datum::Datum;
use rotuli::error::{DocumentFault, SiteError};
use rotuli::language::MarkupLanguage;
use rotuli::markup::{rstrender, top_level_rst_section, wants_lead, RenderedRst};
use rotuli::page::{is_below, Draft, Page, PageReference};
use rotuli::site::{index_filename, Site};

fn render_tree(document: &Document) -> Option<String> {
    let mut bytes = Vec::new();
    rst_renderer::render_html(document, &mut bytes, false).ok()?;
    String::from_utf8(bytes).ok()
}

fn render_lead(document: &Document) -> Option<String> {
    let section = top_level_rst_section(document).ok()?;
    let element = section.children().get(1)?.clone();
    render_tree(&Document::with_children(vec![element]))
}

fn render_body(s: &str) -> Result<RenderedRst, DocumentFault> {
    if s.is_empty() {
        return rstrender(s, None, None, None);
    }
    let document = rst_parser::parse(s).ok();
    let body = document.as_ref().and_then(render_tree);
    let lead = match &document {
        Some(tree) if wants_lead(tree) => render_lead(tree),
        _ => None,
    };
    rstrender(s, document.as_ref(), body, lead)
}

fn build(root: &str, sources: Vec<(&str, &str)>) -> Result<Site, SiteError> {
    let index = index_filename("index", MarkupLanguage::RestructuredText);
    let mut pages = Vec::new();
    for (path, data) in sources {
        assert!(is_below(path, root));
        let draft = Draft::from_source(path, root, &index, data)?;
        let rendered = render_body(&draft.content);
        pages.push(Page::from_draft(draft, rendered)?);
    }
    Site::new(root.to_string(), pages)
}

fn sample_sources() -> Vec<(&'static str, &'static str)> {
    vec![
        (
            "src/en/page.rst",
            "ok: true\ntemplate: page.tpl\noriginal: /\ntags: [x]\n\nPage\n====\n\nThe first paragraph.\n",
        ),
        ("src/draft.rst", "template: page.tpl\n\nDraft\n=====\n\nNot yet.\n"),
        ("src/index.rst", "title: Home\nok: true\ntemplate: home.tpl\n\nWelcome\n=======\n\nHello.\n"),
    ]
}

fn sample_site() -> Site {
    build("src", sample_sources()).unwrap()
}

fn engine(templates: Vec<(&str, &str)>) -> tera::Tera {
    let mut engine = tera::Tera::default();
    for (name, body) in templates {
        engine.add_raw_template(name, body).unwrap();
    }
    engine
}

fn causes(e: tera::Error) -> Vec<String> {
    let mut messages = vec![e.to_string()];
    let mut cause = std::error::Error::source(&e);
    while let Some(inner) = cause {
        messages.push(inner.to_string());
        cause = inner.source();
    }
    messages
}

fn render_one(site: &Site, engine: &tera::Tera, at: usize, directory: &str) -> Result<RenderedPage, SiteError> {
    let job = site.render_job(at, directory)?;
    let outcome = tera::Context::from_value(job.context_json())
        .and_then(|context| engine.render(&job.template, &context))
        .map_err(causes);
    rendered_page(&site.pages[at].path, job.output_path, outcome)
}

fn render_all(site: &Site, engine: &tera::Tera, directory: &str) -> Result<Vec<RenderedPage>, SiteError> {
    (0..site.pages.len()).map(|at| render_one(site, engine, at, directory)).collect()
}

fn lookup<'a>(d: &'a Datum, key: &str) -> &'a Datum {
    match d {
        Datum::Mapping(entries) => &entries.iter().find(|(k, _)| k == key).unwrap().1,
        other => panic!("no mapping: {:?}", other),
    }
}

#[test]
fn new_builds_a_site_of_the_pages_of_the_sources() {
    let site = sample_site();
    assert_eq!(site.directory, "src");
    assert_eq!(site.pages.len(), 2);
    assert_eq!(site.pages[0].path, "/en/page.rst");
    assert_eq!(site.pages[0].url, "/en/page");
    assert_eq!(site.pages[0].title(), "Page");
    assert_eq!(site.pages[1].path, "/index.rst");
    assert_eq!(site.pages[1].url, "/");
    assert_eq!(site.pages[1].title(), "Home");
    assert_eq!(site.pages[1].title, "Welcome");
}

#[test]
fn new_links_a_translation_to_its_original() {
    let site = sample_site();
    let index = site.page_by_url("/").unwrap();
    assert_eq!(index, PageReference(1));
    let mut urls: Vec<&str> =
        site.pages[index.0].translations.iter().map(|p| site.pages[p.0].url.as_str()).collect();
    urls.sort();
    assert_eq!(urls, vec!["/", "/en/page"]);
    // Every member of the family lists the whole family, itself among it.
    assert_eq!(site.pages[0].translations, site.pages[1].translations);
}

#[test]
fn new_refuses_an_original_that_is_no_url() {
    // The index is shown at `/`, so `/index` names no page.
    let sources = vec![
        ("src/index.rst", "ok: true\ntemplate: home.tpl\n\nHome\n====\n"),
        ("src/en/page.rst", "ok: true\ntemplate: page.tpl\noriginal: /index\n\nPage\n====\n"),
    ];
    match build("src", sources) {
        Err(SiteError::BrokenReference { path, reference }) => {
            assert_eq!(path, "/en/page.rst");
            assert_eq!(reference, "/index");
        },
        other => panic!("expected a broken reference, got {:?}", other),
    }
}

#[test]
fn new_forms_groups_of_the_pages_that_stay() {
    let site = sample_site();
    let names: Vec<&str> = site.groups.iter().map(|g| g.name.as_str()).collect();
    assert_eq!(names, vec!["ok", "original", "tags", "template", "title"]);
    assert_eq!(site.group_by_name("template").unwrap().pages, vec![PageReference(0), PageReference(1)]);
    assert_eq!(site.group_by_name("title").unwrap().pages, vec![PageReference(1)]);
}

#[test]
fn a_source_without_a_separator_is_named() {
    match build("src", vec![("src/a.rst", "ok: true\n\n"), ("src/b.rst", "no separator")]) {
        Err(SiteError::MissingSeparator { path }) => assert_eq!(path, "/b.rst"),
        other => panic!("expected a missing separator, got {:?}", other),
    }
}

#[test]
fn new_refuses_a_page_and_an_index_of_one_name() {
    let sources = vec![("src/foo.rst", "ok: true\n\n"), ("src/foo/index.rst", "ok: true\n\n")];
    match build("src", sources) {
        Err(SiteError::DuplicateUrl { url, first, second }) => {
            assert_eq!(url, "/foo/");
            assert_eq!(first, "/foo.rst");
            assert_eq!(second, "/foo/index.rst");
        },
        other => panic!("expected a duplicate, got {:?}", other),
    }
}

#[test]
fn display_urls_are_those_of_the_pages() {
    let site = sample_site();
    let urls = site.display_urls();
    assert_eq!(urls, vec!["/en/page/", "/"]);
    for (page, url) in site.pages.iter().zip(urls.iter()) {
        assert_eq!(&page.display_url().unwrap(), url);
    }
}

#[test]
fn page_context_shows_the_page() {
    let site = sample_site();
    let urls = site.display_urls();
    let cx = site.page_context(0, &urls);
    assert_eq!(lookup(&cx, "path"), &text_datum("/en/page.rst"));
    assert_eq!(lookup(&cx, "url"), &text_datum("/en/page/"));
    assert_eq!(lookup(&cx, "url").clone(), Datum::String(site.pages[0].display_url().unwrap()));
    assert_eq!(lookup(&cx, "title"), &text_datum("Page"));
    assert_eq!(lookup(&cx, "summary").clone(), Datum::String(site.pages[0].summary_rendered.clone()));
    assert_eq!(lookup(lookup(&cx, "meta"), "original"), &text_datum("/"));
    assert_eq!(lookup(lookup(&cx, "meta"), "ok"), &Datum::Bool(true));
    assert_eq!(lookup(&cx, "translations"), &sequence(vec![text_datum("/en/page/"), text_datum("/")]));
    let home = site.page_context(1, &urls);
    assert_eq!(lookup(&home, "title"), &text_datum("Home"));
    assert_eq!(lookup(&home, "url"), &text_datum("/"));
}

#[test]
fn site_context_shows_pages_and_groups() {
    let site = sample_site();
    let urls = site.display_urls();
    let cx = site.site_context("/abs/src", &urls);
    let pages = site.page_contexts(&urls);
    assert_eq!(lookup(&cx, "directory"), &text_datum("/abs/src"));
    assert_eq!(lookup(&cx, "pages"), &sequence(pages.clone()));
    match lookup(&cx, "pages_by_url") {
        Datum::Mapping(entries) => {
            assert_eq!(entries.len(), 2);
            for (at, (url, context)) in entries.iter().enumerate() {
                assert_eq!(url, &site.pages[at].display_url().unwrap());
                assert_eq!(context, &pages[at]);
            }
        },
        other => panic!("no mapping: {:?}", other),
    }
    let tags = lookup(lookup(&cx, "groups"), "tags");
    assert_eq!(lookup(tags, "name"), &text_datum("tags"));
    assert_eq!(lookup(tags, "pages"), &sequence(vec![pages[0].clone()]));
    let templates = lookup(lookup(&cx, "groups"), "template");
    assert_eq!(lookup(templates, "pages"), &sequence(pages.clone()));
}

#[test]
fn full_context_holds_site_page_and_content() {
    let cx = full_context(&text_datum("s"), &text_datum("p"), "<p>c</p>");
    assert_eq!(
        cx,
        Datum::Mapping(vec![
            ("site".to_string(), text_datum("s")),
            ("page".to_string(), text_datum("p")),
            ("content".to_string(), text_datum("<p>c</p>")),
        ])
    );
}

#[test]
fn render_job_names_template_output_and_context() {
    let site = sample_site();
    let urls = site.display_urls();
    let shared = site.site_context("/abs/src", &urls);
    let job = site.render_job(0, "/abs/src").unwrap();
    assert_eq!(job.template, "page.tpl");
    assert_eq!(job.output_path, "en/page/index.html");
    assert_eq!(lookup(&job.context, "site"), &shared);
    assert_eq!(lookup(&job.context, "page"), &site.page_context(0, &urls));
    assert_eq!(lookup(&job.context, "content").clone(), Datum::String(site.pages[0].content_rendered.clone()));
    let home = site.render_job(1, "/abs/src").unwrap();
    assert_eq!(home.template, "home.tpl");
    assert_eq!(home.output_path, "index.html");
    assert_eq!(lookup(&home.context, "site"), &shared);
}

#[test]
fn render_job_fails_on_a_page_without_a_template() {
    let site = build("src", vec![("src/a.rst", "ok: true\n\n")]).unwrap();
    match site.render_job(0, "src") {
        Err(SiteError::MissingRequiredMetadata { key }) => assert_eq!(key, "template"),
        other => panic!("expected a missing key, got {:?}", other),
    }
}

#[test]
fn context_json_is_what_the_engine_takes() {
    let site = sample_site();
    let json = site.render_job(1, "/abs/src").unwrap().context_json();
    assert_eq!(json.pointer("/page/title"), Some(&tera::Value::from("Home")));
    assert_eq!(json.pointer("/page/url"), Some(&tera::Value::from("/")));
    assert_eq!(json.pointer("/page/meta/ok"), Some(&tera::Value::Bool(true)));
    assert_eq!(json.pointer("/site/directory"), Some(&tera::Value::from("/abs/src")));
    assert_eq!(json.pointer("/site/pages/0/url"), Some(&tera::Value::from("/en/page/")));
    assert_eq!(json.pointer("/site/pages_by_url/~1en~1page~1/title"), Some(&tera::Value::from("Page")));
    assert_eq!(json.pointer("/site/groups/tags/pages/0/meta/tags/0"), Some(&tera::Value::from("x")));
    assert!(json.pointer("/content").unwrap().is_string());
}

#[test]
fn rendered_page_keeps_what_the_engine_gave() {
    let page: RenderedPage = rendered_page("/a.rst", "a/index.html".to_string(), Ok("text".to_string())).unwrap();
    assert_eq!(page.output_path, "a/index.html");
    assert_eq!(page.content, "text");
    match rendered_page("/a.rst", "a/index.html".to_string(), Err(vec!["outer".to_string(), "inner".to_string()])) {
        Err(SiteError::TemplateRender { path, messages }) => {
            assert_eq!(path, "/a.rst");
            assert_eq!(messages, vec!["outer", "inner"]);
        },
        other => panic!("expected a render failure, got {:?}", other),
    }
}

#[test]
fn every_page_is_rendered_with_its_template() {
    let site = sample_site();
    let engine = engine(vec![
        (
            "page.tpl",
            "{{ page.title }} at {{ page.url }} in {{ site.directory }}: {{ content }}\
             {% for url in page.translations %}[{{ url }}={{ site.pages_by_url[url].title }}]{% endfor %}",
        ),
        (
            "home.tpl",
            "{{ page.title }} of {{ site.pages | length }} pages, \
             {{ site.groups.tags.pages | length }} tagged {{ site.groups.tags.pages.0.meta.tags.0 }}",
        ),
    ]);
    let rendered = render_all(&site, &engine, "/abs/src").unwrap();
    assert_eq!(rendered.len(), 2);
    assert_eq!(rendered[0].output_path, "en/page/index.html");
    assert_eq!(
        rendered[0].content,
        format!(
            "Page at /en/page/ in /abs/src: {}[/en/page/=Page][/=Home]",
            site.pages[0].content_rendered
        )
    );
    assert!(rendered[0].content.contains("<p>The first paragraph.</p>"));
    assert_eq!(rendered[1].output_path, "index.html");
    assert_eq!(rendered[1].content, "Home of 2 pages, 1 tagged x");
}

#[test]
fn a_missing_template_fails_the_page() {
    let site = sample_site();
    let engine = engine(vec![("page.tpl", "{{ page.title }}")]);
    assert!(render_one(&site, &engine, 0, "src").is_ok());
    match render_one(&site, &engine, 1, "src") {
        Err(SiteError::TemplateRender { path, messages }) => {
            assert_eq!(path, "/index.rst");
            assert!(!messages.is_empty());
            assert!(messages[0].contains("home.tpl"));
        },
        other => panic!("expected a render failure, got {:?}", other),
    }
}

#[test]
fn a_failure_of_the_engine_comes_with_its_causes() {
    let site = sample_site();
    let engine = engine(vec![("page.tpl", "{{ page.missing.deeper }}"), ("home.tpl", "fine")]);
    match render_one(&site, &engine, 0, "src") {
        Err(SiteError::TemplateRender { path, messages }) => {
            assert_eq!(path, "/en/page.rst");
            assert!(messages.len() >= 2);
            assert!(messages[0].contains("page.tpl"));
        },
        other => panic!("expected a render failure, got {:?}", other),
    }
}

//! What templates see, what the template engine is to be given for each
//! page, and what becomes of its outcome.

use crate::datum::{entry_views, lemma_view_of_collections, views, Datum, DatumView};
use crate::error::{SiteError, SiteErrorView};
use crate::group::GroupView;
use crate::json::{json_form, json_of};
use crate::page::PageView;
use crate::site::{lemma_group_members, lemma_shown_urls, shown_urls, site_origins, Site, SiteView};
use crate::translation::{lemma_family, root_of};
use vstd::pervasive::unreached;
use vstd::prelude::*;

verus! {

pub const KEY_PATH: &'static str = "path";

pub const KEY_URL: &'static str = "url";

pub const KEY_TITLE: &'static str = "title";

pub const KEY_META: &'static str = "meta";

pub const KEY_SUMMARY: &'static str = "summary";

pub const KEY_TRANSLATIONS: &'static str = "translations";

pub const KEY_DIRECTORY: &'static str = "directory";

pub const KEY_PAGES: &'static str = "pages";

pub const KEY_PAGES_BY_URL: &'static str = "pages_by_url";

pub const KEY_GROUPS: &'static str = "groups";

pub const KEY_NAME: &'static str = "name";

pub const KEY_SITE: &'static str = "site";

pub const KEY_PAGE: &'static str = "page";

pub const KEY_CONTENT: &'static str = "content";

/// The text `s` as a datum.
pub open spec fn text(s: Seq<char>) -> DatumView {
    DatumView::String(s)
}

/// The URLs under which the pages at `places` are shown, as data.
pub open spec fn url_list(urls: Seq<Seq<char>>, places: Seq<int>) -> Seq<DatumView> {
    Seq::new(places.len(), |k: int| text(urls[places[k]]))
}

/// What a template sees of `page`, which is shown at `urls[at]`: its path,
/// the URL under which it is shown, its title, its metadata, its summary,
/// and the URLs under which its translations are shown.
pub open spec fn page_context(page: PageView, urls: Seq<Seq<char>>, at: int) -> DatumView {
    DatumView::Mapping(
        seq![
            (KEY_PATH@, text(page.path)),
            (KEY_URL@, text(urls[at])),
            (KEY_TITLE@, text(page.shown_title())),
            (KEY_META@, DatumView::Mapping(page.metadata)),
            (KEY_SUMMARY@, text(page.summary_rendered)),
            (KEY_TRANSLATIONS@, DatumView::Sequence(url_list(urls, page.translations))),
        ],
    )
}

/// What a template sees of each of `pages`, in their order.
pub open spec fn page_contexts(pages: Seq<PageView>, urls: Seq<Seq<char>>) -> Seq<DatumView> {
    Seq::new(pages.len(), |i: int| page_context(pages[i], urls, i))
}

/// What a template sees of `group`: its name and its pages.
pub open spec fn group_context(group: GroupView, contexts: Seq<DatumView>) -> DatumView {
    DatumView::Mapping(
        seq![
            (KEY_NAME@, text(group.name)),
            (
                KEY_PAGES@,
                DatumView::Sequence(Seq::new(group.pages.len(), |k: int| contexts[group.pages[k]])),
            ),
        ],
    )
}

/// What every template sees of the site: the directory of the sources, the
/// pages in their order, the pages by the URL under which each is shown, and
/// the groups by name.
pub open spec fn site_context(site: SiteView, directory: Seq<char>, urls: Seq<Seq<char>>) -> DatumView {
    let contexts = page_contexts(site.pages, urls);
    DatumView::Mapping(
        seq![
            (KEY_DIRECTORY@, text(directory)),
            (KEY_PAGES@, DatumView::Sequence(contexts)),
            (
                KEY_PAGES_BY_URL@,
                DatumView::Mapping(Seq::new(contexts.len(), |i: int| (urls[i], contexts[i]))),
            ),
            (
                KEY_GROUPS@,
                DatumView::Mapping(
                    Seq::new(
                        site.groups.len(),
                        |g: int| (site.groups[g].name, group_context(site.groups[g], contexts)),
                    ),
                ),
            ),
        ],
    )
}

/// What the template of one page sees: the site, the page, and the rendered
/// body of the page.
pub open spec fn render_context(shared: DatumView, page: DatumView, content: Seq<char>) -> DatumView {
    DatumView::Mapping(seq![(KEY_SITE@, shared), (KEY_PAGE@, page), (KEY_CONTENT@, text(content))])
}

/// The URLs under which the pages of a well-formed site are shown.
pub open spec fn site_urls(site: SiteView) -> Seq<Seq<char>> {
    shown_urls(site.pages, site.pages.len() as int)->Ok_0
}

/// The datum that holds the text `s`.
pub fn text_datum(s: &str) -> (d: Datum)
    ensures
        d@ == text(s@),
{
    Datum::String(s.to_owned())
}

/// The mapping with the entries `entries`.
pub fn mapping(entries: Vec<(String, Datum)>) -> (d: Datum)
    ensures
        d@ == DatumView::Mapping(entry_views(entries@)),
{
    let d = Datum::Mapping(entries);
    proof {
        lemma_view_of_collections(d);
    }
    d
}

/// The sequence with the items `items`.
pub fn sequence(items: Vec<Datum>) -> (d: Datum)
    ensures
        d@ == DatumView::Sequence(views(items@)),
{
    let d = Datum::Sequence(items);
    proof {
        lemma_view_of_collections(d);
    }
    d
}

/// One page as it left the template engine.
#[derive(Debug)]
pub struct RenderedPage {
    /// Where the page is to be written, below the output directory.
    pub output_path: String,
    /// The text of the page.
    pub content: String,
}

impl Site {
    /// The URLs under which the pages are shown, in the order of the pages.
    pub fn display_urls(&self) -> (urls: Vec<String>)
        requires
            self@.wf(),
        ensures
            urls.deep_view() == site_urls(self@),
            urls.len() == self@.pages.len(),
            forall|i: int|
                0 <= i < urls.len() ==> (#[trigger] self@.pages[i]).display_url() == Ok::<
                    Seq<char>,
                    SiteErrorView,
                >(urls@[i]@),
    {
        let ghost all = site_urls(self@);
        proof {
            lemma_shown_urls(self@.pages, self@.pages.len() as int);
            assert forall|k: int| 0 <= k < self.pages.len() implies (#[trigger] self.pages@[k])@.display_url()
                == Ok::<Seq<char>, SiteErrorView>(all[k]) by {
                assert(self@.pages[k] == self.pages@[k]@);
            }
        }
        let mut urls: Vec<String> = Vec::new();
        let mut i: usize = 0;
        while i < self.pages.len()
            invariant
                i <= self.pages.len(),
                urls.len() == i,
                all.len() == self.pages.len(),
                forall|k: int|
                    0 <= k < self.pages.len() ==> (#[trigger] self.pages@[k])@.display_url() == Ok::<
                        Seq<char>,
                        SiteErrorView,
                    >(all[k]),
                forall|k: int| 0 <= k < i ==> (#[trigger] urls@[k])@ == all[k],
            decreases self.pages.len() - i,
        {
            match self.pages[i].display_url() {
                Ok(url) => {
                    urls.push(url);
                },
                Err(_) => {
                    urls.push(unreached());
                },
            }
            i += 1;
        }
        proof {
            assert(urls.deep_view() =~= all);
        }
        urls
    }

    /// What a template sees of the page at `at`, where `urls` are the URLs
    /// under which the pages are shown, as [`Site::display_urls`] gives them.
    pub fn page_context(&self, at: usize, urls: &Vec<String>) -> (d: Datum)
        requires
            self@.wf(),
            at < self.pages.len(),
            urls.deep_view() == site_urls(self@),
        ensures
            d@ == page_context(self@.pages[at as int], site_urls(self@), at as int),
    {
        proof {
            lemma_shown_urls(self@.pages, self@.pages.len() as int);
            assert(urls.len() == urls.deep_view().len());
        }
        let page = &self.pages[at];
        let ghost view = self@.pages[at as int];
        proof {
            lemma_translations_in_range(self@, at as int);
        }
        let mut peers: Vec<Datum> = Vec::new();
        let mut k: usize = 0;
        while k < page.translations.len()
            invariant
                k <= page.translations.len(),
                peers.len() == k,
                view == page@,
                forall|j: int|
                    0 <= j < view.translations.len() ==> 0 <= #[trigger] view.translations[j]
                        < urls.len(),
                forall|j: int|
                    0 <= j < k ==> (#[trigger] peers@[j])@ == text(
                        urls.deep_view()[view.translations[j]],
                    ),
            decreases page.translations.len() - k,
        {
            let peer = page.translations[k].0;
            assert(view.translations[k as int] == peer);
            peers.push(text_datum(urls[peer].as_str()));
            k += 1;
        }
        proof {
            assert(views(peers@) =~= url_list(urls.deep_view(), view.translations));
        }
        let mut entries: Vec<(String, Datum)> = Vec::new();
        entries.push((KEY_PATH.to_owned(), text_datum(page.path.as_str())));
        entries.push((KEY_URL.to_owned(), text_datum(urls[at].as_str())));
        entries.push((KEY_TITLE.to_owned(), text_datum(page.title())));
        entries.push((KEY_META.to_owned(), mapping(clone_entries(&page.metadata.data))));
        entries.push((KEY_SUMMARY.to_owned(), text_datum(page.summary_rendered.as_str())));
        entries.push((KEY_TRANSLATIONS.to_owned(), sequence(peers)));
        let d = mapping(entries);
        proof {
            assert(d@->Mapping_0 =~= page_context(view, urls.deep_view(), at as int)->Mapping_0);
        }
        d
    }
}

/// In a well-formed site the translations of a page are pages of the site.
pub proof fn lemma_translations_in_range(site: SiteView, at: int)
    requires
        site.wf(),
        0 <= at < site.pages.len(),
    ensures
        forall|k: int|
            0 <= k < site.pages[at].translations.len() ==> 0
                <= #[trigger] site.pages[at].translations[k] < site.pages.len(),
{
    let origins = site_origins(site);
    let listed = site.pages[at].translations;
    crate::site::lemma_origins_in_range(site.pages, site.pages.len() as int);
    lemma_family(origins, root_of(origins, at), origins.len() as int);
    assert forall|k: int| 0 <= k < listed.len() implies 0 <= #[trigger] listed[k]
        < site.pages.len() by {
        assert(listed.contains(listed[k]));
    }
}

/// What the template of one page is to be given.
#[derive(Debug)]
pub struct RenderJob {
    /// The name of the template.
    pub template: String,
    /// Where the page is to be written, below the output directory.
    pub output_path: String,
    /// What the template sees.
    pub context: Datum,
}

/// What the template of one page sees: the site, the page, and the rendered
/// body of the page.
pub fn full_context(shared: &Datum, page: &Datum, content: &str) -> (d: Datum)
    ensures
        d@ == render_context(shared@, page@, content@),
{
    let mut entries: Vec<(String, Datum)> = Vec::new();
    entries.push((KEY_SITE.to_owned(), shared.clone()));
    entries.push((KEY_PAGE.to_owned(), page.clone()));
    entries.push((KEY_CONTENT.to_owned(), text_datum(content)));
    let d = mapping(entries);
    proof {
        assert(d@->Mapping_0 =~= render_context(shared@, page@, content@)->Mapping_0);
    }
    d
}

/// The page that the template engine made of the page at `path`, which goes
/// to `output_path`: the text where the engine gave one, and else a
/// `TemplateRender` with what the engine said.
pub fn rendered_page(path: &str, output_path: String, outcome: Result<String, Vec<String>>) -> (r:
    Result<RenderedPage, SiteError>)
    ensures
        match outcome {
            Ok(content) => r matches Ok(page) && page.output_path@ == output_path@ && page.content@
                == content@,
            Err(messages) => r matches Err(e) && e@ == (SiteErrorView::TemplateRender {
                path: path@,
                messages: messages.deep_view(),
            }),
        },
{
    match outcome {
        Ok(content) => Ok(RenderedPage { output_path, content }),
        Err(messages) => Err(SiteError::TemplateRender { path: path.to_owned(), messages }),
    }
}

impl Site {
    /// What a template sees of each page, in the order of the pages, where
    /// `urls` are the URLs under which the pages are shown.
    pub fn page_contexts(&self, urls: &Vec<String>) -> (contexts: Vec<Datum>)
        requires
            self@.wf(),
            urls.deep_view() == site_urls(self@),
        ensures
            views(contexts@) == page_contexts(self@.pages, site_urls(self@)),
            contexts.len() == self.pages.len(),
    {
        proof {
            lemma_shown_urls(self@.pages, self@.pages.len() as int);
            assert(urls.len() == urls.deep_view().len());
        }
        let mut contexts: Vec<Datum> = Vec::new();
        let mut i: usize = 0;
        while i < self.pages.len()
            invariant
                i <= self.pages.len(),
                contexts.len() == i,
                self@.wf(),
                urls.deep_view() == site_urls(self@),
                forall|k: int|
                    0 <= k < i ==> (#[trigger] contexts@[k])@ == page_context(
                        self@.pages[k],
                        site_urls(self@),
                        k,
                    ),
            decreases self.pages.len() - i,
        {
            contexts.push(self.page_context(i, urls));
            i += 1;
        }
        contexts
    }

    /// What every template sees of the site, where `directory` is the
    /// directory of the sources as the templates are to know it and `urls`
    /// are the URLs under which the pages are shown.
    pub fn site_context(&self, directory: &str, urls: &Vec<String>) -> (d: Datum)
        requires
            self@.wf(),
            urls.deep_view() == site_urls(self@),
        ensures
            d@ == site_context(self@, directory@, site_urls(self@)),
    {
        proof {
            lemma_shown_urls(self@.pages, self@.pages.len() as int);
            assert(urls.len() == urls.deep_view().len());
        }
        let contexts = self.page_contexts(urls);
        let ghost shown = views(contexts@);
        let mut by_url: Vec<(String, Datum)> = Vec::new();
        let mut i: usize = 0;
        while i < contexts.len()
            invariant
                i <= contexts.len(),
                contexts.len() == urls.len(),
                by_url.len() == i,
                forall|k: int|
                    0 <= k < i ==> (#[trigger] by_url@[k]).0@ == urls@[k]@ && by_url@[k].1@
                        == contexts@[k]@,
            decreases contexts.len() - i,
        {
            by_url.push((urls[i].clone(), contexts[i].clone()));
            i += 1;
        }
        let mut groups: Vec<(String, Datum)> = Vec::new();
        let mut g: usize = 0;
        while g < self.groups.len()
            invariant
                g <= self.groups.len(),
                groups.len() == g,
                self@.wf(),
                contexts.len() == self.pages.len(),
                shown == views(contexts@),
                forall|k: int|
                    0 <= k < g ==> (#[trigger] groups@[k]).0@ == self@.groups[k].name && groups@[k].1@
                        == group_context(self@.groups[k], shown),
            decreases self.groups.len() - g,
        {
            let group = &self.groups[g];
            let ghost view = self@.groups[g as int];
            proof {
                lemma_group_members(self@, g as int);
            }
            let mut members: Vec<Datum> = Vec::new();
            let mut k: usize = 0;
            while k < group.pages.len()
                invariant
                    k <= group.pages.len(),
                    members.len() == k,
                    view == group@,
                    contexts.len() == self.pages.len(),
                    shown == views(contexts@),
                    forall|j: int|
                        0 <= j < view.pages.len() ==> 0 <= #[trigger] view.pages[j]
                            < self@.pages.len(),
                    forall|j: int| 0 <= j < k ==> (#[trigger] members@[j])@ == shown[view.pages[j]],
                decreases group.pages.len() - k,
            {
                let member = group.pages[k].0;
                assert(view.pages[k as int] == member);
                members.push(contexts[member].clone());
                k += 1;
            }
            let mut entries: Vec<(String, Datum)> = Vec::new();
            entries.push((KEY_NAME.to_owned(), text_datum(group.name.as_str())));
            entries.push((KEY_PAGES.to_owned(), sequence(members)));
            let d = mapping(entries);
            proof {
                assert(views(members@) =~= Seq::new(
                    view.pages.len(),
                    |k: int| shown[view.pages[k]],
                ));
                assert(d@->Mapping_0 =~= group_context(view, shown)->Mapping_0);
            }
            groups.push((group.name.clone(), d));
            g += 1;
        }
        let ghost by_url_view = entry_views(by_url@);
        let ghost groups_view = entry_views(groups@);
        let mut entries: Vec<(String, Datum)> = Vec::new();
        entries.push((KEY_DIRECTORY.to_owned(), text_datum(directory)));
        entries.push((KEY_PAGES.to_owned(), sequence(contexts)));
        entries.push((KEY_PAGES_BY_URL.to_owned(), mapping(by_url)));
        entries.push((KEY_GROUPS.to_owned(), mapping(groups)));
        let d = mapping(entries);
        proof {
            let all = urls.deep_view();
            assert(by_url_view =~= Seq::new(shown.len(), |i: int| (all[i], shown[i])));
            assert(groups_view =~= Seq::new(
                self@.groups.len(),
                |g: int| (self@.groups[g].name, group_context(self@.groups[g], shown)),
            ));
            assert(d@->Mapping_0 =~= site_context(self@, directory@, all)->Mapping_0);
        }
        d
    }

    /// What the template of the page at `at` is to be given, where
    /// `directory` is the directory of the sources as the templates are to
    /// know it: the name of the template, the path that the page goes to, and
    /// the context, which holds the site, the page and the rendered body.
    /// A page without a template fails with what asking for its template
    /// gives.
    ///
    /// The caller hands the job to the template engine and takes the outcome
    /// to [`rendered_page`].
    pub fn render_job(&self, at: usize, directory: &str) -> (r: Result<RenderJob, SiteError>)
        requires
            self@.wf(),
            at < self.pages.len(),
        ensures
            match r {
                Ok(job) => {
                    &&& self@.pages[at as int].template_name() == Ok::<Seq<char>, SiteErrorView>(
                        job.template@,
                    )
                    &&& self@.pages[at as int].output_path() == Ok::<Seq<char>, SiteErrorView>(
                        job.output_path@,
                    )
                    &&& job.context@ == job_context(self@, directory@, at as int)
                },
                Err(e) => self@.pages[at as int].template_name() == Err::<
                    Seq<char>,
                    SiteErrorView,
                >(e@),
            },
    {
        let page = &self.pages[at];
        proof {
            lemma_shown_urls(self@.pages, self@.pages.len() as int);
        }
        let template = match page.template_name() {
            Err(e) => {
                return Err(e);
            },
            Ok(name) => name.to_owned(),
        };
        let output_path = match page.output_path() {
            Ok(path) => path,
            Err(_) => unreached(),
        };
        let urls = self.display_urls();
        let shared = self.site_context(directory, &urls);
        let own = self.page_context(at, &urls);
        let context = full_context(&shared, &own, page.content_rendered.as_str());
        Ok(RenderJob { template, output_path, context })
    }
}

/// What the template of the page at `at` sees: the site, with every page
/// under the URL at which it is shown; the page; and its rendered body.
pub open spec fn job_context(site: SiteView, directory: Seq<char>, at: int) -> DatumView {
    render_context(
        site_context(site, directory, site_urls(site)),
        page_context(site.pages[at], site_urls(site), at),
        site.pages[at].content_rendered,
    )
}

/// In a well-formed site the URLs under which the pages are shown are those
/// that the pages give: the context of a page holds its display URL under
/// `url`, and the site's pages are keyed by their display URLs.
pub proof fn lemma_site_urls(site: SiteView, at: int)
    requires
        site.wf(),
        0 <= at < site.pages.len(),
    ensures
        site_urls(site).len() == site.pages.len(),
        site.pages[at].display_url() == Ok::<Seq<char>, SiteErrorView>(site_urls(site)[at]),
{
    lemma_shown_urls(site.pages, site.pages.len() as int);
}

impl RenderJob {
    /// The context in the form that the template engine takes.
    pub fn context_json(&self) -> (v: tera::Value)
        ensures
            v == json_form(self.context@),
    {
        json_of(&self.context)
    }
}

/// A copy of `entries`.
pub fn clone_entries(entries: &Vec<(String, Datum)>) -> (copy: Vec<(String, Datum)>)
    ensures
        entry_views(copy@) == entry_views(entries@),
{
    let mut copy: Vec<(String, Datum)> = Vec::new();
    let mut i: usize = 0;
    while i < entries.len()
        invariant
            i <= entries.len(),
            copy.len() == i,
            forall|k: int|
                0 <= k < i ==> (#[trigger] copy@[k]).0@ == entries@[k].0@ && copy@[k].1@
                    == entries@[k].1@,
        decreases entries.len() - i,
    {
        copy.push((entries[i].0.clone(), entries[i].1.clone()));
        i += 1;
    }
    copy
}

} // verus!

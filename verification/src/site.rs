//! The site: how pages are sifted, compared, grouped and linked.

use crate::error::{SiteError, SiteErrorView};
use crate::group::{
    is_held, is_key_index, key_index, lemma_members_hold_key, members_of, pages_by_metadata_key,
    Group, GroupView,
};
use crate::metadata::{bool_under, has_key, key_list, lemma_listed_key_is_held};
use crate::page::{group_places, GroupReference, Page, PageReference, PageView};
use crate::language::MarkupLanguage;
use crate::text::{file_stem, same_text, stem};
use crate::translation::{
    chain_free, find_origins, find_page, first_answer, lemma_translations_agree, origin_places,
    origins_in_range, origins_of, translations_for, translations_of,
};
use vstd::pervasive::unreached;
use vstd::prelude::*;

verus! {

/// The metadata key by which a page asks to be published.
pub const MAGIC_META_OK: &'static str = "ok";

/// All the pages of a site, and the groups that their metadata keys form.
#[derive(Debug)]
pub struct Site {
    /// The directory of the sources.
    pub directory: String,
    pub pages: Vec<Page>,
    pub groups: Vec<Group>,
}

/// The mathematical content of a [`Site`].
pub struct SiteView {
    pub directory: Seq<char>,
    pub pages: Seq<PageView>,
    pub groups: Seq<GroupView>,
}

impl View for Site {
    type V = SiteView;

    open spec fn view(&self) -> SiteView {
        SiteView {
            directory: self.directory@,
            pages: self.pages.deep_view(),
            groups: self.groups.deep_view(),
        }
    }
}

/// Whether `a` and `b` are one document: they differ at most in the groups
/// and translations that a site attaches.
pub open spec fn same_document(a: PageView, b: PageView) -> bool {
    &&& a.path == b.path
    &&& a.url == b.url
    &&& a.title == b.title
    &&& a.metadata == b.metadata
    &&& a.content == b.content
    &&& a.content_rendered == b.content_rendered
    &&& a.summary_rendered == b.summary_rendered
}

/// Whether `a` and `b` hold the same documents in the same order.
pub open spec fn same_documents(a: Seq<PageView>, b: Seq<PageView>) -> bool {
    &&& a.len() == b.len()
    &&& forall|i: int| 0 <= i < a.len() ==> same_document(#[trigger] a[i], b[i])
}

/// Whether `page` asks to be published, or the error that asking gives.
pub open spec fn publish_flag(page: PageView) -> Result<bool, SiteErrorView> {
    match bool_under(page.metadata, MAGIC_META_OK@, false) {
        Some(flag) => Ok(flag),
        None => Err(SiteErrorView::TypeMismatch { key: MAGIC_META_OK@ }),
    }
}

/// Those of the first `count` pages that ask to be published, in their
/// order, or the error of the first page that asking fails on.
pub open spec fn published(pages: Seq<PageView>, count: int) -> Result<
    Seq<PageView>,
    SiteErrorView,
>
    decreases count,
{
    if count <= 0 {
        Ok(Seq::empty())
    } else {
        match published(pages, count - 1) {
            Err(e) => Err(e),
            Ok(before) => match publish_flag(pages[count - 1]) {
                Err(e) => Err(e),
                Ok(true) => Ok(before.push(pages[count - 1])),
                Ok(false) => Ok(before),
            },
        }
    }
}

/// The URLs under which the first `count` pages are shown, or the error of
/// the first page that has none.
pub open spec fn shown_urls(pages: Seq<PageView>, count: int) -> Result<
    Seq<Seq<char>>,
    SiteErrorView,
>
    decreases count,
{
    if count <= 0 {
        Ok(Seq::empty())
    } else {
        match shown_urls(pages, count - 1) {
            Err(e) => Err(e),
            Ok(before) => match pages[count - 1].display_url() {
                Err(e) => Err(e),
                Ok(url) => Ok(before.push(url)),
            },
        }
    }
}

/// Whether no two of `urls` are equal.
pub open spec fn distinct(urls: Seq<Seq<char>>) -> bool {
    forall|i: int, j: int| 0 <= i < j < urls.len() ==> urls[i] != urls[j]
}

/// Whether the URL at `j` is the first of `urls` that was taken before, and
/// the one at `i` is the one that took it.
pub open spec fn is_first_clash(urls: Seq<Seq<char>>, i: int, j: int) -> bool {
    &&& 0 <= i < j < urls.len()
    &&& urls[i] == urls[j]
    &&& distinct(urls.take(j))
}

/// The names of `groups`, in their order.
pub open spec fn group_names(groups: Seq<GroupView>) -> Seq<Seq<char>> {
    Seq::new(groups.len(), |g: int| groups[g].name)
}

/// Whether `groups` are the groups of `pages`: one for each key that some
/// page holds, in the order of a dictionary, each with the pages that hold
/// its key.
pub open spec fn groups_match(groups: Seq<GroupView>, pages: Seq<PageView>) -> bool {
    &&& is_key_index(group_names(groups), pages)
    &&& forall|g: int|
        0 <= g < groups.len() ==> (#[trigger] groups[g]).pages == members_of(pages, groups[g].name)
}

/// Whether `listed` are the places in `names` of `keys`, key by key.
pub open spec fn are_positions(listed: Seq<int>, names: Seq<Seq<char>>, keys: Seq<Seq<char>>) -> bool {
    &&& listed.len() == keys.len()
    &&& forall|k: int|
        0 <= k < listed.len() ==> 0 <= #[trigger] listed[k] < names.len() && names[listed[k]]
            == keys[k]
}

/// Whether each page lists the pages of its family as its translations.
pub open spec fn translations_match(pages: Seq<PageView>) -> bool {
    &&& origins_of(pages, pages.len() as int) matches Ok(origins)
    &&& forall|i: int|
        0 <= i < pages.len() ==> (#[trigger] pages[i]).translations == translations_for(origins, i)
}

/// Whether `pages` can form a site: each says whether it is to be published,
/// those that are have a URL to be shown at, no two of them the same, and
/// each original that one of them names is among them.
pub open spec fn can_assemble(pages: Seq<PageView>) -> bool {
    &&& published(pages, pages.len() as int) matches Ok(kept)
    &&& shown_urls(kept, kept.len() as int) matches Ok(urls)
    &&& distinct(urls)
    &&& origins_of(kept, kept.len() as int) is Ok
}

/// Whether `e` is what is wrong with the URLs of `pages`: the error of the
/// first page that has no URL to be shown at, or else the first clash of two
/// pages at one URL.
pub open spec fn is_url_fault(pages: Seq<PageView>, e: SiteErrorView) -> bool {
    match shown_urls(pages, pages.len() as int) {
        Err(fault) => e == fault,
        Ok(urls) => exists|i: int, j: int|
            #![trigger urls[i], urls[j]]
            is_first_clash(urls, i, j) && e == (SiteErrorView::DuplicateUrl {
                url: urls[j],
                first: pages[i].path,
                second: pages[j].path,
            }),
    }
}

/// Whether `e` is what keeps `pages` from forming a site: the first thing
/// that fails when the pages are sifted, then their URLs compared, then
/// their originals looked up.
pub open spec fn is_assembly_fault(pages: Seq<PageView>, e: SiteErrorView) -> bool {
    match published(pages, pages.len() as int) {
        Err(fault) => e == fault,
        Ok(kept) => if shown_urls(kept, kept.len() as int) matches Ok(urls) && distinct(urls) {
            origins_of(kept, kept.len() as int) == Err::<Seq<Option<int>>, SiteErrorView>(e)
        } else {
            is_url_fault(kept, e)
        },
    }
}

impl SiteView {
    /// Whether the site is well-formed.
    pub open spec fn wf(self) -> bool {
        &&& forall|i: int| 0 <= i < self.pages.len() ==> (#[trigger] self.pages[i]).wf()
        &&& forall|i: int|
            0 <= i < self.pages.len() ==> publish_flag(#[trigger] self.pages[i]) == Ok::<
                bool,
                SiteErrorView,
            >(true)
        &&& shown_urls(self.pages, self.pages.len() as int) matches Ok(urls) && distinct(urls)
        &&& groups_match(self.groups, self.pages)
        &&& forall|i: int|
            0 <= i < self.pages.len() ==> are_positions(
                (#[trigger] self.pages[i]).groups,
                group_names(self.groups),
                key_list(self.pages[i].metadata),
            )
        &&& translations_match(self.pages)
    }
}

/// The URL at `at` is the one under which the page at `at` is shown.
pub proof fn lemma_shown_urls(pages: Seq<PageView>, count: int)
    requires
        0 <= count <= pages.len(),
    ensures
        shown_urls(pages, count) matches Ok(urls) ==> {
            &&& urls.len() == count
            &&& forall|i: int|
                0 <= i < count ==> (#[trigger] pages[i]).display_url() == Ok::<
                    Seq<char>,
                    SiteErrorView,
                >(urls[i])
        },
    decreases count,
{
    if count > 0 {
        lemma_shown_urls(pages, count - 1);
    }
}

/// Once a page has failed, the failure is that of the whole list.
pub proof fn lemma_published_error_stays(pages: Seq<PageView>, count: int, more: int)
    requires
        0 <= count <= more,
        published(pages, count) is Err,
    ensures
        published(pages, more) == published(pages, count),
    decreases more - count,
{
    if count < more {
        lemma_published_error_stays(pages, count, more - 1);
    }
}

/// Once a page has failed, the failure is that of the whole list.
pub proof fn lemma_shown_error_stays(pages: Seq<PageView>, count: int, more: int)
    requires
        0 <= count <= more,
        shown_urls(pages, count) is Err,
    ensures
        shown_urls(pages, more) == shown_urls(pages, count),
    decreases more - count,
{
    if count < more {
        lemma_shown_error_stays(pages, count, more - 1);
    }
}

/// Every page that was published asked for it.
pub proof fn lemma_published_asked(pages: Seq<PageView>, count: int)
    requires
        0 <= count <= pages.len(),
    ensures
        published(pages, count) matches Ok(kept) ==> forall|i: int|
            0 <= i < kept.len() ==> publish_flag(#[trigger] kept[i]) == Ok::<bool, SiteErrorView>(
                true,
            ),
    decreases count,
{
    if count > 0 {
        lemma_published_asked(pages, count - 1);
    }
}

/// What groups and translations a site has attached to its pages does not
/// change which page a target means.
pub proof fn lemma_first_answer_frame(a: Seq<PageView>, b: Seq<PageView>, target: Seq<char>)
    requires
        same_documents(a, b),
    ensures
        first_answer(a, target) == first_answer(b, target),
    decreases a.len(),
{
    if a.len() > 0 {
        lemma_first_answer_frame(a.drop_last(), b.drop_last(), target);
    }
}

/// What a site has attached to its pages does not change their origins.
pub proof fn lemma_origins_frame(a: Seq<PageView>, b: Seq<PageView>, count: int)
    requires
        same_documents(a, b),
        0 <= count <= a.len(),
    ensures
        origins_of(a, count) == origins_of(b, count),
    decreases count,
{
    if count > 0 {
        lemma_origins_frame(a, b, count - 1);
        match crate::metadata::lookup(a[count - 1].metadata, crate::translation::MAGIC_META_ORIGINAL@) {
            Some(crate::datum::DatumView::String(reference)) => {
                lemma_first_answer_frame(
                    a,
                    b,
                    crate::translation::resolve(reference, a[count - 1].url),
                );
            },
            _ => {},
        }
    }
}

/// What a site has attached to its pages does not change the members of a
/// group.
pub proof fn lemma_members_frame(a: Seq<PageView>, b: Seq<PageView>, key: Seq<char>)
    requires
        same_documents(a, b),
    ensures
        members_of(a, key) == members_of(b, key),
    decreases a.len(),
{
    if a.len() > 0 {
        lemma_members_frame(a.drop_last(), b.drop_last(), key);
    }
}

/// What a site has attached to its pages does not change their URLs.
pub proof fn lemma_shown_frame(a: Seq<PageView>, b: Seq<PageView>, count: int)
    requires
        same_documents(a, b),
        0 <= count <= a.len(),
    ensures
        shown_urls(a, count) == shown_urls(b, count),
    decreases count,
{
    if count > 0 {
        lemma_shown_frame(a, b, count - 1);
    }
}

/// What a site has attached to its pages does not change the index of their
/// keys.
pub proof fn lemma_key_index_frame(names: Seq<Seq<char>>, a: Seq<PageView>, b: Seq<PageView>)
    requires
        same_documents(a, b),
        is_key_index(names, a),
    ensures
        is_key_index(names, b),
{
    assert forall|key: Seq<char>| #[trigger] names.contains(key) <==> is_held(b, key) by {
        if is_held(b, key) {
            let i = choose|i: int| 0 <= i < b.len() && has_key(#[trigger] b[i].metadata, key);
            assert(same_document(a[i], b[i]));
        }
    }
}

/// Each origin of a list of pages is a place in the list.
pub proof fn lemma_origins_in_range(pages: Seq<PageView>, count: int)
    requires
        0 <= count <= pages.len(),
    ensures
        origins_of(pages, count) matches Ok(origins) ==> {
            &&& origins.len() == count
            &&& forall|p: int|
                0 <= p < count ==> (#[trigger] origins[p] matches Some(o) ==> 0 <= o < pages.len())
        },
    decreases count,
{
    if count > 0 {
        lemma_origins_in_range(pages, count - 1);
        match crate::metadata::lookup(
            pages[count - 1].metadata,
            crate::translation::MAGIC_META_ORIGINAL@,
        ) {
            Some(crate::datum::DatumView::String(reference)) => {
                crate::translation::lemma_first_answer(
                    pages,
                    crate::translation::resolve(reference, pages[count - 1].url),
                );
            },
            _ => {},
        }
    }
}

/// In a well-formed site every member of a group is a page whose metadata
/// holds the key of the group, every page whose metadata holds the key is a
/// member, and no page is a member twice.
pub proof fn lemma_group_members(site: SiteView, g: int)
    requires
        site.wf(),
        0 <= g < site.groups.len(),
    ensures
        forall|k: int|
            0 <= k < site.groups[g].pages.len() ==> {
                &&& 0 <= #[trigger] site.groups[g].pages[k] < site.pages.len()
                &&& has_key(site.pages[site.groups[g].pages[k]].metadata, site.groups[g].name)
            },
        forall|p: int|
            0 <= p < site.pages.len() && has_key(
                (#[trigger] site.pages[p]).metadata,
                site.groups[g].name,
            ) ==> site.groups[g].pages.contains(p),
        forall|a: int, b: int|
            0 <= a < b < site.groups[g].pages.len() ==> site.groups[g].pages[a]
                != site.groups[g].pages[b],
{
    lemma_members_hold_key(site.pages, site.groups[g].name);
}

/// In a well-formed site the key of every group is held by some page, and
/// every key that a page holds has its group.
pub proof fn lemma_groups_cover_keys(site: SiteView, key: Seq<char>)
    requires
        site.wf(),
    ensures
        is_held(site.pages, key) <==> exists|g: int|
            0 <= g < site.groups.len() && (#[trigger] site.groups[g]).name == key,
{
    let names = group_names(site.groups);
    if names.contains(key) {
        let g = choose|g: int| 0 <= g < names.len() && names[g] == key;
        assert(site.groups[g].name == key);
    }
    if exists|g: int| 0 <= g < site.groups.len() && (#[trigger] site.groups[g]).name == key {
        let g = choose|g: int| 0 <= g < site.groups.len() && (#[trigger] site.groups[g]).name == key;
        assert(names[g] == key);
    }
}

/// The origins of the pages of a well-formed site.
pub open spec fn site_origins(site: SiteView) -> Seq<Option<int>> {
    origins_of(site.pages, site.pages.len() as int)->Ok_0
}

/// In a well-formed site all pages of one family list the same translations:
/// where the page at `b` is among the translations of the page at `a`, the
/// two lists are equal, item by item.
///
/// This holds where no translation is itself named as the original of
/// another page.
pub proof fn lemma_translation_lists_agree(site: SiteView, a: int, b: int)
    requires
        site.wf(),
        chain_free(site_origins(site)),
        0 <= a < site.pages.len(),
        site.pages[a].translations.contains(b),
    ensures
        0 <= b < site.pages.len(),
        site.pages[b].translations == site.pages[a].translations,
{
    let origins = site_origins(site);
    lemma_origins_in_range(site.pages, site.pages.len() as int);
    lemma_translations_agree(origins, a, b);
}

/// Pages of which two would be shown at the same URL form no site: putting
/// them together fails, and what it fails with is a `DuplicateUrl`.
pub proof fn lemma_duplicate_urls_fail(pages: Seq<PageView>, e: SiteErrorView)
    requires
        published(pages, pages.len() as int) matches Ok(kept) && shown_urls(
            kept,
            kept.len() as int,
        ) matches Ok(urls) && !distinct(urls),
    ensures
        !can_assemble(pages),
        is_assembly_fault(pages, e) ==> e is DuplicateUrl,
{
}

/// In a well-formed site no two pages are shown at the same URL.
pub proof fn lemma_urls_are_distinct(site: SiteView, a: int, b: int)
    requires
        site.wf(),
        0 <= a < site.pages.len(),
        0 <= b < site.pages.len(),
        a != b,
    ensures
        site.pages[a].display_url() is Ok,
        site.pages[b].display_url() is Ok,
        site.pages[a].display_url() != site.pages[b].display_url(),
{
    lemma_shown_urls(site.pages, site.pages.len() as int);
    let urls = shown_urls(site.pages, site.pages.len() as int)->Ok_0;
    if a < b {
        assert(urls[a] != urls[b]);
    } else {
        assert(urls[b] != urls[a]);
    }
}

/// The pattern that finds the sources of a site at `source`: every file
/// below it, at any depth, with the extension of the language.
pub open spec fn pattern_of(source: Seq<char>, language: MarkupLanguage) -> Seq<char> {
    source + "/**/*."@ + language.name()
}

/// The pattern that finds the sources of a site at `source`.
pub fn source_pattern(source: &str, language: MarkupLanguage) -> (pattern: String)
    ensures
        pattern@ == pattern_of(source@, language),
{
    let mut pattern = source.to_owned();
    pattern.append("/**/*.");
    pattern.append(language.to_string().as_str());
    pattern
}

/// The name of the file that stands for its directory: `directory_index`
/// with the extension of the language in place of its own, if it has one.
pub open spec fn index_name(directory_index: Seq<char>, language: MarkupLanguage) -> Seq<char> {
    stem(directory_index) + seq!['.'] + language.name()
}

/// The name of the file that stands for its directory.
pub fn index_filename(directory_index: &str, language: MarkupLanguage) -> (name: String)
    ensures
        name@ == index_name(directory_index@, language),
{
    let mut name = file_stem(directory_index);
    let dot = ".";
    proof {
        reveal_strlit(".");
    }
    name.append(dot);
    name.append(language.to_string().as_str());
    name
}

/// The group among `groups` that is named `name`.
pub fn find_group(groups: &Vec<Group>, name: &str) -> (r: Option<GroupReference>)
    ensures
        match r {
            Some(g) => {
                &&& g.0 < groups.len()
                &&& groups@[g.0 as int].name@ == name@
                &&& forall|j: int| 0 <= j < g.0 ==> (#[trigger] groups@[j]).name@ != name@
            },
            None => forall|j: int| 0 <= j < groups.len() ==> (#[trigger] groups@[j]).name@ != name@,
        },
{
    let mut i: usize = 0;
    while i < groups.len()
        invariant
            i <= groups.len(),
            forall|j: int| 0 <= j < i ==> (#[trigger] groups@[j]).name@ != name@,
        decreases groups.len() - i,
    {
        if same_text(groups[i].name.as_str(), name) {
            return Some(GroupReference(i));
        }
        i += 1;
    }
    None
}

/// The groups of the keys `keys`, key by key.
pub fn groups_of_keys(groups: &Vec<Group>, keys: &Vec<String>) -> (r: Vec<GroupReference>)
    requires
        forall|k: int|
            0 <= k < keys.len() ==> group_names(groups.deep_view()).contains(
                #[trigger] keys@[k]@,
            ),
    ensures
        are_positions(group_places(r@), group_names(groups.deep_view()), keys.deep_view()),
{
    let mut r: Vec<GroupReference> = Vec::new();
    let mut k: usize = 0;
    let ghost names = group_names(groups.deep_view());
    while k < keys.len()
        invariant
            k <= keys.len(),
            r.len() == k,
            names == group_names(groups.deep_view()),
            forall|j: int| 0 <= j < keys.len() ==> names.contains(#[trigger] keys@[j]@),
            forall|j: int|
                0 <= j < k ==> (#[trigger] r@[j]).0 < groups.len() && names[r@[j].0 as int]
                    == keys@[j]@,
        decreases keys.len() - k,
    {
        match find_group(groups, keys[k].as_str()) {
            Some(g) => {
                r.push(g);
            },
            None => {
                proof {
                    let key = keys@[k as int]@;
                    let at = choose|at: int| 0 <= at < names.len() && names[at] == key;
                    assert(groups@[at].name@ == key);
                }
                r.push(unreached());
            },
        }
        k += 1;
    }
    proof {
        let listed = group_places(r@);
        assert forall|j: int| 0 <= j < listed.len() implies 0 <= #[trigger] listed[j]
            < names.len() && names[listed[j]] == keys.deep_view()[j] by {
            assert(listed[j] == r@[j].0 as int);
        }
    }
    r
}

/// Those of `pages` that ask to be published, in their order: a page whose
/// metadata holds `ok: true` stays, any other is dropped. A page whose `ok`
/// is no truth value fails the whole.
#[verifier::loop_isolation(false)]
pub fn sift(pages: Vec<Page>) -> (r: Result<Vec<Page>, SiteError>)
    ensures
        match r {
            Ok(kept) => {
                &&& published(pages.deep_view(), pages.len() as int) == Ok::<
                    Seq<PageView>,
                    SiteErrorView,
                >(kept.deep_view())
                &&& (forall|i: int| 0 <= i < pages.len() ==> (#[trigger] pages@[i]).wf())
                    ==> forall|i: int| 0 <= i < kept.len() ==> (#[trigger] kept@[i]).wf()
            },
            Err(e) => published(pages.deep_view(), pages.len() as int) == Err::<
                Seq<PageView>,
                SiteErrorView,
            >(e@),
        },
{
    let ghost all = pages.deep_view();
    let ghost given = pages@;
    let mut kept: Vec<Page> = Vec::new();
    proof {
        assert(kept.deep_view() =~= Seq::<PageView>::empty());
    }
    for page in it: pages.into_iter()
        invariant
            it.seq() == given,
            all.len() == given.len(),
            forall|i: int| 0 <= i < given.len() ==> all[i] == (#[trigger] given[i])@,
            published(all, it.index()) == Ok::<Seq<PageView>, SiteErrorView>(kept.deep_view()),
            (forall|i: int| 0 <= i < given.len() ==> (#[trigger] given[i]).wf()) ==> forall|i: int|
                0 <= i < kept.len() ==> (#[trigger] kept@[i]).wf(),
    {
        let ghost before = kept.deep_view();
        match page.metadata.get_bool_or_false(MAGIC_META_OK) {
            Err(e) => {
                proof {
                    lemma_published_error_stays(all, it.index() + 1, all.len() as int);
                }
                return Err(e);
            },
            Ok(true) => {
                kept.push(page);
                proof {
                    assert(kept.deep_view() =~= before.push(page@));
                }
            },
            Ok(false) => {},
        }
    }
    Ok(kept)
}

/// Makes sure that no two of `pages` are shown at the same URL. The first
/// page whose URL has been taken before fails the whole, and so does a page
/// that has no URL to be shown at.
pub fn check_urls(pages: &Vec<Page>) -> (r: Result<(), SiteError>)
    ensures
        match r {
            Ok(_) => shown_urls(pages.deep_view(), pages.len() as int) matches Ok(urls) && distinct(
                urls,
            ),
            Err(e) => is_url_fault(pages.deep_view(), e@),
        },
{
    let ghost view = pages.deep_view();
    let mut shown: Vec<String> = Vec::new();
    let mut i: usize = 0;
    proof {
        assert(shown.deep_view() =~= Seq::<Seq<char>>::empty());
    }
    while i < pages.len()
        invariant
            i <= pages.len(),
            view == pages.deep_view(),
            shown.len() == i,
            shown_urls(view, i as int) == Ok::<Seq<Seq<char>>, SiteErrorView>(shown.deep_view()),
        decreases pages.len() - i,
    {
        let ghost before = shown.deep_view();
        match pages[i].display_url() {
            Err(e) => {
                proof {
                    lemma_shown_error_stays(view, i + 1, view.len() as int);
                }
                return Err(e);
            },
            Ok(url) => {
                shown.push(url);
                proof {
                    assert(shown.deep_view() =~= before.push(url@));
                }
            },
        }
        i += 1;
    }
    let ghost urls = shown.deep_view();
    let mut j: usize = 0;
    while j < shown.len()
        invariant
            j <= shown.len(),
            shown.len() == pages.len(),
            urls == shown.deep_view(),
            view == pages.deep_view(),
            shown_urls(view, view.len() as int) == Ok::<Seq<Seq<char>>, SiteErrorView>(urls),
            distinct(urls.take(j as int)),
        decreases shown.len() - j,
    {
        let mut i: usize = 0;
        while i < j
            invariant
                i <= j < shown.len(),
                shown.len() == pages.len(),
                urls == shown.deep_view(),
                view == pages.deep_view(),
                shown_urls(view, view.len() as int) == Ok::<Seq<Seq<char>>, SiteErrorView>(urls),
                distinct(urls.take(j as int)),
                forall|k: int| 0 <= k < i ==> urls[k] != urls[j as int],
            decreases j - i,
        {
            if same_text(shown[i].as_str(), shown[j].as_str()) {
                let e = SiteError::DuplicateUrl {
                    url: shown[j].clone(),
                    first: pages[i].path.clone(),
                    second: pages[j].path.clone(),
                };
                proof {
                    assert(is_first_clash(urls, i as int, j as int));
                    assert(e@ == (SiteErrorView::DuplicateUrl {
                        url: urls[j as int],
                        first: view[i as int].path,
                        second: view[j as int].path,
                    }));
                    assert(exists|a: int, b: int|
                        #![trigger urls[a], urls[b]]
                        is_first_clash(urls, a, b) && e@ == (SiteErrorView::DuplicateUrl {
                            url: urls[b],
                            first: view[a].path,
                            second: view[b].path,
                        }));
                    assert(shown_urls(view, view.len() as int)->Ok_0 == urls);
                }
                return Err(e);
            }
            i += 1;
        }
        proof {
            let wider = urls.take(j + 1);
            assert forall|a: int, b: int| 0 <= a < b < wider.len() implies wider[a] != wider[b] by {
                if b < j {
                    assert(urls.take(j as int)[a] != urls.take(j as int)[b]);
                }
            }
        }
        j += 1;
    }
    proof {
        assert(urls.take(j as int) =~= urls);
    }
    Ok(())
}

/// The groups of `pages`: one for each key that some page holds, in the
/// order of a dictionary, each with the pages that hold its key.
pub fn form_groups(pages: &Vec<Page>) -> (groups: Vec<Group>)
    ensures
        groups_match(groups.deep_view(), pages.deep_view()),
{
    let names = key_index(pages);
    let mut groups: Vec<Group> = Vec::new();
    let mut g: usize = 0;
    while g < names.len()
        invariant
            g <= names.len(),
            groups.len() == g,
            forall|k: int|
                0 <= k < g ==> (#[trigger] groups@[k])@.name == names@[k]@ && groups@[k]@.pages
                    == members_of(pages.deep_view(), names@[k]@),
        decreases names.len() - g,
    {
        let members = pages_by_metadata_key(pages, names[g].as_str());
        groups.push(Group::new(names[g].as_str(), members));
        g += 1;
    }
    proof {
        assert(group_names(groups.deep_view()) =~= names.deep_view());
    }
    groups
}

/// `pages`, each with its groups among `groups` and with its translations
/// as `origins` tell them.
pub fn attach(pages: Vec<Page>, groups: &Vec<Group>, origins: &Vec<Option<usize>>) -> (joined: Vec<
    Page,
>)
    requires
        is_key_index(group_names(groups.deep_view()), pages.deep_view()),
        origins.len() == pages.len(),
        origins_in_range(origin_places(origins@)),
    ensures
        same_documents(joined.deep_view(), pages.deep_view()),
        forall|i: int|
            0 <= i < joined.len() ==> {
                &&& are_positions(
                    (#[trigger] joined.deep_view()[i]).groups,
                    group_names(groups.deep_view()),
                    key_list(pages.deep_view()[i].metadata),
                )
                &&& joined.deep_view()[i].translations == translations_for(
                    origin_places(origins@),
                    i,
                )
            },
{
    let ghost view = pages.deep_view();
    let ghost given = pages@;
    let ghost names = group_names(groups.deep_view());
    let mut joined: Vec<Page> = Vec::new();
    let mut n: usize = 0;
    for page in it: pages.into_iter()
        invariant
            it.seq() == given,
            n == it.index(),
            joined.len() == n,
            given.len() == view.len(),
            origins.len() == view.len(),
            origins_in_range(origin_places(origins@)),
            names == group_names(groups.deep_view()),
            is_key_index(names, view),
            forall|i: int| 0 <= i < given.len() ==> view[i] == (#[trigger] given[i])@,
            forall|i: int|
                0 <= i < n ==> {
                    &&& same_document((#[trigger] joined@[i])@, view[i])
                    &&& are_positions(joined@[i]@.groups, names, key_list(view[i].metadata))
                    &&& joined@[i]@.translations == translations_for(origin_places(origins@), i)
                },
    {
        let keys = page.metadata.keys();
        proof {
            assert forall|k: int| 0 <= k < keys.len() implies names.contains(
                #[trigger] keys@[k]@,
            ) by {
                assert(keys.deep_view().len() == key_list(page@.metadata).len());
                lemma_listed_key_is_held(page@.metadata, k);
                assert(keys@[k]@ == keys.deep_view()[k]);
                assert(has_key(view[n as int].metadata, keys@[k]@));
            }
        }
        let page_groups = groups_of_keys(groups, &keys);
        let page_translations = translations_of(origins, n);
        joined.push(
            Page {
                path: page.path,
                url: page.url,
                title: page.title,
                metadata: page.metadata,
                content: page.content,
                content_rendered: page.content_rendered,
                summary_rendered: page.summary_rendered,
                groups: page_groups,
                translations: page_translations,
            },
        );
        n += 1;
    }
    proof {
        assert forall|i: int| 0 <= i < joined.len() implies same_document(
            #[trigger] joined.deep_view()[i],
            view[i],
        ) by {
            assert(joined.deep_view()[i] == joined@[i]@);
        }
        assert forall|i: int| 0 <= i < joined.len() implies {
            &&& are_positions(
                (#[trigger] joined.deep_view()[i]).groups,
                names,
                key_list(view[i].metadata),
            )
            &&& joined.deep_view()[i].translations == translations_for(origin_places(origins@), i)
        } by {
            assert(joined.deep_view()[i] == joined@[i]@);
        }
    }
    joined
}

impl Site {
    /// The site of those of `pages` that ask to be published, in a source
    /// tree at `directory`.
    ///
    /// The pages are sifted first: one whose metadata holds `ok: true` stays,
    /// any other is dropped and takes no further part. No two of the pages
    /// that stay may be shown at the same URL. Then the groups are formed,
    /// the original of each page is looked up, and each page is given its
    /// groups and its translations.
    pub fn new(directory: String, pages: Vec<Page>) -> (r: Result<Site, SiteError>)
        requires
            forall|i: int| 0 <= i < pages.len() ==> (#[trigger] pages@[i]).wf(),
        ensures
            match r {
                Ok(site) => {
                    &&& can_assemble(pages.deep_view())
                    &&& site@.wf()
                    &&& site@.directory == directory@
                    &&& same_documents(
                        site@.pages,
                        published(pages.deep_view(), pages.len() as int)->Ok_0,
                    )
                },
                Err(e) => is_assembly_fault(pages.deep_view(), e@),
            },
    {
        let ghost all = pages.deep_view();
        let kept = match sift(pages) {
            Err(e) => {
                return Err(e);
            },
            Ok(kept) => kept,
        };
        let ghost kept_view = kept.deep_view();
        match check_urls(&kept) {
            Err(e) => {
                return Err(e);
            },
            Ok(_) => {},
        }
        let groups = form_groups(&kept);
        let origins = match find_origins(&kept) {
            Err(e) => {
                return Err(e);
            },
            Ok(origins) => origins,
        };
        let joined = attach(kept, &groups, &origins);
        let site = Site { directory, pages: joined, groups };
        proof {
            let pages_view = site@.pages;
            let groups_view = site@.groups;
            lemma_published_asked(all, all.len() as int);
            lemma_shown_frame(pages_view, kept_view, kept_view.len() as int);
            lemma_origins_frame(pages_view, kept_view, kept_view.len() as int);
            lemma_key_index_frame(group_names(groups_view), kept_view, pages_view);
            assert forall|k: int| 0 <= k < groups_view.len() implies (#[trigger] groups_view[k]).pages
                == members_of(pages_view, groups_view[k].name) by {
                lemma_members_frame(pages_view, kept_view, groups_view[k].name);
            }
            assert forall|i: int| 0 <= i < pages_view.len() implies (#[trigger] pages_view[i]).wf() by {
                assert(same_document(pages_view[i], kept_view[i]));
                assert(kept_view[i] == kept@[i]@);
            }
            assert forall|i: int| 0 <= i < pages_view.len() implies publish_flag(
                #[trigger] pages_view[i],
            ) == Ok::<bool, SiteErrorView>(true) by {
                assert(same_document(pages_view[i], kept_view[i]));
            }
            assert forall|i: int| 0 <= i < pages_view.len() implies are_positions(
                (#[trigger] pages_view[i]).groups,
                group_names(groups_view),
                key_list(pages_view[i].metadata),
            ) by {
                assert(same_document(pages_view[i], kept_view[i]));
            }
        }
        Ok(site)
    }

    /// Whether the site has no page.
    pub fn is_empty(&self) -> (r: bool)
        ensures
            r == (self@.pages.len() == 0),
    {
        self.pages.is_empty()
    }

    /// The group named `name`, if the site has one.
    pub fn get_group(&self, name: &str) -> (r: Option<GroupReference>)
        ensures
            match r {
                Some(g) => {
                    &&& 0 <= g.0 < self@.groups.len()
                    &&& self@.groups[g.0 as int].name == name@
                    &&& forall|j: int| 0 <= j < g.0 ==> (#[trigger] self@.groups[j]).name != name@
                },
                None => forall|j: int|
                    0 <= j < self@.groups.len() ==> (#[trigger] self@.groups[j]).name != name@,
            },
    {
        find_group(&self.groups, name)
    }

    /// The group named `name`. A name that the site has no group for is an
    /// `UnknownGroup`.
    pub fn group_by_name(&self, name: &str) -> (r: Result<&Group, SiteError>)
        ensures
            match r {
                Ok(group) => exists|g: int|
                    {
                        &&& 0 <= g < self@.groups.len()
                        &&& #[trigger] self@.groups[g] == group@
                        &&& group@.name == name@
                        &&& forall|j: int| 0 <= j < g ==> (#[trigger] self@.groups[j]).name != name@
                    },
                Err(e) => e@ == (SiteErrorView::UnknownGroup { name: name@ }) && forall|j: int|
                    0 <= j < self@.groups.len() ==> (#[trigger] self@.groups[j]).name != name@,
            },
    {
        match find_group(&self.groups, name) {
            Some(g) => {
                assert(self@.groups[g.0 as int] == self.groups@[g.0 as int]@);
                Ok(&self.groups[g.0])
            },
            None => Err(SiteError::UnknownGroup { name: name.to_owned() }),
        }
    }

    /// The groups of the page `page`, in the order of the keys of its
    /// metadata.
    pub fn groups_for(&self, page: PageReference) -> (r: Vec<GroupReference>)
        requires
            self@.wf(),
            page.0 < self@.pages.len(),
        ensures
            are_positions(
                group_places(r@),
                group_names(self@.groups),
                key_list(self@.pages[page.0 as int].metadata),
            ),
    {
        let keys = self.pages[page.0].metadata.keys();
        proof {
            let names = group_names(self@.groups);
            let entries = self@.pages[page.0 as int].metadata;
            assert forall|k: int| 0 <= k < keys.len() implies names.contains(
                #[trigger] keys@[k]@,
            ) by {
                lemma_listed_key_is_held(entries, k);
            }
        }
        groups_of_keys(&self.groups, &keys)
    }

    /// The page that `target` means: the first whose URL it is.
    pub fn page_by_url(&self, target: &str) -> (r: Option<PageReference>)
        ensures
            match r {
                Some(found) => first_answer(self@.pages, target@) == Some(found.0 as int),
                None => first_answer(self@.pages, target@) is None,
            },
    {
        find_page(&self.pages, target)
    }
}

} // verus!

//! Pages, and the URLs and paths that follow from where their sources lie.

use crate::error::{DocumentFault, SiteError, SiteErrorView};
use crate::markup::{RenderedRst, RenderedView};
use crate::metadata::block_outcome;
use crate::text::chars_of;
use crate::yaml::yaml_document;
use crate::metadata::{bool_under, lookup, text_under, Entries, Metadata};
use crate::datum::{Datum, DatumView};
use crate::text::{
    components, file_stem, is_rooted, lemma_rooted_is_rooted, lemma_stem_is_name, rooted,
    rooted_path, same_text, slash, slashed, split_path, stem,
};
use vstd::prelude::*;

verus! {

/// The metadata key that names the template of a page.
pub const MAGIC_META_TEMPLATE: &'static str = "template";

/// The metadata key that asks for a page's URL to be taken as it is.
pub const MAGIC_META_URL_AS_IS: &'static str = "url_as_is";

/// The metadata key that overrides the title of a page.
pub const MAGIC_META_TITLE: &'static str = "title";

/// The name of the file that stands for a directory in the output.
pub const OUTPUT_INDEX: &'static str = "index.html";

/// A page of a site, by its place in the site's list of pages.
#[derive(Clone, Copy, Debug, PartialEq, Eq)]
pub struct PageReference(pub usize);

/// A group of a site, by its place in the site's list of groups.
#[derive(Clone, Copy, Debug, PartialEq, Eq)]
pub struct GroupReference(pub usize);

/// The places that `references` name.
pub open spec fn places(references: Seq<PageReference>) -> Seq<int> {
    Seq::new(references.len(), |i: int| references[i].0 as int)
}

/// The places that `references` name.
pub open spec fn group_places(references: Seq<GroupReference>) -> Seq<int> {
    Seq::new(references.len(), |i: int| references[i].0 as int)
}

/// Whether the path `path` lies below the directory `root`: the names of
/// `root` are the first names of `path`, and `path` has more.
pub open spec fn lies_below(path: Seq<char>, root: Seq<char>) -> bool {
    let p = components(path);
    let r = components(root);
    r.len() < p.len() && p.take(r.len() as int) == r
}

/// The names of `path` that follow those of `root`.
pub open spec fn names_below(path: Seq<char>, root: Seq<char>) -> Seq<Seq<char>> {
    components(path).skip(components(root).len() as int)
}

/// The names of the URL of the file whose names below the source root are
/// `names`: those of its directory, and then the file's name without its
/// extension, unless the file is the index of its directory.
pub open spec fn url_names(names: Seq<Seq<char>>, index_filename: Seq<char>) -> Seq<Seq<char>> {
    if names.len() == 0 {
        names
    } else if names.last() == index_filename {
        names.drop_last()
    } else {
        names.drop_last().push(stem(names.last()))
    }
}

/// The URL of the file at `path` in a source tree at `root`.
pub open spec fn url_of(path: Seq<char>, root: Seq<char>, index_filename: Seq<char>) -> Seq<char> {
    rooted(url_names(names_below(path, root), index_filename))
}

/// The URL under which a page is shown: its URL and a closing `/`, unless the
/// URL is `/` alone or is to be taken as it is.
pub open spec fn display_url_of(url: Seq<char>, as_is: bool) -> Seq<char> {
    if url == seq!['/'] || as_is {
        url
    } else {
        url + seq!['/']
    }
}

/// Where a page is written, below the output directory: its URL without the
/// leading `/`, and, unless the URL is to be taken as it is, the index file
/// of that directory.
pub open spec fn output_path_of(url: Seq<char>, as_is: bool) -> Seq<char> {
    let relative = if url.len() > 0 {
        url.skip(1)
    } else {
        url
    };
    if as_is {
        relative
    } else if relative.len() == 0 {
        OUTPUT_INDEX@
    } else {
        relative + seq!['/'] + OUTPUT_INDEX@
    }
}

/// Whether `text` ends with `tail`.
pub open spec fn ends_with(text: Seq<char>, tail: Seq<char>) -> bool {
    tail.len() <= text.len() && text.skip(text.len() - tail.len()) == tail
}

/// No output path begins with `/`.
pub proof fn lemma_output_path_is_relative(url: Seq<char>, as_is: bool)
    requires
        is_rooted(url),
    ensures
        output_path_of(url, as_is).len() > 0 ==> output_path_of(url, as_is)[0] != '/',
{
    reveal_strlit("index.html");
}

/// Unless a page's URL is taken as it is, its output path ends with the
/// index file.
pub proof fn lemma_output_path_ends_with_index(url: Seq<char>)
    ensures
        ends_with(output_path_of(url, false), OUTPUT_INDEX@),
{
    let out = output_path_of(url, false);
    assert(out.skip(out.len() - OUTPUT_INDEX@.len()) =~= OUTPUT_INDEX@);
}

/// Whether `path` lies below `root`.
pub fn is_below(path: &str, root: &str) -> (r: bool)
    ensures
        r == lies_below(path@, root@),
{
    let p = split_path(path);
    let r = split_path(root);
    if r.len() >= p.len() {
        return false;
    }
    let mut i: usize = 0;
    while i < r.len()
        invariant
            i <= r.len() < p.len(),
            p.deep_view() == components(path@),
            r.deep_view() == components(root@),
            forall|k: int| 0 <= k < i ==> p@[k]@ == r@[k]@,
        decreases r.len() - i,
    {
        if !same_text(p[i].as_str(), r[i].as_str()) {
            assert(p.deep_view().take(r.len() as int)[i as int] != r.deep_view()[i as int]);
            return false;
        }
        i += 1;
    }
    assert(p.deep_view().take(r.len() as int) =~= r.deep_view());
    true
}

/// The path of the file at `path` as seen from `root`, written from `/`.
pub fn path_below(path: &str, root: &str) -> (r: String)
    requires
        lies_below(path@, root@),
    ensures
        r@ == rooted(names_below(path@, root@)),
        is_rooted(r@),
{
    let p = split_path(path);
    let r = split_path(root);
    proof {
        let names = p.deep_view().subrange(r.len() as int, p.len() as int);
        lemma_rooted_is_rooted(names);
    }
    rooted_path(&p, r.len(), p.len())
}

/// The URL of the file at `path` in a source tree at `root`, where
/// `index_filename` is the name of the file that stands for its directory:
/// `("src/foo/some-page.markup", "src")` gives `/foo/some-page`, and
/// `("src/foo/some-page.xml.markup", "src")` gives `/foo/some-page.xml`.
pub fn make_url(path: &str, root: &str, index_filename: &str) -> (url: String)
    requires
        lies_below(path@, root@),
    ensures
        url@ == url_of(path@, root@, index_filename@),
        is_rooted(url@),
{
    let p = split_path(path);
    let r = split_path(root);
    let last = p.len() - 1;
    let ghost names = names_below(path@, root@);
    let ghost parent = p.deep_view().subrange(r.len() as int, last as int);
    proof {
        assert(names.drop_last() =~= parent);
    }
    if same_text(p[last].as_str(), index_filename) {
        proof {
            lemma_rooted_is_rooted(parent);
        }
        rooted_path(&p, r.len(), last)
    } else {
        let name = file_stem(p[last].as_str());
        let mut url = if r.len() == last {
            String::new()
        } else {
            rooted_path(&p, r.len(), last)
        };
        proof {
            assert(url@ =~= slashed(parent));
        }
        url.append(slash());
        url.append(name.as_str());
        proof {
            let all = parent.push(name@);
            assert(all.drop_last() =~= parent);
            lemma_stem_is_name(p.deep_view()[last as int]);
            lemma_rooted_is_rooted(all);
        }
        url
    }
}

/// One document of a site.
#[derive(Debug)]
pub struct Page {
    /// The path of the source file, as seen from the source root.
    pub path: String,
    /// The URL of the page, without a closing `/`.
    pub url: String,
    /// The title that the body of the document declares.
    pub title: String,
    pub metadata: Metadata,
    /// The body of the document, as it was written.
    pub content: String,
    pub content_rendered: String,
    pub summary_rendered: String,
    /// The groups of the page, in the order of its metadata keys. Empty until
    /// the page has joined a site.
    pub groups: Vec<GroupReference>,
    /// The pages that say the same in other languages, this page among them.
    /// Empty until the page has joined a site.
    pub translations: Vec<PageReference>,
}

/// The mathematical content of a [`Page`].
pub struct PageView {
    pub path: Seq<char>,
    pub url: Seq<char>,
    pub title: Seq<char>,
    pub metadata: Entries,
    pub content: Seq<char>,
    pub content_rendered: Seq<char>,
    pub summary_rendered: Seq<char>,
    pub groups: Seq<int>,
    pub translations: Seq<int>,
}

impl View for Page {
    type V = PageView;

    open spec fn view(&self) -> PageView {
        PageView {
            path: self.path@,
            url: self.url@,
            title: self.title@,
            metadata: self.metadata@,
            content: self.content@,
            content_rendered: self.content_rendered@,
            summary_rendered: self.summary_rendered@,
            groups: group_places(self.groups@),
            translations: places(self.translations@),
        }
    }
}

impl DeepView for Page {
    type V = PageView;

    open spec fn deep_view(&self) -> PageView {
        self@
    }
}

/// The content of `r`.
pub open spec fn text_outcome(r: Result<String, SiteError>) -> Result<Seq<char>, SiteErrorView> {
    match r {
        Ok(text) => Ok(text@),
        Err(e) => Err(e@),
    }
}

/// Whether the URL of a page with the metadata `metadata` is to be taken as
/// it is, or the error that asking gives.
pub open spec fn as_is_of(metadata: Entries) -> Result<bool, SiteErrorView> {
    match bool_under(metadata, MAGIC_META_URL_AS_IS@, false) {
        Some(flag) => Ok(flag),
        None => Err(SiteErrorView::TypeMismatch { key: MAGIC_META_URL_AS_IS@ }),
    }
}

impl PageView {
    /// Whether the page is well-formed: its URL is an absolute path.
    pub open spec fn wf(self) -> bool {
        is_rooted(self.url)
    }

    /// The URL under which the page is shown.
    pub open spec fn display_url(self) -> Result<Seq<char>, SiteErrorView> {
        match as_is_of(self.metadata) {
            Ok(flag) => Ok(display_url_of(self.url, flag)),
            Err(e) => Err(e),
        }
    }

    /// Where the page is written, below the output directory.
    pub open spec fn output_path(self) -> Result<Seq<char>, SiteErrorView> {
        match as_is_of(self.metadata) {
            Ok(flag) => Ok(output_path_of(self.url, flag)),
            Err(e) => Err(e),
        }
    }

    /// The name of the template of the page.
    pub open spec fn template_name(self) -> Result<Seq<char>, SiteErrorView> {
        match lookup(self.metadata, MAGIC_META_TEMPLATE@) {
            None => Err(SiteErrorView::MissingRequiredMetadata { key: MAGIC_META_TEMPLATE@ }),
            Some(DatumView::String(name)) => Ok(name),
            Some(_) => Err(SiteErrorView::TypeMismatch { key: MAGIC_META_TEMPLATE@ }),
        }
    }

    /// The title of the page: the text under the metadata key `title`, else
    /// the title that the body declares.
    pub open spec fn shown_title(self) -> Seq<char> {
        match text_under(self.metadata, MAGIC_META_TITLE@) {
            Some(title) => title,
            None => self.title,
        }
    }
}

/// Whether a blank line begins at `at`: two line feeds in a row.
pub open spec fn is_blank_line(data: Seq<char>, at: int) -> bool {
    0 <= at && at + 1 < data.len() && data[at] == '\n' && data[at + 1] == '\n'
}

/// The place of the first blank line that begins before `limit`.
pub open spec fn blank_line_before(data: Seq<char>, limit: int) -> Option<int>
    decreases limit,
{
    if limit <= 0 {
        None
    } else {
        match blank_line_before(data, limit - 1) {
            Some(at) => Some(at),
            None => if is_blank_line(data, limit - 1) {
                Some(limit - 1)
            } else {
                None
            },
        }
    }
}

/// The place of the first blank line of `data`, which parts the metadata
/// block from the body.
pub open spec fn separator(data: Seq<char>) -> Option<int> {
    blank_line_before(data, data.len() as int)
}

/// The first blank line is one, and none begins before it.
pub proof fn lemma_blank_line(data: Seq<char>, limit: int)
    ensures
        match blank_line_before(data, limit) {
            Some(at) => at < limit && is_blank_line(data, at) && forall|j: int|
                0 <= j < at ==> !is_blank_line(data, j),
            None => forall|j: int| 0 <= j < limit ==> !is_blank_line(data, j),
        },
    decreases limit,
{
    if limit > 0 {
        lemma_blank_line(data, limit - 1);
    }
}

/// A document whose metadata has been read and whose body is yet to be
/// rendered.
#[derive(Debug)]
pub struct Draft {
    /// The path of the source file, as seen from the source root.
    pub path: String,
    /// The URL of the page to be.
    pub url: String,
    pub metadata: Metadata,
    /// The body of the document, as it was written.
    pub content: String,
}

/// The mathematical content of a [`Draft`].
pub struct DraftView {
    pub path: Seq<char>,
    pub url: Seq<char>,
    pub metadata: Entries,
    pub content: Seq<char>,
}

impl View for Draft {
    type V = DraftView;

    open spec fn view(&self) -> DraftView {
        DraftView {
            path: self.path@,
            url: self.url@,
            metadata: self.metadata@,
            content: self.content@,
        }
    }
}

/// The draft that the file at `path`, which holds `data`, makes in a source
/// tree at `root`, or what is wrong with the file: it holds a metadata
/// block, a blank line and a body.
pub open spec fn draft_of(
    path: Seq<char>,
    root: Seq<char>,
    index_filename: Seq<char>,
    data: Seq<char>,
) -> Result<DraftView, SiteErrorView> {
    let shown_path = rooted(names_below(path, root));
    match separator(data) {
        None => Err(SiteErrorView::MissingSeparator { path: shown_path }),
        Some(at) => match block_outcome(yaml_document(data.take(at))) {
            Err(fault) => Err(SiteErrorView::MetadataParse { path: shown_path, fault }),
            Ok(metadata) => Ok(
                DraftView {
                    path: shown_path,
                    url: url_of(path, root, index_filename),
                    metadata,
                    content: data.skip(at + 2),
                },
            ),
        },
    }
}

/// The page that `draft` makes once its body has been rendered, or the fault
/// of the body.
pub open spec fn page_from(draft: DraftView, rendered: Result<RenderedView, DocumentFault>) -> Result<
    PageView,
    SiteErrorView,
> {
    match rendered {
        Err(defect) => Err(SiteErrorView::MalformedDocument { path: draft.path, defect }),
        Ok(body) => Ok(
            PageView {
                path: draft.path,
                url: draft.url,
                title: body.title,
                metadata: draft.metadata,
                content: draft.content,
                content_rendered: body.body,
                summary_rendered: body.summary,
                groups: Seq::empty(),
                translations: Seq::empty(),
            },
        ),
    }
}

/// The content of `rendered`.
pub open spec fn rendered_view(rendered: Result<RenderedRst, DocumentFault>) -> Result<
    RenderedView,
    DocumentFault,
> {
    match rendered {
        Ok(body) => Ok(body@),
        Err(defect) => Err(defect),
    }
}

/// The place of the first blank line of `data`.
pub fn find_separator(data: &Vec<char>) -> (r: Option<usize>)
    ensures
        match r {
            Some(at) => separator(data@) == Some(at as int) && at + 2 <= data.len(),
            None => separator(data@) is None,
        },
{
    let mut found: Option<usize> = None;
    let mut i: usize = 0;
    while i < data.len()
        invariant
            i <= data.len(),
            match found {
                Some(at) => blank_line_before(data@, i as int) == Some(at as int) && at + 2
                    <= data.len(),
                None => blank_line_before(data@, i as int) is None,
            },
        decreases data.len() - i,
    {
        if found.is_none() && i + 1 < data.len() && data[i] == '\n' && data[i + 1] == '\n' {
            found = Some(i);
        }
        i += 1;
    }
    found
}

impl Draft {
    /// The draft of the file at `path`, which holds `data`, in a source tree
    /// at `root`, where `index_filename` is the name of the file that stands
    /// for its directory.
    ///
    /// The file holds a metadata block, a blank line and a body. The block
    /// is read as YAML, and the URL follows from the path. The body is kept
    /// as it is, for the caller to render.
    pub fn from_source(path: &str, root: &str, index_filename: &str, data: &str) -> (r: Result<
        Draft,
        SiteError,
    >)
        requires
            lies_below(path@, root@),
        ensures
            match r {
                Ok(draft) => draft_of(path@, root@, index_filename@, data@) == Ok::<
                    DraftView,
                    SiteErrorView,
                >(draft@) && is_rooted(draft.url@),
                Err(e) => draft_of(path@, root@, index_filename@, data@) == Err::<
                    DraftView,
                    SiteErrorView,
                >(e@),
            },
    {
        let shown_path = path_below(path, root);
        let chars = chars_of(data);
        let at = match find_separator(&chars) {
            None => {
                return Err(SiteError::MissingSeparator { path: shown_path });
            },
            Some(at) => at,
        };
        let block = data.substring_char(0, at);
        let content = data.substring_char(at + 2, chars.len());
        let metadata = match Metadata::from_string(block) {
            Err(fault) => {
                return Err(SiteError::MetadataParse { path: shown_path, fault });
            },
            Ok(metadata) => metadata,
        };
        let url = make_url(path, root, index_filename);
        Ok(Draft { path: shown_path, url, metadata, content: content.to_owned() })
    }
}

impl Page {
    /// Whether the page is well-formed: its URL is an absolute path.
    pub open spec fn wf(&self) -> bool {
        self@.wf()
    }

    /// Whether the page is well-formed.
    pub fn is_well_formed(&self) -> (r: bool)
        ensures
            r == self.wf(),
    {
        let chars = chars_of(self.url.as_str());
        chars.len() >= 1 && chars[0] == '/' && (chars.len() < 2 || chars[1] != '/')
    }

    /// The page that `draft` makes, where rendering its body gave `rendered`.
    /// A body that was not accepted fails with a `MalformedDocument` for the
    /// document. The groups and translations of the page stay empty until it
    /// joins a site.
    pub fn from_draft(draft: Draft, rendered: Result<RenderedRst, DocumentFault>) -> (r: Result<
        Page,
        SiteError,
    >)
        ensures
            match r {
                Ok(page) => page_from(draft@, rendered_view(rendered)) == Ok::<
                    PageView,
                    SiteErrorView,
                >(page@),
                Err(e) => page_from(draft@, rendered_view(rendered)) == Err::<
                    PageView,
                    SiteErrorView,
                >(e@),
            },
            is_rooted(draft.url@) ==> (r matches Ok(page) ==> page.wf()),
    {
        match rendered {
            Err(defect) => Err(SiteError::MalformedDocument { path: draft.path, defect }),
            Ok(body) => {
                let page = Page {
                    path: draft.path,
                    url: draft.url,
                    title: body.title,
                    metadata: draft.metadata,
                    content: draft.content,
                    content_rendered: body.body,
                    summary_rendered: body.summary,
                    groups: Vec::new(),
                    translations: Vec::new(),
                };
                proof {
                    assert(page@.groups =~= Seq::<int>::empty());
                    assert(page@.translations =~= Seq::<int>::empty());
                }
                Ok(page)
            },
        }
    }

    /// The URL under which the page is shown. A slash is appended where the
    /// page is written as a directory, so that a link names the document and
    /// not a file of the output.
    pub fn display_url(&self) -> (r: Result<String, SiteError>)
        ensures
            text_outcome(r) == self@.display_url(),
    {
        match self.metadata.get_bool_or_false(MAGIC_META_URL_AS_IS) {
            Err(e) => Err(e),
            Ok(as_is) => {
                let mut shown = self.url.clone();
                if same_text(self.url.as_str(), slash()) || as_is {
                    Ok(shown)
                } else {
                    shown.append(slash());
                    Ok(shown)
                }
            },
        }
    }

    /// Where the page is written, below the output directory. The path never
    /// begins with `/`, and it ends with `index.html` unless the URL of the
    /// page is taken as it is.
    pub fn output_path(&self) -> (r: Result<String, SiteError>)
        ensures
            text_outcome(r) == self@.output_path(),
            r matches Ok(path) ==> {
                &&& self.wf() && path@.len() > 0 ==> path@[0] != '/'
                &&& as_is_of(self@.metadata) == Ok::<bool, SiteErrorView>(false) ==> ends_with(
                    path@,
                    OUTPUT_INDEX@,
                )
            },
    {
        match self.metadata.get_bool_or_false(MAGIC_META_URL_AS_IS) {
            Err(e) => Err(e),
            Ok(as_is) => {
                let length = self.url.as_str().unicode_len();
                let mut path = if length == 0 {
                    String::new()
                } else {
                    self.url.as_str().substring_char(1, length).to_owned()
                };
                proof {
                    if length == 0 {
                        assert(path@ =~= self.url@);
                    }
                    if self.wf() {
                        lemma_output_path_is_relative(self.url@, as_is);
                    }
                    lemma_output_path_ends_with_index(self.url@);
                }
                if as_is {
                    Ok(path)
                } else if path.as_str().unicode_len() == 0 {
                    Ok(OUTPUT_INDEX.to_owned())
                } else {
                    path.append(slash());
                    path.append(OUTPUT_INDEX);
                    Ok(path)
                }
            },
        }
    }

    /// The name of the template of the page: the text under the metadata key
    /// `template`, which every page must have.
    pub fn template_name(&self) -> (r: Result<&str, SiteError>)
        ensures
            match r {
                Ok(name) => self@.template_name() == Ok::<Seq<char>, SiteErrorView>(name@),
                Err(e) => self@.template_name() == Err::<Seq<char>, SiteErrorView>(e@),
            },
    {
        match self.metadata.get(MAGIC_META_TEMPLATE) {
            None => Err(
                SiteError::MissingRequiredMetadata { key: MAGIC_META_TEMPLATE.to_owned() },
            ),
            Some(Datum::String(name)) => Ok(name.as_str()),
            Some(_) => Err(SiteError::TypeMismatch { key: MAGIC_META_TEMPLATE.to_owned() }),
        }
    }

    /// The title of the page: the text under the metadata key `title`, else
    /// the title that the body declares.
    pub fn title(&self) -> (r: &str)
        ensures
            r@ == self@.shown_title(),
    {
        match self.metadata.get_text(MAGIC_META_TITLE) {
            Some(title) => title.as_str(),
            None => self.title.as_str(),
        }
    }
}

} // verus!

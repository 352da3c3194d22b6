//! What can go wrong while a site is built.

use vstd::prelude::*;

verus! {

/// Why a metadata block was not accepted.
#[derive(Debug)]
pub enum MetadataFault {
    /// The block is not well-formed; the text is the parser's message.
    Syntax(String),
    /// The block is well-formed, but it is not a mapping whose keys, at every
    /// level, are strings.
    NotAMapping,
}

/// Why a document's body was not accepted.
#[derive(Debug, Clone, Copy, PartialEq, Eq, Structural)]
pub enum DocumentFault {
    /// The markup parser refused the body, or its rendering is not text.
    Unreadable,
    /// The body holds more than one top-level element.
    SeveralSections,
    /// The body holds no element at all.
    Empty,
    /// The one top-level element is not a section.
    NoSection,
    /// The section does not begin with a title.
    NoTitle,
    /// The title is not one run of plain text.
    RichTitle,
    /// What follows the title is neither a section nor a body element.
    StrayElement,
}

/// What ends a run.
#[derive(Debug)]
pub enum SiteError {
    /// The document at `path` has no blank line after its metadata block.
    MissingSeparator { path: String },
    /// The metadata block of the document at `path` was not accepted.
    MetadataParse { path: String, fault: MetadataFault },
    /// The body of the document at `path` was not accepted.
    MalformedDocument { path: String, defect: DocumentFault },
    /// The metadata holds `key`, but not with a value of the type asked for.
    TypeMismatch { key: String },
    /// The metadata does not hold `key`.
    MissingRequiredMetadata { key: String },
    /// The document at `path` names as its original a page that does not exist.
    BrokenReference { path: String, reference: String },
    /// The documents at `first` and `second` would both be shown at `url`.
    DuplicateUrl { url: String, first: String, second: String },
    /// The site has no group named `name`.
    UnknownGroup { name: String },
    /// The template engine failed on the document at `path`; `messages` holds
    /// the failure and then its causes, outermost first.
    TemplateRender { path: String, messages: Vec<String> },
}

/// The mathematical content of a [`MetadataFault`].
pub enum MetadataFaultView {
    Syntax(Seq<char>),
    NotAMapping,
}

/// The mathematical content of an [`SiteError`].
pub enum SiteErrorView {
    MissingSeparator { path: Seq<char> },
    MetadataParse { path: Seq<char>, fault: MetadataFaultView },
    MalformedDocument { path: Seq<char>, defect: DocumentFault },
    TypeMismatch { key: Seq<char> },
    MissingRequiredMetadata { key: Seq<char> },
    BrokenReference { path: Seq<char>, reference: Seq<char> },
    DuplicateUrl { url: Seq<char>, first: Seq<char>, second: Seq<char> },
    UnknownGroup { name: Seq<char> },
    TemplateRender { path: Seq<char>, messages: Seq<Seq<char>> },
}

impl View for MetadataFault {
    type V = MetadataFaultView;

    open spec fn view(&self) -> MetadataFaultView {
        match self {
            MetadataFault::Syntax(message) => MetadataFaultView::Syntax(message@),
            MetadataFault::NotAMapping => MetadataFaultView::NotAMapping,
        }
    }
}

impl View for SiteError {
    type V = SiteErrorView;

    open spec fn view(&self) -> SiteErrorView {
        match self {
            SiteError::MissingSeparator { path } => SiteErrorView::MissingSeparator { path: path@ },
            SiteError::MetadataParse { path, fault } => SiteErrorView::MetadataParse {
                path: path@,
                fault: fault@,
            },
            SiteError::MalformedDocument { path, defect } => SiteErrorView::MalformedDocument {
                path: path@,
                defect: *defect,
            },
            SiteError::TypeMismatch { key } => SiteErrorView::TypeMismatch { key: key@ },
            SiteError::MissingRequiredMetadata { key } => SiteErrorView::MissingRequiredMetadata {
                key: key@,
            },
            SiteError::BrokenReference { path, reference } => SiteErrorView::BrokenReference {
                path: path@,
                reference: reference@,
            },
            SiteError::DuplicateUrl { url, first, second } => SiteErrorView::DuplicateUrl {
                url: url@,
                first: first@,
                second: second@,
            },
            SiteError::UnknownGroup { name } => SiteErrorView::UnknownGroup { name: name@ },
            SiteError::TemplateRender { path, messages } => SiteErrorView::TemplateRender {
                path: path@,
                messages: messages.deep_view(),
            },
        }
    }
}

/// How a message names the document that it is about.
pub const IN_DOCUMENT: &'static str = " in ";

/// What is said of a block that is no mapping.
pub const NOT_A_MAPPING: &'static str = "the metadata is not a mapping with strings for keys";

/// What is said of a body that cannot be read.
pub const UNREADABLE: &'static str = "failed to read the body";

/// What is said of a body with several top-level elements.
pub const SEVERAL_SECTIONS: &'static str =
    "don't know what to do with this complex document (did you misformat or omit the title?)";

/// What is said of a body without elements.
pub const EMPTY_DOCUMENT: &'static str = "an empty document, you made a mistake";

/// What is said of a body that is no section.
pub const NO_SECTION: &'static str =
    "strange section substructure, do you have just one paragraph there?";

/// What is said of a section without a title.
pub const NO_TITLE: &'static str = "only titles in the document front please";

/// What is said of a title that is not plain.
pub const RICH_TITLE: &'static str = "the title is too complicated, please use just plain text";

/// What is said of an element that cannot follow a title.
pub const STRAY_ELEMENT: &'static str = "an element that cannot follow the title";

/// What is said of a document without a separator.
pub const MISSING_SEPARATOR: &'static str = "missing metadata separator";

/// What is said of a metadata block that was not accepted.
pub const METADATA_FAILED: &'static str = "metadata deserialization failed";

/// What is said of a value of the wrong type.
pub const TYPE_MISMATCH: &'static str = "metadata is not of the type asked for: ";

/// What is said of a key that is not there.
pub const MISSING_KEY: &'static str = "must specify ";

/// What is said of an original that does not exist.
pub const BROKEN_REFERENCE: &'static str = "there is no page to be the original ";

/// What is said of two pages at one URL.
pub const DUPLICATE_URL: &'static str = "duplicates found, two pages are shown at ";

/// What is said of a group that does not exist.
pub const UNKNOWN_GROUP: &'static str = "there is no group ";

/// What is said of a page that the template engine failed on.
pub const RENDER_FAILED: &'static str = "render failed";

/// What parts the halves of a message.
pub const COLON: &'static str = ": ";

/// What parts two paths in a message.
pub const AND: &'static str = " and ";

/// What parts the lines of a message.
pub const LINE_END: &'static str = "\n";

/// `messages`, each behind the end of a line.
pub open spec fn lines(messages: Seq<Seq<char>>) -> Seq<char>
    decreases messages.len(),
{
    if messages.len() == 0 {
        Seq::empty()
    } else {
        lines(messages.drop_last()) + LINE_END@ + messages.last()
    }
}

impl MetadataFaultView {
    /// What went wrong, as a text.
    pub open spec fn description(self) -> Seq<char> {
        match self {
            MetadataFaultView::Syntax(message) => message,
            MetadataFaultView::NotAMapping => NOT_A_MAPPING@,
        }
    }
}

impl MetadataFault {
    /// What went wrong, for a reader.
    pub fn to_string(&self) -> (r: String)
        ensures
            r@ == self@.description(),
    {
        match self {
            MetadataFault::Syntax(message) => message.clone(),
            MetadataFault::NotAMapping => NOT_A_MAPPING.to_owned(),
        }
    }
}

impl DocumentFault {
    /// What went wrong, as a text.
    pub open spec fn description(self) -> Seq<char> {
        match self {
            DocumentFault::Unreadable => UNREADABLE@,
            DocumentFault::SeveralSections => SEVERAL_SECTIONS@,
            DocumentFault::Empty => EMPTY_DOCUMENT@,
            DocumentFault::NoSection => NO_SECTION@,
            DocumentFault::NoTitle => NO_TITLE@,
            DocumentFault::RichTitle => RICH_TITLE@,
            DocumentFault::StrayElement => STRAY_ELEMENT@,
        }
    }

    /// What went wrong, for a reader.
    pub fn to_string(&self) -> (r: String)
        ensures
            r@ == self.description(),
    {
        match self {
            DocumentFault::Unreadable => UNREADABLE.to_owned(),
            DocumentFault::SeveralSections => SEVERAL_SECTIONS.to_owned(),
            DocumentFault::Empty => EMPTY_DOCUMENT.to_owned(),
            DocumentFault::NoSection => NO_SECTION.to_owned(),
            DocumentFault::NoTitle => NO_TITLE.to_owned(),
            DocumentFault::RichTitle => RICH_TITLE.to_owned(),
            DocumentFault::StrayElement => STRAY_ELEMENT.to_owned(),
        }
    }
}

impl SiteErrorView {
    /// What went wrong, as a text.
    pub open spec fn description(self) -> Seq<char> {
        match self {
            SiteErrorView::MissingSeparator { path } => MISSING_SEPARATOR@ + IN_DOCUMENT@ + path,
            SiteErrorView::MetadataParse { path, fault } => METADATA_FAILED@ + IN_DOCUMENT@ + path
                + COLON@ + fault.description(),
            SiteErrorView::MalformedDocument { path, defect } => defect.description()
                + IN_DOCUMENT@ + path,
            SiteErrorView::TypeMismatch { key } => TYPE_MISMATCH@ + key,
            SiteErrorView::MissingRequiredMetadata { key } => MISSING_KEY@ + key,
            SiteErrorView::BrokenReference { path, reference } => BROKEN_REFERENCE@ + reference
                + IN_DOCUMENT@ + path,
            SiteErrorView::DuplicateUrl { url, first, second } => DUPLICATE_URL@ + url + COLON@
                + first + AND@ + second,
            SiteErrorView::UnknownGroup { name } => UNKNOWN_GROUP@ + name,
            SiteErrorView::TemplateRender { path, messages } => RENDER_FAILED@ + IN_DOCUMENT@
                + path + lines(messages),
        }
    }
}

impl SiteError {
    /// What went wrong, for a reader. The failure of a template comes with
    /// its causes, one to a line.
    pub fn to_string(&self) -> (r: String)
        ensures
            r@ == self@.description(),
    {
        match self {
            SiteError::MissingSeparator { path } => {
                let mut r = MISSING_SEPARATOR.to_owned();
                r.append(IN_DOCUMENT);
                r.append(path.as_str());
                r
            },
            SiteError::MetadataParse { path, fault } => {
                let mut r = METADATA_FAILED.to_owned();
                r.append(IN_DOCUMENT);
                r.append(path.as_str());
                r.append(COLON);
                r.append(fault.to_string().as_str());
                r
            },
            SiteError::MalformedDocument { path, defect } => {
                let mut r = defect.to_string();
                r.append(IN_DOCUMENT);
                r.append(path.as_str());
                r
            },
            SiteError::TypeMismatch { key } => {
                let mut r = TYPE_MISMATCH.to_owned();
                r.append(key.as_str());
                r
            },
            SiteError::MissingRequiredMetadata { key } => {
                let mut r = MISSING_KEY.to_owned();
                r.append(key.as_str());
                r
            },
            SiteError::BrokenReference { path, reference } => {
                let mut r = BROKEN_REFERENCE.to_owned();
                r.append(reference.as_str());
                r.append(IN_DOCUMENT);
                r.append(path.as_str());
                r
            },
            SiteError::DuplicateUrl { url, first, second } => {
                let mut r = DUPLICATE_URL.to_owned();
                r.append(url.as_str());
                r.append(COLON);
                r.append(first.as_str());
                r.append(AND);
                r.append(second.as_str());
                r
            },
            SiteError::UnknownGroup { name } => {
                let mut r = UNKNOWN_GROUP.to_owned();
                r.append(name.as_str());
                r
            },
            SiteError::TemplateRender { path, messages } => {
                let mut r = RENDER_FAILED.to_owned();
                r.append(IN_DOCUMENT);
                r.append(path.as_str());
                let ghost head = r@;
                let mut i: usize = 0;
                while i < messages.len()
                    invariant
                        i <= messages.len(),
                        r@ == head + lines(messages.deep_view().take(i as int)),
                    decreases messages.len() - i,
                {
                    r.append(LINE_END);
                    r.append(messages[i].as_str());
                    proof {
                        let wider = messages.deep_view().take(i + 1);
                        assert(wider.drop_last() =~= messages.deep_view().take(i as int));
                    }
                    i += 1;
                }
                proof {
                    assert(messages.deep_view().take(i as int) =~= messages.deep_view());
                }
                r
            },
        }
    }
}

} // verus!

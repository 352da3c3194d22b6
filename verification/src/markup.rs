//! Bodies of reStructuredText: what the title and the summary of a parsed
//! body are, and what a rendered body is made of.

use crate::error::DocumentFault;
use document_tree::element_categories::{
    BodyElement, StructuralSubElement, SubStructure, TextOrInlineElement,
};
use document_tree::HasChildren;
use vstd::prelude::*;

verus! {

#[verifier::external_type_specification]
#[verifier::external_body]
pub struct ExDocument(document_tree::Document);

#[verifier::external_type_specification]
#[verifier::external_body]
pub struct ExSection(document_tree::Section);

/// What one element of a section is, as far as a page asks.
#[derive(Debug, Clone, Copy, PartialEq, Eq, Structural)]
pub enum ElementKind {
    /// A title.
    Heading,
    /// A paragraph.
    Paragraph,
    /// A body element other than a paragraph: a list, a block of code, a
    /// table and the like.
    Body,
    /// A section, a topic, a sidebar or a transition.
    Structure,
    /// A subtitle, a decoration or a docinfo.
    Front,
}

/// The number of top-level elements of a document.
pub uninterp spec fn element_count(document: document_tree::Document) -> nat;

/// The first top-level element of a document, where that is a section.
pub uninterp spec fn leading_section(document: document_tree::Document) -> Option<
    document_tree::Section,
>;

/// The kinds of the elements of a section, in their order.
pub uninterp spec fn element_kinds(section: document_tree::Section) -> Seq<ElementKind>;

/// The parts of the first element of a section, where that is a title: for
/// each its text, where it is plain text, and `None` for any other.
pub uninterp spec fn title_parts(section: document_tree::Section) -> Seq<Option<Seq<char>>>;

/// The length of what `HasChildren::children` gives for the document.
#[verifier::external_body]
pub(crate) fn count_elements(document: &document_tree::Document) -> (n: usize)
    ensures
        n == element_count(*document),
{
    document.children().len()
}

/// The first of the document's children, where it is the variant
/// `SubStructure` holding the variant `Section`. A document without
/// children has none.
#[verifier::external_body]
pub(crate) fn first_section(document: &document_tree::Document) -> (r: Option<
    &document_tree::Section,
>)
    ensures
        match r {
            Some(section) => leading_section(*document) == Some(*section),
            None => leading_section(*document) is None,
        },
        element_count(*document) == 0 ==> r is None,
{
    match document.children().first()? {
        StructuralSubElement::SubStructure(inner) => match &**inner {
            SubStructure::Section(section) => Some(&**section),
            _ => None,
        },
        _ => None,
    }
}

/// Tells the variants of the section's children apart: `Title`; within
/// `SubStructure`, `BodyElement` holding `Paragraph`, `BodyElement` holding
/// anything else, and the other variants; and the remaining variants.
#[verifier::external_body]
pub(crate) fn section_kinds(section: &document_tree::Section) -> (kinds: Vec<ElementKind>)
    ensures
        kinds@ == element_kinds(*section),
{
    section.children().iter().map(|element| match element {
        StructuralSubElement::Title(_) => ElementKind::Heading,
        StructuralSubElement::SubStructure(inner) => match &**inner {
            SubStructure::BodyElement(body) => match &**body {
                BodyElement::Paragraph(_) => ElementKind::Paragraph,
                _ => ElementKind::Body,
            },
            _ => ElementKind::Structure,
        },
        _ => ElementKind::Front,
    }).collect()
}

/// The children of the section's first child, where that is a `Title`: the
/// text of each that is the variant `String`, and `None` for any other.
#[verifier::external_body]
pub(crate) fn section_title_parts(section: &document_tree::Section) -> (parts: Vec<Option<String>>)
    ensures
        parts.deep_view() == title_parts(*section),
{
    match section.children().first() {
        Some(StructuralSubElement::Title(title)) => title.children().iter().map(|part| match part {
            TextOrInlineElement::String(text) => Some((**text).clone()),
            _ => None,
        }).collect(),
        _ => Vec::new(),
    }
}

/// The text of `r`, where there is one.
pub open spec fn text_of(r: Option<String>) -> Option<Seq<char>> {
    match r {
        Some(text) => Some(text@),
        None => None,
    }
}

/// What rendering a body yields.
#[derive(Debug)]
pub struct RenderedRst {
    pub title: String,
    pub summary: String,
    pub body: String,
}

/// The mathematical content of a [`RenderedRst`].
pub struct RenderedView {
    pub title: Seq<char>,
    pub summary: Seq<char>,
    pub body: Seq<char>,
}

impl View for RenderedRst {
    type V = RenderedView;

    open spec fn view(&self) -> RenderedView {
        RenderedView { title: self.title@, summary: self.summary@, body: self.body@ }
    }
}

/// The section that a document consists of, or what is wrong with the
/// document: it must hold one element, and that must be a section.
pub open spec fn section_outcome(document: document_tree::Document) -> Result<
    document_tree::Section,
    DocumentFault,
> {
    if element_count(document) > 1 {
        Err(DocumentFault::SeveralSections)
    } else {
        match leading_section(document) {
            Some(section) => Ok(section),
            None => if element_count(document) == 0 {
                Err(DocumentFault::Empty)
            } else {
                Err(DocumentFault::NoSection)
            },
        }
    }
}

/// The title of a section whose elements are of the kinds `kinds` and whose
/// title has the parts `parts`: the section must begin with a title, and the
/// title must be one plain text.
pub open spec fn title_of(kinds: Seq<ElementKind>, parts: Seq<Option<Seq<char>>>) -> Result<
    Seq<char>,
    DocumentFault,
> {
    if kinds.len() == 0 || kinds[0] != ElementKind::Heading {
        Err(DocumentFault::NoTitle)
    } else if parts.len() != 1 {
        Err(DocumentFault::RichTitle)
    } else {
        match parts[0] {
            Some(text) => Ok(text),
            None => Err(DocumentFault::RichTitle),
        }
    }
}

/// Whether a section whose elements are of the kinds `kinds` has a summary:
/// the element after the title, where that is a paragraph. Nothing after
/// the title, or a list, a subsection and the like, gives no summary; a
/// second title, or an element that belongs to the front of a document, is
/// a fault.
pub open spec fn has_summary(kinds: Seq<ElementKind>) -> Result<bool, DocumentFault> {
    if kinds.len() < 2 {
        Ok(false)
    } else {
        match kinds[1] {
            ElementKind::Paragraph => Ok(true),
            ElementKind::Body | ElementKind::Structure => Ok(false),
            ElementKind::Heading | ElementKind::Front => Err(DocumentFault::StrayElement),
        }
    }
}

/// The title of a document.
pub open spec fn title_outcome(document: document_tree::Document) -> Result<Seq<char>, DocumentFault> {
    match section_outcome(document) {
        Err(e) => Err(e),
        Ok(section) => title_of(element_kinds(section), title_parts(section)),
    }
}

/// Whether a document has a summary: whether a paragraph follows the title
/// of its section at once.
pub open spec fn summary_wanted(document: document_tree::Document) -> Result<bool, DocumentFault> {
    match section_outcome(document) {
        Err(e) => Err(e),
        Ok(section) => has_summary(element_kinds(section)),
    }
}

/// The summary of a document whose first paragraph, where it has one, was
/// rendered to `lead`.
pub open spec fn summary_outcome(
    document: document_tree::Document,
    lead: Option<Seq<char>>,
) -> Result<Seq<char>, DocumentFault> {
    match summary_wanted(document) {
        Err(e) => Err(e),
        Ok(false) => Ok(Seq::empty()),
        Ok(true) => match lead {
            Some(html) => Ok(html),
            None => Err(DocumentFault::Unreadable),
        },
    }
}

/// What rendering the body `text` yields, where parsing it gave `document`,
/// rendering that gave `body`, and rendering its first paragraph gave
/// `lead`. An empty body is a page of its own right, whose content comes
/// from its template alone; of any other body nothing may be missing.
pub open spec fn markup_outcome(
    text: Seq<char>,
    document: Option<document_tree::Document>,
    body: Option<Seq<char>>,
    lead: Option<Seq<char>>,
) -> Result<RenderedView, DocumentFault> {
    if text.len() == 0 {
        Ok(RenderedView { title: Seq::empty(), summary: Seq::empty(), body: Seq::empty() })
    } else {
        match (document, body) {
            (Some(tree), Some(html)) => match title_outcome(tree) {
                Err(e) => Err(e),
                Ok(title) => match summary_outcome(tree, lead) {
                    Err(e) => Err(e),
                    Ok(summary) => Ok(RenderedView { title, summary, body: html }),
                },
            },
            _ => Err(DocumentFault::Unreadable),
        }
    }
}

/// The section that the document consists of. A document is one section, so
/// that it has a title; without one it would be a mere run of paragraphs.
pub fn top_level_rst_section(document: &document_tree::Document) -> (r: Result<
    &document_tree::Section,
    DocumentFault,
>)
    ensures
        match r {
            Ok(section) => section_outcome(*document) == Ok::<
                document_tree::Section,
                DocumentFault,
            >(*section),
            Err(e) => section_outcome(*document) == Err::<document_tree::Section, DocumentFault>(e),
        },
        element_count(*document) == 0 ==> r == Err::<&document_tree::Section, DocumentFault>(
            DocumentFault::Empty,
        ),
{
    let count = count_elements(document);
    if count > 1 {
        return Err(DocumentFault::SeveralSections);
    }
    match first_section(document) {
        Some(section) => Ok(section),
        None => if count == 0 {
            Err(DocumentFault::Empty)
        } else {
            Err(DocumentFault::NoSection)
        },
    }
}

/// The title of a section whose elements are of the kinds `kinds` and whose
/// title has the parts `parts`.
pub fn section_title(kinds: &Vec<ElementKind>, parts: &Vec<Option<String>>) -> (r: Result<
    String,
    DocumentFault,
>)
    ensures
        match r {
            Ok(title) => title_of(kinds@, parts.deep_view()) == Ok::<Seq<char>, DocumentFault>(
                title@,
            ),
            Err(e) => title_of(kinds@, parts.deep_view()) == Err::<Seq<char>, DocumentFault>(e),
        },
{
    if kinds.len() == 0 {
        return Err(DocumentFault::NoTitle);
    }
    match kinds[0] {
        ElementKind::Heading => {},
        _ => {
            return Err(DocumentFault::NoTitle);
        },
    }
    if parts.len() != 1 {
        return Err(DocumentFault::RichTitle);
    }
    assert(parts.deep_view()[0] == text_of(parts@[0]));
    match &parts[0] {
        Some(text) => Ok(text.clone()),
        None => Err(DocumentFault::RichTitle),
    }
}

/// Whether a section whose elements are of the kinds `kinds` has a summary.
pub fn summary_follows(kinds: &Vec<ElementKind>) -> (r: Result<bool, DocumentFault>)
    ensures
        r == has_summary(kinds@),
{
    if kinds.len() < 2 {
        return Ok(false);
    }
    match kinds[1] {
        ElementKind::Paragraph => Ok(true),
        ElementKind::Body => Ok(false),
        ElementKind::Structure => Ok(false),
        ElementKind::Heading => Err(DocumentFault::StrayElement),
        ElementKind::Front => Err(DocumentFault::StrayElement),
    }
}

/// The title of the document: the plain text of the title that its section
/// begins with.
pub fn document_title(document: &document_tree::Document) -> (r: Result<String, DocumentFault>)
    ensures
        match r {
            Ok(title) => title_outcome(*document) == Ok::<Seq<char>, DocumentFault>(title@),
            Err(e) => title_outcome(*document) == Err::<Seq<char>, DocumentFault>(e),
        },
{
    match top_level_rst_section(document) {
        Err(e) => Err(e),
        Ok(section) => {
            let kinds = section_kinds(section);
            let parts = section_title_parts(section);
            section_title(&kinds, &parts)
        },
    }
}

/// Whether the document has a first paragraph to be rendered as its
/// summary: whether a paragraph follows the title at once. It is the second
/// element of the section that the document consists of.
pub fn has_first_paragraph(document: &document_tree::Document) -> (r: Result<bool, DocumentFault>)
    ensures
        r == summary_wanted(*document),
{
    match top_level_rst_section(document) {
        Err(e) => Err(e),
        Ok(section) => {
            let kinds = section_kinds(section);
            summary_follows(&kinds)
        },
    }
}

/// Whether the first paragraph of the document is to be rendered: the
/// document has a title, and a paragraph follows it at once.
pub fn wants_lead(document: &document_tree::Document) -> (r: bool)
    ensures
        r == (title_outcome(*document) is Ok && summary_wanted(*document) == Ok::<
            bool,
            DocumentFault,
        >(true)),
{
    match document_title(document) {
        Err(_) => false,
        Ok(_) => match has_first_paragraph(document) {
            Ok(wanted) => wanted,
            Err(_) => false,
        },
    }
}

/// The summary of the document: its first paragraph as it was rendered to
/// `lead`, or the empty text where no paragraph follows the title at once.
/// A first paragraph that was not rendered is a fault.
pub fn first_document_paragraph(document: &document_tree::Document, lead: Option<String>) -> (r:
    Result<String, DocumentFault>)
    ensures
        match r {
            Ok(summary) => summary_outcome(*document, text_of(lead)) == Ok::<
                Seq<char>,
                DocumentFault,
            >(summary@),
            Err(e) => summary_outcome(*document, text_of(lead)) == Err::<Seq<char>, DocumentFault>(
                e,
            ),
        },
{
    match has_first_paragraph(document) {
        Err(e) => Err(e),
        Ok(false) => Ok(String::new()),
        Ok(true) => match lead {
            Some(html) => Ok(html),
            None => Err(DocumentFault::Unreadable),
        },
    }
}

/// What rendering the body `s` of a document yields: its HTML, its title and
/// its summary.
///
/// The caller parses and renders: `document` is what the parser made of `s`,
/// `body` the HTML of the whole, and `lead` the HTML of the first paragraph,
/// which is rendered only where [`wants_lead`] says so. Each is `None` where
/// it could not be had. An empty body renders to nothing, for a
/// page whose content comes from its template alone.
pub fn rstrender(
    s: &str,
    document: Option<&document_tree::Document>,
    body: Option<String>,
    lead: Option<String>,
) -> (r: Result<RenderedRst, DocumentFault>)
    ensures
        match r {
            Ok(rendered) => markup_outcome(s@, tree_of(document), text_of(body), text_of(lead))
                == Ok::<RenderedView, DocumentFault>(rendered@),
            Err(e) => markup_outcome(s@, tree_of(document), text_of(body), text_of(lead)) == Err::<
                RenderedView,
                DocumentFault,
            >(e),
        },
{
    if s.is_empty() {
        return Ok(RenderedRst { title: String::new(), summary: String::new(), body: String::new() });
    }
    match (document, body) {
        (Some(tree), Some(html)) => {
            let title = match document_title(tree) {
                Err(e) => {
                    return Err(e);
                },
                Ok(title) => title,
            };
            let summary = match first_document_paragraph(tree, lead) {
                Err(e) => {
                    return Err(e);
                },
                Ok(summary) => summary,
            };
            Ok(RenderedRst { title, summary, body: html })
        },
        _ => Err(DocumentFault::Unreadable),
    }
}

/// The document that `document` refers to, where there is one.
pub open spec fn tree_of(document: Option<&document_tree::Document>) -> Option<
    document_tree::Document,
> {
    match document {
        Some(tree) => Some(*tree),
        None => None,
    }
}

} // verus!

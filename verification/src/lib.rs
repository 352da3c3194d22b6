//! The model of a static site and the steps that build it.
//!
//! A site is made of documents, each a metadata block and a body of markup.
//! A document becomes a [`page::Page`] with a URL that follows from its path.
//! The pages that ask to be published form a [`site::Site`]: its groups, one
//! for each metadata key, and the translations of each page follow from the
//! metadata. The site then names, for every page, the template, the context
//! that the template sees, and the path that the rendered page goes to.
//!
//! Reading the sources, parsing and rendering their markup, running the
//! template engine and writing the output are left to the caller, who hands
//! the results in.

pub mod context;
pub mod datum;
pub mod error;
pub mod filters;
pub mod group;
pub mod json;
pub mod language;
pub mod markup;
pub mod metadata;
pub mod page;
pub mod site;
pub mod text;
pub mod translation;
pub mod yaml;

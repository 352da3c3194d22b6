//! The metadata of a document.

use crate::datum::{entry_views, Datum, DatumView};
use crate::error::{MetadataFault, MetadataFaultView, SiteError, SiteErrorView};
use crate::text::same_text;
use crate::yaml::{datum_of_yaml, parse_yaml, yaml_document};
use vstd::prelude::*;

verus! {

/// What a metadata block holds under one key.
pub type MetadataValue = Datum;

/// The content of a metadata block: its entries, in the order of the block.
pub type Entries = Seq<(Seq<char>, DatumView)>;

/// The metadata of one document: what its metadata block declares, key by
/// key, in the order of the block.
#[derive(Debug)]
pub struct Metadata {
    pub data: Vec<(String, Datum)>,
}

impl View for Metadata {
    type V = Entries;

    open spec fn view(&self) -> Entries {
        entry_views(self.data@)
    }
}

impl DeepView for Metadata {
    type V = Entries;

    open spec fn deep_view(&self) -> Entries {
        self@
    }
}

/// What `entries` hold under `key`: the value of the first entry with that key.
pub open spec fn lookup(entries: Entries, key: Seq<char>) -> Option<DatumView>
    decreases entries.len(),
{
    if entries.len() == 0 {
        None
    } else if entries[0].0 == key {
        Some(entries[0].1)
    } else {
        lookup(entries.skip(1), key)
    }
}

/// Whether `entries` hold anything under `key`, whatever it is.
pub open spec fn has_key(entries: Entries, key: Seq<char>) -> bool {
    lookup(entries, key) is Some
}

/// The keys of `entries`, in their order.
pub open spec fn key_list(entries: Entries) -> Seq<Seq<char>> {
    Seq::new(entries.len(), |i: int| entries[i].0)
}

/// The truth value under `key`, `default` where the key is absent, and no
/// value where the key holds something else.
pub open spec fn bool_under(entries: Entries, key: Seq<char>, default: bool) -> Option<bool> {
    match lookup(entries, key) {
        None => Some(default),
        Some(DatumView::Bool(b)) => Some(b),
        Some(_) => None,
    }
}

/// The text under `key`, where the key holds a text.
pub open spec fn text_under(entries: Entries, key: Seq<char>) -> Option<Seq<char>> {
    match lookup(entries, key) {
        Some(DatumView::String(s)) => Some(s),
        _ => None,
    }
}

/// The metadata that a parsed block gives: its entries where it is a mapping
/// with string keys throughout, and else the fault.
pub open spec fn block_outcome(document: Result<Option<DatumView>, Seq<char>>) -> Result<
    Entries,
    MetadataFaultView,
> {
    match document {
        Err(message) => Err(MetadataFaultView::Syntax(message)),
        Ok(Some(DatumView::Mapping(entries))) => Ok(entries),
        Ok(_) => Err(MetadataFaultView::NotAMapping),
    }
}

/// A key holds something exactly when it is the key of some entry.
pub proof fn lemma_has_key(entries: Entries, key: Seq<char>)
    ensures
        has_key(entries, key) <==> exists|i: int|
            0 <= i < entries.len() && (#[trigger] entries[i]).0 == key,
    decreases entries.len(),
{
    if entries.len() > 0 {
        let rest = entries.skip(1);
        lemma_has_key(rest, key);
        if entries[0].0 != key {
            if exists|i: int| 0 <= i < entries.len() && (#[trigger] entries[i]).0 == key {
                let i = choose|i: int| 0 <= i < entries.len() && (#[trigger] entries[i]).0 == key;
                assert(rest[i - 1].0 == key);
            }
        }
    }
}

/// Every listed key holds something.
pub proof fn lemma_listed_key_is_held(entries: Entries, i: int)
    requires
        0 <= i < entries.len(),
    ensures
        has_key(entries, key_list(entries)[i]),
{
    lemma_has_key(entries, entries[i].0);
}

impl Metadata {
    /// The metadata with the entries `data`.
    pub fn new(data: Vec<(String, Datum)>) -> (m: Metadata)
        ensures
            m@ == entry_views(data@),
    {
        Metadata { data }
    }

    /// What stands under `key`.
    pub fn get(&self, key: &str) -> (r: Option<&Datum>)
        ensures
            match r {
                Some(v) => lookup(self@, key@) == Some(v@),
                None => lookup(self@, key@) is None,
            },
    {
        let mut i: usize = 0;
        proof {
            assert(self@.skip(0) =~= self@);
        }
        while i < self.data.len()
            invariant
                i <= self.data.len(),
                lookup(self@, key@) == lookup(self@.skip(i as int), key@),
            decreases self.data.len() - i,
        {
            proof {
                assert(self@.skip(i as int).skip(1) =~= self@.skip(i + 1));
            }
            if same_text(self.data[i].0.as_str(), key) {
                return Some(&self.data[i].1);
            }
            i += 1;
        }
        None
    }

    /// The truth value under `key`, or `default` where the key is absent.
    /// A value that is not a truth value is a `TypeMismatch`.
    pub fn get_bool_or_default(&self, key: &str, default: bool) -> (r: Result<bool, SiteError>)
        ensures
            match r {
                Ok(b) => bool_under(self@, key@, default) == Some(b),
                Err(e) => bool_under(self@, key@, default) is None && e@
                    == (SiteErrorView::TypeMismatch { key: key@ }),
            },
    {
        match self.get(key) {
            None => Ok(default),
            Some(Datum::Bool(b)) => Ok(*b),
            Some(_) => Err(SiteError::TypeMismatch { key: key.to_owned() }),
        }
    }

    /// The truth value under `key`, or `false` where the key is absent.
    pub fn get_bool_or_false(&self, key: &str) -> (r: Result<bool, SiteError>)
        ensures
            match r {
                Ok(b) => bool_under(self@, key@, false) == Some(b),
                Err(e) => bool_under(self@, key@, false) is None && e@
                    == (SiteErrorView::TypeMismatch { key: key@ }),
            },
    {
        self.get_bool_or_default(key, false)
    }

    /// The text under `key`, where the key holds a text.
    pub fn get_text(&self, key: &str) -> (r: Option<&String>)
        ensures
            match r {
                Some(s) => text_under(self@, key@) == Some(s@),
                None => text_under(self@, key@) is None,
            },
    {
        match self.get(key) {
            Some(Datum::String(s)) => Some(s),
            _ => None,
        }
    }

    /// The keys, in the order in which the block declared them.
    pub fn keys(&self) -> (r: Vec<String>)
        ensures
            r.deep_view() == key_list(self@),
    {
        let mut r: Vec<String> = Vec::new();
        let mut i: usize = 0;
        while i < self.data.len()
            invariant
                i <= self.data.len(),
                r.len() == i,
                forall|k: int| 0 <= k < i ==> r@[k]@ == self.data@[k].0@,
            decreases self.data.len() - i,
        {
            r.push(self.data[i].0.clone());
            i += 1;
        }
        r
    }

    /// Whether anything stands under `key`.
    pub fn contains_key(&self, key: &str) -> (r: bool)
        ensures
            r == has_key(self@, key@),
    {
        self.get(key).is_some()
    }

    /// The metadata that `d` holds, where `d` is a mapping.
    pub fn from_value(d: Datum) -> (r: Result<Metadata, MetadataFault>)
        ensures
            match r {
                Ok(m) => d@ == DatumView::Mapping(m@),
                Err(fault) => !(d@ is Mapping) && fault@ == MetadataFaultView::NotAMapping,
            },
    {
        proof {
            crate::datum::lemma_view_of_collections(d);
        }
        match d {
            Datum::Mapping(data) => Ok(Metadata { data }),
            _ => Err(MetadataFault::NotAMapping),
        }
    }

    /// Reads a metadata block: one YAML mapping whose keys are strings.
    pub fn from_string(s: &str) -> (r: Result<Metadata, MetadataFault>)
        ensures
            match r {
                Ok(m) => block_outcome(yaml_document(s@)) == Ok::<Entries, MetadataFaultView>(m@),
                Err(fault) => block_outcome(yaml_document(s@)) == Err::<
                    Entries,
                    MetadataFaultView,
                >(fault@),
            },
    {
        match parse_yaml(s) {
            Err(message) => Err(MetadataFault::Syntax(message)),
            Ok(node) => match datum_of_yaml(&node) {
                None => Err(MetadataFault::NotAMapping),
                Some(d) => Metadata::from_value(d),
            },
        }
    }
}

} // verus!

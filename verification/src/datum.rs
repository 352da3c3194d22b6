//! The loosely typed values of metadata and of template contexts.

use vstd::prelude::*;

verus! {

/// A number of a document's metadata or of a template context.
///
/// Whole numbers are held as they are. A number with a fractional part or an
/// exponent is held as its decimal text, so that two of them are equal exactly
/// when they are written alike.
#[derive(Debug)]
pub enum Number {
    PosInt(u64),
    NegInt(i64),
    Float(String),
}

/// A loosely typed value: what a metadata block can hold under a key, and what
/// a template can read from its context.
#[derive(Debug)]
pub enum Datum {
    Null,
    Bool(bool),
    Number(Number),
    String(String),
    Sequence(Vec<Datum>),
    /// Keys are strings and keep the order in which they were declared.
    Mapping(Vec<(String, Datum)>),
}

/// The mathematical content of a [`Number`].
pub enum NumberView {
    PosInt(u64),
    NegInt(i64),
    Float(Seq<char>),
}

/// The mathematical content of a [`Datum`].
pub enum DatumView {
    Null,
    Bool(bool),
    Number(NumberView),
    String(Seq<char>),
    Sequence(Seq<DatumView>),
    Mapping(Seq<(Seq<char>, DatumView)>),
}

impl View for Number {
    type V = NumberView;

    open spec fn view(&self) -> NumberView {
        match self {
            Number::PosInt(n) => NumberView::PosInt(*n),
            Number::NegInt(n) => NumberView::NegInt(*n),
            Number::Float(text) => NumberView::Float(text@),
        }
    }
}

impl DeepView for Number {
    type V = NumberView;

    open spec fn deep_view(&self) -> NumberView {
        self@
    }
}

/// The content of `v`, read down to its leaves.
pub open spec fn content(v: Datum) -> DatumView
    decreases v,
{
    match v {
        Datum::Null => DatumView::Null,
        Datum::Bool(b) => DatumView::Bool(b),
        Datum::Number(n) => DatumView::Number(n@),
        Datum::String(s) => DatumView::String(s@),
        Datum::Sequence(items) => DatumView::Sequence(
            Seq::new(
                items@.len(),
                |i: int|
                    if 0 <= i < items@.len() {
                        content(items@[i])
                    } else {
                        DatumView::Null
                    },
            ),
        ),
        Datum::Mapping(entries) => DatumView::Mapping(
            Seq::new(
                entries@.len(),
                |i: int|
                    if 0 <= i < entries@.len() {
                        (entries@[i].0@, content(entries@[i].1))
                    } else {
                        (Seq::empty(), DatumView::Null)
                    },
            ),
        ),
    }
}

impl View for Datum {
    type V = DatumView;

    open spec fn view(&self) -> DatumView {
        content(*self)
    }
}

impl DeepView for Datum {
    type V = DatumView;

    open spec fn deep_view(&self) -> DatumView {
        self@
    }
}

impl Number {
    /// The number that reads as `unsigned` where that is given, else as
    /// `signed` where that is given, else as `text`.
    pub fn from_readings(unsigned: Option<u64>, signed: Option<i64>, text: String) -> (n: Number)
        ensures
            n@ == match (unsigned, signed) {
                (Some(u), _) => NumberView::PosInt(u),
                (None, Some(i)) => NumberView::NegInt(i),
                (None, None) => NumberView::Float(text@),
            },
    {
        match (unsigned, signed) {
            (Some(u), _) => Number::PosInt(u),
            (None, Some(i)) => Number::NegInt(i),
            (None, None) => Number::Float(text),
        }
    }
}

/// The content of `d`, where there is one.
pub open spec fn content_of(d: Option<Datum>) -> Option<DatumView> {
    match d {
        Some(v) => Some(v@),
        None => None,
    }
}

/// The views of a sequence of values, item by item.
pub open spec fn views(items: Seq<Datum>) -> Seq<DatumView> {
    Seq::new(items.len(), |i: int| items[i]@)
}

/// The views of a mapping's entries, entry by entry.
pub open spec fn entry_views(entries: Seq<(String, Datum)>) -> Seq<(Seq<char>, DatumView)> {
    Seq::new(entries.len(), |i: int| (entries[i].0@, entries[i].1@))
}

/// A sequence shows the views of its items, and a mapping those
/// of its entries.
pub proof fn lemma_view_of_collections(v: Datum)
    ensures
        v matches Datum::Sequence(items) ==> v@ == DatumView::Sequence(views(items@)),
        v matches Datum::Mapping(entries) ==> v@ == DatumView::Mapping(entry_views(entries@)),
{
    match v {
        Datum::Sequence(items) => {
            assert(v@->Sequence_0 =~= views(items@));
        },
        Datum::Mapping(entries) => {
            assert(v@->Mapping_0 =~= entry_views(entries@));
        },
        _ => {},
    }
}

/// An item of a sequence value is smaller than the value, in the order by
/// which recursion over values ends.
pub proof fn lemma_item_is_smaller(v: Datum, i: int)
    requires
        v is Sequence,
        0 <= i < v->Sequence_0@.len(),
    ensures
        decreases_to!(v => v->Sequence_0@[i]),
{
    let items = v->Sequence_0;
    assert(decreases_to!(v => items));
    assert(decreases_to!(items => items@));
    assert(decreases_to!(items@ => items@[i]));
}

/// The value of an entry of a mapping value is smaller than the mapping.
pub proof fn lemma_entry_is_smaller(v: Datum, i: int)
    requires
        v is Mapping,
        0 <= i < v->Mapping_0@.len(),
    ensures
        decreases_to!(v => v->Mapping_0@[i].1),
{
    let entries = v->Mapping_0;
    assert(decreases_to!(v => entries));
    assert(decreases_to!(entries => entries@));
    assert(decreases_to!(entries@ => entries@[i]));
    assert(decreases_to!(entries@[i] => entries@[i].1));
}

impl Clone for Number {
    fn clone(&self) -> (r: Self)
        ensures
            r@ == self@,
    {
        match self {
            Number::PosInt(n) => Number::PosInt(*n),
            Number::NegInt(n) => Number::NegInt(*n),
            Number::Float(text) => Number::Float(text.clone()),
        }
    }
}

impl Clone for Datum {
    fn clone(&self) -> (r: Self)
        ensures
            r@ == self@,
        decreases self,
    {
        match self {
            Datum::Null => Datum::Null,
            Datum::Bool(b) => Datum::Bool(*b),
            Datum::Number(n) => Datum::Number(n.clone()),
            Datum::String(s) => Datum::String(s.clone()),
            Datum::Sequence(items) => {
                let mut copy: Vec<Datum> = Vec::new();
                let mut i: usize = 0;
                while i < items.len()
                    invariant
                        i <= items.len(),
                        copy.len() == i,
                        forall|k: int| 0 <= k < i ==> copy@[k]@ == items@[k]@,
                        *self == Datum::Sequence(*items),
                    decreases items.len() - i,
                {
                    let item = &items[i];
                    proof {
                        lemma_item_is_smaller(*self, i as int);
                    }
                    copy.push(item.clone());
                    i += 1;
                }
                let r = Datum::Sequence(copy);
                proof {
                    lemma_view_of_collections(r);
                    lemma_view_of_collections(*self);
                    assert(views(copy@) =~= views(items@));
                }
                r
            },
            Datum::Mapping(entries) => {
                let mut copy: Vec<(String, Datum)> = Vec::new();
                let mut i: usize = 0;
                while i < entries.len()
                    invariant
                        i <= entries.len(),
                        copy.len() == i,
                        forall|k: int|
                            0 <= k < i ==> copy@[k].0@ == entries@[k].0@ && copy@[k].1@
                                == entries@[k].1@,
                        *self == Datum::Mapping(*entries),
                    decreases entries.len() - i,
                {
                    let entry = &entries[i];
                    proof {
                        lemma_entry_is_smaller(*self, i as int);
                    }
                    copy.push((entry.0.clone(), entry.1.clone()));
                    i += 1;
                }
                let r = Datum::Mapping(copy);
                proof {
                    lemma_view_of_collections(r);
                    lemma_view_of_collections(*self);
                    assert(entry_views(copy@) =~= entry_views(entries@));
                }
                r
            },
        }
    }
}

impl PartialEq for Number {
    fn eq(&self, other: &Number) -> (r: bool) {
        match (self, other) {
            (Number::PosInt(a), Number::PosInt(b)) => *a == *b,
            (Number::NegInt(a), Number::NegInt(b)) => *a == *b,
            (Number::Float(a), Number::Float(b)) => *a == *b,
            _ => false,
        }
    }
}

impl vstd::std_specs::cmp::PartialEqSpecImpl for Number {
    open spec fn obeys_eq_spec() -> bool {
        true
    }

    open spec fn eq_spec(&self, other: &Number) -> bool {
        self@ == other@
    }
}

impl PartialEq for Datum {
    fn eq(&self, other: &Datum) -> (r: bool)
        decreases self,
    {
        proof {
            lemma_view_of_collections(*self);
            lemma_view_of_collections(*other);
        }
        match (self, other) {
            (Datum::Null, Datum::Null) => true,
            (Datum::Bool(a), Datum::Bool(b)) => *a == *b,
            (Datum::Number(a), Datum::Number(b)) => *a == *b,
            (Datum::String(a), Datum::String(b)) => *a == *b,
            (Datum::Sequence(a), Datum::Sequence(b)) => {
                if a.len() != b.len() {
                    assert(views(a@).len() != views(b@).len());
                    return false;
                }
                let mut i: usize = 0;
                while i < a.len()
                    invariant
                        i <= a.len(),
                        a.len() == b.len(),
                        *self == Datum::Sequence(*a),
                        self@ == DatumView::Sequence(views(a@)),
                        other@ == DatumView::Sequence(views(b@)),
                        forall|k: int| 0 <= k < i ==> a@[k]@ == b@[k]@,
                    decreases a.len() - i,
                {
                    let x = &a[i];
                    let y = &b[i];
                    if !x.eq(y) {
                        assert(views(a@)[i as int] != views(b@)[i as int]);
                        return false;
                    }
                    i += 1;
                }
                assert(views(a@) =~= views(b@));
                true
            },
            (Datum::Mapping(a), Datum::Mapping(b)) => {
                if a.len() != b.len() {
                    assert(entry_views(a@).len() != entry_views(b@).len());
                    return false;
                }
                let mut i: usize = 0;
                while i < a.len()
                    invariant
                        i <= a.len(),
                        a.len() == b.len(),
                        *self == Datum::Mapping(*a),
                        self@ == DatumView::Mapping(entry_views(a@)),
                        other@ == DatumView::Mapping(entry_views(b@)),
                        forall|k: int|
                            0 <= k < i ==> a@[k].0@ == b@[k].0@ && a@[k].1@ == b@[k].1@,
                    decreases a.len() - i,
                {
                    let x = &a[i];
                    let y = &b[i];
                    if !(x.0 == y.0) || !x.1.eq(&y.1) {
                        assert(entry_views(a@)[i as int] != entry_views(b@)[i as int]);
                        return false;
                    }
                    i += 1;
                }
                assert(entry_views(a@) =~= entry_views(b@));
                true
            },
            _ => false,
        }
    }
}

impl vstd::std_specs::cmp::PartialEqSpecImpl for Datum {
    open spec fn obeys_eq_spec() -> bool {
        true
    }

    open spec fn eq_spec(&self, other: &Datum) -> bool {
        self@ == other@
    }
}

} // verus!

//! The filters that templates apply to sequences of the context.

use crate::datum::{content_of, lemma_view_of_collections, views, Datum, DatumView};
use crate::json::{
    attribute, attribute_at, datum_of_json, json_content, json_form, json_of, show, shown,
};
use crate::text::{chars_of, slash};
use vstd::prelude::*;

verus! {

/// An argument of a filter.
#[derive(Debug, Clone, Copy, PartialEq, Eq, Structural)]
pub enum Argument {
    Attribute,
    Value,
}

/// A filter that looks for an attribute.
#[derive(Debug, Clone, Copy, PartialEq, Eq, Structural)]
pub enum FilterName {
    TakeUntilAttr,
    BeforeAttr,
    AfterAttr,
}

/// Why a filter gave no result.
#[derive(Debug, PartialEq, Eq)]
pub enum FilterError {
    /// What was to be flattened is not a sequence.
    NotAnArray,
    /// An item of what was to be flattened is not itself a sequence.
    ItemNotAnArray,
    /// The filter was applied to what is not a sequence; `got` shows it.
    IncorrectValue { filter: FilterName, got: String },
    /// The filter was called without the argument.
    MissingArgument { filter: FilterName, argument: Argument },
    /// The argument is not a text; `got` shows it.
    IncorrectArgument { filter: FilterName, argument: Argument, got: String },
}

/// The mathematical content of a [`FilterError`].
pub enum FilterErrorView {
    NotAnArray,
    ItemNotAnArray,
    IncorrectValue { filter: FilterName, got: Seq<char> },
    MissingArgument { filter: FilterName, argument: Argument },
    IncorrectArgument { filter: FilterName, argument: Argument, got: Seq<char> },
}

impl View for FilterError {
    type V = FilterErrorView;

    open spec fn view(&self) -> FilterErrorView {
        match self {
            FilterError::NotAnArray => FilterErrorView::NotAnArray,
            FilterError::ItemNotAnArray => FilterErrorView::ItemNotAnArray,
            FilterError::IncorrectValue { filter, got } => FilterErrorView::IncorrectValue {
                filter: *filter,
                got: got@,
            },
            FilterError::MissingArgument { filter, argument } => FilterErrorView::MissingArgument {
                filter: *filter,
                argument: *argument,
            },
            FilterError::IncorrectArgument {
                filter,
                argument,
                got,
            } => FilterErrorView::IncorrectArgument {
                filter: *filter,
                argument: *argument,
                got: got@,
            },
        }
    }
}

pub const TAKE_UNTIL_ATTR: &'static str = "take_until_attr";

pub const BEFORE_ATTR: &'static str = "before_attr";

pub const AFTER_ATTR: &'static str = "after_attr";

pub const ATTRIBUTE: &'static str = "attribute";

pub const VALUE: &'static str = "value";

/// What is said when what is to be flattened is no sequence.
pub const NOT_AN_ARRAY: &'static str = "trying to flatten something that's not an array";

/// What is said when an item of what is to be flattened is no sequence.
pub const ITEM_NOT_AN_ARRAY: &'static str =
    "trying to flatten something that contains other than just arrays";

pub const FILTER_OPEN: &'static str = "Filter `";

pub const INCORRECT_VALUE: &'static str = "` was called on an incorrect value: got `";

pub const EXPECTED_ARRAY: &'static str = "` but expected a Vec<tera::Value>";

pub const INCORRECT_ARGUMENT: &'static str = "` received an incorrect type for arg `";

pub const GOT: &'static str = "`: got `";

pub const EXPECTED_STRING: &'static str = "` but expected a String";

pub const THE_OPEN: &'static str = "The `";

pub const HAS_TO_HAVE: &'static str = "` filter has to have an `";

pub const ARGUMENT_CLOSE: &'static str = "` argument";

impl FilterName {
    /// The name by which templates call the filter.
    pub open spec fn name(self) -> Seq<char> {
        match self {
            FilterName::TakeUntilAttr => TAKE_UNTIL_ATTR@,
            FilterName::BeforeAttr => BEFORE_ATTR@,
            FilterName::AfterAttr => AFTER_ATTR@,
        }
    }

    /// The name by which templates call the filter.
    pub fn as_str(&self) -> (r: &'static str)
        ensures
            r@ == self.name(),
    {
        match self {
            FilterName::TakeUntilAttr => TAKE_UNTIL_ATTR,
            FilterName::BeforeAttr => BEFORE_ATTR,
            FilterName::AfterAttr => AFTER_ATTR,
        }
    }
}

impl Argument {
    /// The name by which templates give the argument.
    pub open spec fn name(self) -> Seq<char> {
        match self {
            Argument::Attribute => ATTRIBUTE@,
            Argument::Value => VALUE@,
        }
    }

    /// The name by which templates give the argument.
    pub fn as_str(&self) -> (r: &'static str)
        ensures
            r@ == self.name(),
    {
        match self {
            Argument::Attribute => ATTRIBUTE,
            Argument::Value => VALUE,
        }
    }
}

impl FilterErrorView {
    /// What went wrong, as a text.
    pub open spec fn description(self) -> Seq<char> {
        match self {
            FilterErrorView::NotAnArray => NOT_AN_ARRAY@,
            FilterErrorView::ItemNotAnArray => ITEM_NOT_AN_ARRAY@,
            FilterErrorView::IncorrectValue { filter, got } => FILTER_OPEN@ + filter.name()
                + INCORRECT_VALUE@ + got + EXPECTED_ARRAY@,
            FilterErrorView::MissingArgument { filter, argument } => THE_OPEN@ + filter.name()
                + HAS_TO_HAVE@ + argument.name() + ARGUMENT_CLOSE@,
            FilterErrorView::IncorrectArgument { filter, argument, got } => FILTER_OPEN@
                + filter.name() + INCORRECT_ARGUMENT@ + argument.name() + GOT@ + got
                + EXPECTED_STRING@,
        }
    }
}

impl FilterError {
    /// What went wrong, for a reader.
    pub fn to_string(&self) -> (r: String)
        ensures
            r@ == self@.description(),
    {
        match self {
            FilterError::NotAnArray => NOT_AN_ARRAY.to_owned(),
            FilterError::ItemNotAnArray => ITEM_NOT_AN_ARRAY.to_owned(),
            FilterError::IncorrectValue { filter, got } => {
                let mut r = FILTER_OPEN.to_owned();
                r.append(filter.as_str());
                r.append(INCORRECT_VALUE);
                r.append(got.as_str());
                r.append(EXPECTED_ARRAY);
                r
            },
            FilterError::MissingArgument { filter, argument } => {
                let mut r = THE_OPEN.to_owned();
                r.append(filter.as_str());
                r.append(HAS_TO_HAVE);
                r.append(argument.as_str());
                r.append(ARGUMENT_CLOSE);
                r
            },
            FilterError::IncorrectArgument { filter, argument, got } => {
                let mut r = FILTER_OPEN.to_owned();
                r.append(filter.as_str());
                r.append(INCORRECT_ARGUMENT);
                r.append(argument.as_str());
                r.append(GOT);
                r.append(got.as_str());
                r.append(EXPECTED_STRING);
                r
            },
        }
    }
}

/// The JSON pointer of a dotted path: `/`, and then `path` with a `/` for
/// every `.`.
pub open spec fn pointer_of(path: Seq<char>) -> Seq<char> {
    seq!['/'] + Seq::new(
        path.len(),
        |i: int|
            if path[i] == '.' {
                '/'
            } else {
                path[i]
            },
    )
}

/// The JSON pointer that means what the dotted path `key` means.
pub fn get_json_pointer(key: &str) -> (pointer: String)
    ensures
        pointer@ == pointer_of(key@),
{
    let chars = chars_of(key);
    let mut pointer = String::new();
    pointer.append(slash());
    let mut start: usize = 0;
    let mut i: usize = 0;
    while i < chars.len()
        invariant
            chars@ == key@,
            start <= i <= chars.len(),
            forall|k: int| start <= k < i ==> chars@[k] != '.',
            pointer@ == pointer_of(key@.take(start as int)),
        decreases chars.len() - i,
    {
        if chars[i] == '.' {
            pointer.append(key.substring_char(start, i));
            pointer.append(slash());
            start = i + 1;
        }
        i += 1;
    }
    pointer.append(key.substring_char(start, i));
    pointer
}

/// The items of the sequences `items`, one sequence after the other, or
/// nothing where an item is not a sequence.
pub open spec fn flattened(items: Seq<DatumView>) -> Option<Seq<DatumView>>
    decreases items.len(),
{
    if items.len() == 0 {
        Some(Seq::empty())
    } else {
        match (flattened(items.drop_last()), items.last()) {
            (Some(before), DatumView::Sequence(inner)) => Some(before + inner),
            _ => None,
        }
    }
}

/// What flattening makes of `value`.
pub open spec fn flatten_outcome(value: DatumView) -> Result<DatumView, FilterErrorView> {
    match value {
        DatumView::Sequence(items) => match flattened(items) {
            Some(all) => Ok(DatumView::Sequence(all)),
            None => Err(FilterErrorView::ItemNotAnArray),
        },
        _ => Err(FilterErrorView::NotAnArray),
    }
}

/// Where a first part cannot be flattened, the whole cannot.
pub proof fn lemma_flattened_fails(items: Seq<DatumView>, count: int)
    requires
        0 <= count <= items.len(),
        flattened(items.take(count)) is None,
    ensures
        flattened(items) is None,
    decreases items.len() - count,
{
    if count < items.len() {
        assert(items.take(count + 1).drop_last() =~= items.take(count));
        lemma_flattened_fails(items, count + 1);
    } else {
        assert(items.take(count) =~= items);
    }
}

/// The content of `r`.
pub open spec fn outcome(r: Result<Datum, FilterError>) -> Result<DatumView, FilterErrorView> {
    match r {
        Ok(d) => Ok(d@),
        Err(e) => Err(e@),
    }
}

/// The one-level concatenation of a sequence of sequences: a sequence of
/// `[x]`, `[y]` and `[z, w]` gives `[x, y, z, w]`.
pub fn flatten_array(value: &Datum) -> (r: Result<Datum, FilterError>)
    ensures
        outcome(r) == flatten_outcome(value@),
{
    proof {
        lemma_view_of_collections(*value);
    }
    match value {
        Datum::Sequence(items) => {
            let mut all: Vec<Datum> = Vec::new();
            let mut i: usize = 0;
            while i < items.len()
                invariant
                    i <= items.len(),
                    value@ == DatumView::Sequence(views(items@)),
                    flattened(views(items@).take(i as int)) == Some(views(all@)),
                decreases items.len() - i,
            {
                proof {
                    assert(views(items@).take(i + 1).drop_last() =~= views(items@).take(i as int));
                }
                match &items[i] {
                    Datum::Sequence(inner) => {
                        let ghost before = views(all@);
                        let mut k: usize = 0;
                        while k < inner.len()
                            invariant
                                k <= inner.len(),
                                views(all@) == before + views(inner@).take(k as int),
                            decreases inner.len() - k,
                        {
                            let ghost so_far = views(all@);
                            all.push(inner[k].clone());
                            proof {
                                assert(views(all@) =~= so_far.push(inner@[k as int]@));
                            }
                            k += 1;
                        }
                    },
                    _ => {
                        proof {
                            lemma_flattened_fails(views(items@), i + 1);
                        }
                        return Err(FilterError::ItemNotAnArray);
                    },
                }
                i += 1;
            }
            let r = Datum::Sequence(all);
            proof {
                assert(views(items@).take(i as int) =~= views(items@));
                lemma_view_of_collections(r);
            }
            Ok(r)
        },
        _ => Err(FilterError::NotAnArray),
    }
}

/// The place of the first of `attributes` that is `wanted`, or their number
/// where none is.
pub open spec fn first_match(attributes: Seq<Option<DatumView>>, wanted: DatumView) -> int
    decreases attributes.len(),
{
    if attributes.len() == 0 || attributes[0] == Some(wanted) {
        0
    } else {
        1 + first_match(attributes.skip(1), wanted)
    }
}

/// The first match is a place in the list or its end, nothing before it
/// matches, and what stands there does.
pub proof fn lemma_first_match(attributes: Seq<Option<DatumView>>, wanted: DatumView)
    ensures
        0 <= first_match(attributes, wanted) <= attributes.len(),
        forall|k: int|
            0 <= k < first_match(attributes, wanted) ==> #[trigger] attributes[k] != Some(wanted),
        first_match(attributes, wanted) < attributes.len() ==> attributes[first_match(
            attributes,
            wanted,
        )] == Some(wanted),
    decreases attributes.len(),
{
    if attributes.len() > 0 && attributes[0] != Some(wanted) {
        let rest = attributes.skip(1);
        lemma_first_match(rest, wanted);
        assert forall|k: int| 0 <= k < first_match(attributes, wanted) implies #[trigger] attributes[k]
            != Some(wanted) by {
            if k > 0 {
                assert(rest[k - 1] == attributes[k]);
            }
        }
    }
}

/// The items that stand before the first match.
pub open spec fn taken_until(
    items: Seq<DatumView>,
    attributes: Seq<Option<DatumView>>,
    wanted: DatumView,
) -> Seq<DatumView> {
    items.take(first_match(attributes, wanted))
}

/// The item just before the first match, or null where nothing matches or
/// the match comes first.
pub open spec fn item_before(
    items: Seq<DatumView>,
    attributes: Seq<Option<DatumView>>,
    wanted: DatumView,
) -> DatumView {
    let at = first_match(attributes, wanted);
    if 1 <= at < items.len() {
        items[at - 1]
    } else {
        DatumView::Null
    }
}

/// The item just after the first match, or null where nothing matches or
/// the match comes last.
pub open spec fn item_after(
    items: Seq<DatumView>,
    attributes: Seq<Option<DatumView>>,
    wanted: DatumView,
) -> DatumView {
    let at = first_match(attributes, wanted);
    if at + 1 < items.len() {
        items[at + 1]
    } else {
        DatumView::Null
    }
}

/// The contents of `attributes`, one by one.
pub open spec fn attribute_views(attributes: Seq<Option<Datum>>) -> Seq<Option<DatumView>> {
    Seq::new(attributes.len(), |i: int| content_of(attributes[i]))
}

/// The place of the first of `attributes` that is `wanted`, or their number
/// where none is.
pub fn find_match(attributes: &Vec<Option<Datum>>, wanted: &Datum) -> (at: usize)
    ensures
        at == first_match(attribute_views(attributes@), wanted@),
        at <= attributes.len(),
{
    let ghost all = attribute_views(attributes@);
    let mut at: usize = 0;
    proof {
        assert(all.skip(0) =~= all);
    }
    while at < attributes.len()
        invariant
            at <= attributes.len(),
            all == attribute_views(attributes@),
            first_match(all, wanted@) == at + first_match(all.skip(at as int), wanted@),
        decreases attributes.len() - at,
    {
        proof {
            assert(all.skip(at as int).skip(1) =~= all.skip(at + 1));
        }
        let found = match &attributes[at] {
            Some(held) => *held == *wanted,
            None => false,
        };
        if found {
            return at;
        }
        at += 1;
    }
    at
}

/// The items that stand before the first whose attribute is `wanted`; all of
/// them where there is no such item.
pub fn take_until(items: &Vec<Datum>, attributes: &Vec<Option<Datum>>, wanted: &Datum) -> (r: Vec<
    Datum,
>)
    requires
        attributes.len() == items.len(),
    ensures
        views(r@) == taken_until(views(items@), attribute_views(attributes@), wanted@),
{
    let at = find_match(attributes, wanted);
    let mut r: Vec<Datum> = Vec::new();
    let mut i: usize = 0;
    while i < at
        invariant
            i <= at <= items.len(),
            r.len() == i,
            forall|k: int| 0 <= k < i ==> (#[trigger] r@[k])@ == items@[k]@,
        decreases at - i,
    {
        r.push(items[i].clone());
        i += 1;
    }
    r
}

/// The item just before the first whose attribute is `wanted`, or null.
pub fn neighbor_before(items: &Vec<Datum>, attributes: &Vec<Option<Datum>>, wanted: &Datum) -> (r:
    Datum)
    requires
        attributes.len() == items.len(),
    ensures
        r@ == item_before(views(items@), attribute_views(attributes@), wanted@),
{
    let at = find_match(attributes, wanted);
    if 1 <= at && at < items.len() {
        items[at - 1].clone()
    } else {
        Datum::Null
    }
}

/// The item just after the first whose attribute is `wanted`, or null.
pub fn neighbor_after(items: &Vec<Datum>, attributes: &Vec<Option<Datum>>, wanted: &Datum) -> (r:
    Datum)
    requires
        attributes.len() == items.len(),
    ensures
        r@ == item_after(views(items@), attribute_views(attributes@), wanted@),
{
    let at = find_match(attributes, wanted);
    if at < items.len() && at + 1 < items.len() {
        items[at + 1].clone()
    } else {
        Datum::Null
    }
}

/// What each of `items` holds at `pointer`.
pub open spec fn attributes_at(items: Seq<DatumView>, pointer: Seq<char>) -> Seq<Option<DatumView>> {
    Seq::new(items.len(), |i: int| attribute_at(items[i], pointer))
}

/// What each of `items` holds at the JSON pointer `pointer`.
pub fn attributes_of(items: &Vec<Datum>, pointer: &str) -> (r: Vec<Option<Datum>>)
    ensures
        r.len() == items.len(),
        attribute_views(r@) == attributes_at(views(items@), pointer@),
{
    let mut r: Vec<Option<Datum>> = Vec::new();
    let mut i: usize = 0;
    while i < items.len()
        invariant
            i <= items.len(),
            r.len() == i,
            forall|k: int|
                0 <= k < i ==> content_of(#[trigger] r@[k]) == attribute_at(items@[k]@, pointer@),
        decreases items.len() - i,
    {
        r.push(attribute(&items[i], pointer));
        i += 1;
    }
    r
}

/// The sequence and the two arguments of a filter that looks for an
/// attribute, or the reason why the filter cannot run: the value it is
/// applied to must be a sequence, `attribute` must be given and be a text,
/// and `value` must be given.
pub open spec fn search_of(
    filter: FilterName,
    value: DatumView,
    attribute: Option<DatumView>,
    wanted: Option<DatumView>,
) -> Result<(Seq<DatumView>, Seq<char>, DatumView), FilterErrorView> {
    match value {
        DatumView::Sequence(items) => match attribute {
            None => Err(FilterErrorView::MissingArgument { filter, argument: Argument::Attribute }),
            Some(DatumView::String(path)) => match wanted {
                None => Err(
                    FilterErrorView::MissingArgument { filter, argument: Argument::Value },
                ),
                Some(w) => Ok((items, path, w)),
            },
            Some(other) => Err(
                FilterErrorView::IncorrectArgument {
                    filter,
                    argument: Argument::Attribute,
                    got: shown(other),
                },
            ),
        },
        other => Err(FilterErrorView::IncorrectValue { filter, got: shown(other) }),
    }
}

/// What the filter `filter` finds in the items `items`, where `attributes`
/// are what the items hold at the attribute looked for.
pub open spec fn found_by(
    filter: FilterName,
    items: Seq<DatumView>,
    attributes: Seq<Option<DatumView>>,
    wanted: DatumView,
) -> DatumView {
    match filter {
        FilterName::TakeUntilAttr => DatumView::Sequence(taken_until(items, attributes, wanted)),
        FilterName::BeforeAttr => item_before(items, attributes, wanted),
        FilterName::AfterAttr => item_after(items, attributes, wanted),
    }
}

/// What the filter `filter` makes of its arguments.
pub open spec fn search_outcome(
    filter: FilterName,
    value: DatumView,
    attribute: Option<DatumView>,
    wanted: Option<DatumView>,
) -> Result<DatumView, FilterErrorView> {
    match search_of(filter, value, attribute, wanted) {
        Err(e) => Err(e),
        Ok((items, path, w)) => Ok(
            found_by(filter, items, attributes_at(items, pointer_of(path)), w),
        ),
    }
}

/// What the filter `filter` makes of its arguments: of the items of the
/// sequence `value`, it looks for the first whose attribute `attribute`, a
/// dotted path, is `wanted`.
pub fn search(
    filter: FilterName,
    value: &Datum,
    attribute: Option<&Datum>,
    wanted: Option<&Datum>,
) -> (r: Result<Datum, FilterError>)
    ensures
        outcome(r) == search_outcome(
            filter,
            value@,
            content_of_ref(attribute),
            content_of_ref(wanted),
        ),
{
    proof {
        lemma_view_of_collections(*value);
    }
    match value {
        Datum::Sequence(items) => match attribute {
            None => Err(FilterError::MissingArgument { filter, argument: Argument::Attribute }),
            Some(Datum::String(path)) => match wanted {
                None => Err(FilterError::MissingArgument { filter, argument: Argument::Value }),
                Some(w) => {
                    let pointer = get_json_pointer(path.as_str());
                    let attributes = attributes_of(items, pointer.as_str());
                    match filter {
                        FilterName::TakeUntilAttr => {
                            let r = Datum::Sequence(take_until(items, &attributes, w));
                            proof {
                                lemma_view_of_collections(r);
                            }
                            Ok(r)
                        },
                        FilterName::BeforeAttr => Ok(neighbor_before(items, &attributes, w)),
                        FilterName::AfterAttr => Ok(neighbor_after(items, &attributes, w)),
                    }
                },
            },
            Some(other) => Err(
                FilterError::IncorrectArgument {
                    filter,
                    argument: Argument::Attribute,
                    got: show(other),
                },
            ),
        },
        other => Err(FilterError::IncorrectValue { filter, got: show(other) }),
    }
}

/// The items of the sequence `value` that stand before the first whose
/// attribute `attribute`, a dotted path, is `wanted`; all of them where there
/// is no such item.
pub fn take_until_attr(value: &Datum, attribute: Option<&Datum>, wanted: Option<&Datum>) -> (r:
    Result<Datum, FilterError>)
    ensures
        outcome(r) == search_outcome(
            FilterName::TakeUntilAttr,
            value@,
            content_of_ref(attribute),
            content_of_ref(wanted),
        ),
{
    search(FilterName::TakeUntilAttr, value, attribute, wanted)
}

/// The item of the sequence `value` that stands just before the first whose
/// attribute `attribute`, a dotted path, is `wanted`; null where there is no
/// such item or nothing stands before it.
pub fn before_attr(value: &Datum, attribute: Option<&Datum>, wanted: Option<&Datum>) -> (r: Result<
    Datum,
    FilterError,
>)
    ensures
        outcome(r) == search_outcome(
            FilterName::BeforeAttr,
            value@,
            content_of_ref(attribute),
            content_of_ref(wanted),
        ),
{
    search(FilterName::BeforeAttr, value, attribute, wanted)
}

/// The item of the sequence `value` that stands just after the first whose
/// attribute `attribute`, a dotted path, is `wanted`; null where there is no
/// such item or nothing stands after it.
pub fn after_attr(value: &Datum, attribute: Option<&Datum>, wanted: Option<&Datum>) -> (r: Result<
    Datum,
    FilterError,
>)
    ensures
        outcome(r) == search_outcome(
            FilterName::AfterAttr,
            value@,
            content_of_ref(attribute),
            content_of_ref(wanted),
        ),
{
    search(FilterName::AfterAttr, value, attribute, wanted)
}

/// What a JSON value holds, where there is one.
pub open spec fn json_content_of(v: Option<&tera::Value>) -> Option<DatumView> {
    match v {
        Some(x) => Some(json_content(*x)),
        None => None,
    }
}

/// Whether `r` is `outcome` in the form of JSON.
pub open spec fn is_json_form(
    r: Result<tera::Value, FilterError>,
    outcome: Result<DatumView, FilterErrorView>,
) -> bool {
    match outcome {
        Ok(d) => r == Ok::<tera::Value, FilterError>(json_form(d)),
        Err(e) => r matches Err(fault) && fault@ == e,
    }
}

/// What the JSON value `v` holds, where there is one.
pub fn datum_of(v: Option<&tera::Value>) -> (d: Option<Datum>)
    ensures
        content_of(d) == json_content_of(v),
{
    match v {
        Some(x) => Some(datum_of_json(x)),
        None => None,
    }
}

/// `outcome` in the form of JSON.
pub fn json_result(outcome: Result<Datum, FilterError>) -> (r: Result<tera::Value, FilterError>)
    ensures
        is_json_form(r, crate::filters::outcome(outcome)),
{
    match outcome {
        Ok(d) => Ok(json_of(&d)),
        Err(e) => Err(e),
    }
}

/// [`flatten_array`] on the values of a template engine.
pub fn flatten_array_filter(value: &tera::Value) -> (r: Result<tera::Value, FilterError>)
    ensures
        is_json_form(r, flatten_outcome(json_content(*value))),
{
    let v = datum_of_json(value);
    json_result(flatten_array(&v))
}

/// [`take_until_attr`] on the values of a template engine.
pub fn take_until_attr_filter(
    value: &tera::Value,
    attribute: Option<&tera::Value>,
    wanted: Option<&tera::Value>,
) -> (r: Result<tera::Value, FilterError>)
    ensures
        is_json_form(
            r,
            search_outcome(
                FilterName::TakeUntilAttr,
                json_content(*value),
                json_content_of(attribute),
                json_content_of(wanted),
            ),
        ),
{
    let v = datum_of_json(value);
    let a = datum_of(attribute);
    let w = datum_of(wanted);
    json_result(take_until_attr(&v, a.as_ref(), w.as_ref()))
}

/// [`before_attr`] on the values of a template engine.
pub fn before_attr_filter(
    value: &tera::Value,
    attribute: Option<&tera::Value>,
    wanted: Option<&tera::Value>,
) -> (r: Result<tera::Value, FilterError>)
    ensures
        is_json_form(
            r,
            search_outcome(
                FilterName::BeforeAttr,
                json_content(*value),
                json_content_of(attribute),
                json_content_of(wanted),
            ),
        ),
{
    let v = datum_of_json(value);
    let a = datum_of(attribute);
    let w = datum_of(wanted);
    json_result(before_attr(&v, a.as_ref(), w.as_ref()))
}

/// [`after_attr`] on the values of a template engine.
pub fn after_attr_filter(
    value: &tera::Value,
    attribute: Option<&tera::Value>,
    wanted: Option<&tera::Value>,
) -> (r: Result<tera::Value, FilterError>)
    ensures
        is_json_form(
            r,
            search_outcome(
                FilterName::AfterAttr,
                json_content(*value),
                json_content_of(attribute),
                json_content_of(wanted),
            ),
        ),
{
    let v = datum_of_json(value);
    let a = datum_of(attribute);
    let w = datum_of(wanted);
    json_result(after_attr(&v, a.as_ref(), w.as_ref()))
}

/// The content of `d`, where there is one.
pub open spec fn content_of_ref(d: Option<&Datum>) -> Option<DatumView> {
    match d {
        Some(v) => Some(v@),
        None => None,
    }
}

} // verus!

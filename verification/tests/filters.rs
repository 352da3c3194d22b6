use rotuli::datum::{Datum, Number};
use rotuli::filters::{
    after_attr, after_attr_filter, attributes_of, before_attr, before_attr_filter, find_match,
    flatten_array, flatten_array_filter, get_json_pointer, neighbor_after, neighbor_before,
    take_until, take_until_attr, take_until_attr_filter, Argument, FilterError, FilterName,
};

fn number(n: u64) -> Datum {
    Datum::Number(Number::PosInt(n))
}

fn text(s: &str) -> Datum {
    Datum::String(s.to_string())
}

fn list(items: Vec<Datum>) -> Datum {
    Datum::Sequence(items)
}

fn record(entries: Vec<(&str, Datum)>) -> Datum {
    Datum::Mapping(entries.into_iter().map(|(k, v)| (k.to_string(), v)).collect())
}

fn with_a(n: u64) -> Datum {
    record(vec![("a", number(n))])
}

fn three() -> Datum {
    list(vec![with_a(1), with_a(2), with_a(3)])
}

#[test]
fn get_json_pointer_turns_dots_into_slashes() {
    assert_eq!(get_json_pointer("a"), "/a");
    assert_eq!(get_json_pointer("meta.date"), "/meta/date");
    assert_eq!(get_json_pointer("a.b.c"), "/a/b/c");
    assert_eq!(get_json_pointer(""), "/");
    assert_eq!(get_json_pointer("."), "//");
    assert_eq!(get_json_pointer("a."), "/a/");
    assert_eq!(get_json_pointer("a/b"), "/a/b");
}

#[test]
fn flatten_array_joins_the_inner_sequences() {
    let nested = list(vec![list(vec![number(1)]), list(vec![number(2)]), list(vec![number(3), number(4)])]);
    assert_eq!(flatten_array(&nested), Ok(list(vec![number(1), number(2), number(3), number(4)])));
    let words = list(vec![list(vec![text("x")]), list(vec![text("y")]), list(vec![text("z"), text("w")])]);
    assert_eq!(flatten_array(&words), Ok(list(vec![text("x"), text("y"), text("z"), text("w")])));
}

#[test]
fn flatten_array_goes_one_level_deep() {
    let nested = list(vec![list(vec![list(vec![number(1)])]), list(vec![])]);
    assert_eq!(flatten_array(&nested), Ok(list(vec![list(vec![number(1)])])));
    assert_eq!(flatten_array(&list(vec![])), Ok(list(vec![])));
}

#[test]
fn flatten_array_fails_on_items_that_are_no_sequences() {
    assert_eq!(flatten_array(&list(vec![number(1), number(2)])), Err(FilterError::ItemNotAnArray));
    assert_eq!(
        flatten_array(&list(vec![list(vec![number(1)]), number(2)])),
        Err(FilterError::ItemNotAnArray)
    );
}

#[test]
fn flatten_array_fails_on_what_is_no_sequence() {
    assert_eq!(flatten_array(&number(1)), Err(FilterError::NotAnArray));
    assert_eq!(flatten_array(&record(vec![])), Err(FilterError::NotAnArray));
    assert_eq!(flatten_array(&Datum::Null), Err(FilterError::NotAnArray));
}

#[test]
fn before_attr_gives_the_item_before_the_match() {
    let a = text("a");
    assert_eq!(before_attr(&three(), Some(&a), Some(&number(2))), Ok(with_a(1)));
    assert_eq!(before_attr(&three(), Some(&a), Some(&number(3))), Ok(with_a(2)));
}

#[test]
fn before_attr_gives_null_without_a_neighbor() {
    let a = text("a");
    assert_eq!(before_attr(&three(), Some(&a), Some(&number(1))), Ok(Datum::Null));
    assert_eq!(before_attr(&three(), Some(&a), Some(&number(9))), Ok(Datum::Null));
    assert_eq!(before_attr(&list(vec![]), Some(&a), Some(&number(1))), Ok(Datum::Null));
}

#[test]
fn after_attr_gives_the_item_after_the_match() {
    let a = text("a");
    assert_eq!(after_attr(&three(), Some(&a), Some(&number(1))), Ok(with_a(2)));
    assert_eq!(after_attr(&three(), Some(&a), Some(&number(2))), Ok(with_a(3)));
    assert_eq!(after_attr(&three(), Some(&a), Some(&number(3))), Ok(Datum::Null));
    assert_eq!(after_attr(&three(), Some(&a), Some(&number(9))), Ok(Datum::Null));
}

#[test]
fn take_until_attr_gives_what_stands_before_the_match() {
    let a = text("a");
    assert_eq!(take_until_attr(&three(), Some(&a), Some(&number(3))), Ok(list(vec![with_a(1), with_a(2)])));
    assert_eq!(take_until_attr(&three(), Some(&a), Some(&number(1))), Ok(list(vec![])));
    assert_eq!(take_until_attr(&three(), Some(&a), Some(&number(9))), Ok(three()));
    assert_eq!(take_until_attr(&list(vec![]), Some(&a), Some(&number(1))), Ok(list(vec![])));
}

#[test]
fn take_until_attr_stops_at_the_first_match() {
    let items = list(vec![with_a(1), with_a(2), with_a(1), with_a(2)]);
    assert_eq!(take_until_attr(&items, Some(&text("a")), Some(&number(2))), Ok(list(vec![with_a(1)])));
}

#[test]
fn take_until_attr_passes_items_without_the_attribute() {
    let items = list(vec![record(vec![("b", number(2))]), number(7), with_a(2), with_a(3)]);
    assert_eq!(
        take_until_attr(&items, Some(&text("a")), Some(&number(2))),
        Ok(list(vec![record(vec![("b", number(2))]), number(7)]))
    );
}

#[test]
fn filters_follow_dotted_paths() {
    let dated = |d: &str| record(vec![("meta", record(vec![("date", text(d))]))]);
    let items = list(vec![dated("mon"), dated("tue"), dated("wed")]);
    let path = text("meta.date");
    assert_eq!(take_until_attr(&items, Some(&path), Some(&text("wed"))), Ok(list(vec![dated("mon"), dated("tue")])));
    assert_eq!(before_attr(&items, Some(&path), Some(&text("tue"))), Ok(dated("mon")));
    assert_eq!(after_attr(&items, Some(&path), Some(&text("tue"))), Ok(dated("wed")));
}

#[test]
fn filters_compare_whole_values() {
    let items = list(vec![
        record(vec![("a", list(vec![number(1)]))]),
        record(vec![("a", list(vec![number(1), number(2)]))]),
    ]);
    let wanted = list(vec![number(1), number(2)]);
    assert_eq!(
        before_attr(&items, Some(&text("a")), Some(&wanted)),
        Ok(record(vec![("a", list(vec![number(1)]))]))
    );
    // A text is no number.
    assert_eq!(before_attr(&three(), Some(&text("a")), Some(&text("2"))), Ok(Datum::Null));
}

#[test]
fn filters_need_their_arguments() {
    let a = text("a");
    let one = number(1);
    let filters: [(fn(&Datum, Option<&Datum>, Option<&Datum>) -> Result<Datum, FilterError>, FilterName); 3] = [
        (take_until_attr, FilterName::TakeUntilAttr),
        (before_attr, FilterName::BeforeAttr),
        (after_attr, FilterName::AfterAttr),
    ];
    for (apply, filter) in filters {
        let no_array = Err(FilterError::IncorrectValue { filter, got: "1".to_string() });
        assert_eq!(apply(&number(1), Some(&a), Some(&one)), no_array);
        assert_eq!(apply(&number(1), None, None), no_array);
        assert_eq!(
            apply(&record(vec![("a", one.clone())]), Some(&a), Some(&one)),
            Err(FilterError::IncorrectValue { filter, got: "{\"a\":1}".to_string() })
        );
        let no_attribute = Err(FilterError::MissingArgument { filter, argument: Argument::Attribute });
        assert_eq!(apply(&three(), None, Some(&one)), no_attribute);
        assert_eq!(apply(&three(), None, None), no_attribute);
        let no_text =
            Err(FilterError::IncorrectArgument { filter, argument: Argument::Attribute, got: "1".to_string() });
        assert_eq!(apply(&three(), Some(&one), Some(&one)), no_text);
        assert_eq!(apply(&three(), Some(&one), None), no_text);
        assert_eq!(
            apply(&three(), Some(&a), None),
            Err(FilterError::MissingArgument { filter, argument: Argument::Value })
        );
    }
}

#[test]
fn attributes_of_looks_into_every_item() {
    let items = vec![with_a(1), record(vec![("b", number(2))]), number(3), list(vec![text("zero"), text("one")])];
    assert_eq!(attributes_of(&items, "/a"), vec![Some(number(1)), None, None, None]);
    assert_eq!(attributes_of(&items, "/1"), vec![None, None, None, Some(text("one"))]);
    assert_eq!(attributes_of(&items, "a"), vec![None, None, None, None]);
    assert_eq!(
        attributes_of(&items, ""),
        vec![Some(with_a(1)), Some(record(vec![("b", number(2))])), Some(number(3)), Some(list(vec![text("zero"), text("one")]))]
    );
}

#[test]
fn find_match_finds_the_first_equal_attribute() {
    let attributes = vec![None, Some(number(1)), Some(number(2)), Some(number(1))];
    assert_eq!(find_match(&attributes, &number(1)), 1);
    assert_eq!(find_match(&attributes, &number(2)), 2);
    assert_eq!(find_match(&attributes, &number(3)), 4);
    assert_eq!(find_match(&vec![], &number(3)), 0);
}

#[test]
fn neighbors_go_by_the_attributes_given() {
    let items = vec![text("x"), text("y"), text("z")];
    let attributes = vec![Some(number(1)), None, Some(number(3))];
    assert_eq!(take_until(&items, &attributes, &number(3)), vec![text("x"), text("y")]);
    assert_eq!(take_until(&items, &attributes, &number(1)), Vec::<Datum>::new());
    assert_eq!(take_until(&items, &attributes, &number(2)), items);
    assert_eq!(neighbor_before(&items, &attributes, &number(3)), text("y"));
    assert_eq!(neighbor_before(&items, &attributes, &number(1)), Datum::Null);
    assert_eq!(neighbor_before(&items, &attributes, &number(2)), Datum::Null);
    assert_eq!(neighbor_after(&items, &attributes, &number(1)), text("y"));
    assert_eq!(neighbor_after(&items, &attributes, &number(3)), Datum::Null);
    assert_eq!(neighbor_after(&items, &attributes, &number(2)), Datum::Null);
}

#[test]
fn filter_errors_say_what_went_wrong() {
    assert_eq!(FilterError::NotAnArray.to_string(), "trying to flatten something that's not an array");
    assert_eq!(
        FilterError::ItemNotAnArray.to_string(),
        "trying to flatten something that contains other than just arrays"
    );
    assert_eq!(
        take_until_attr(&list(vec![with_a(1)]), None, Some(&number(1))).unwrap_err().to_string(),
        "The `take_until_attr` filter has to have an `attribute` argument"
    );
    assert_eq!(
        take_until_attr(&list(vec![with_a(1)]), Some(&text("a")), None).unwrap_err().to_string(),
        "The `take_until_attr` filter has to have an `value` argument"
    );
    assert_eq!(
        take_until_attr(&number(7), Some(&text("a")), Some(&number(1))).unwrap_err().to_string(),
        "Filter `take_until_attr` was called on an incorrect value: got `7` but expected a Vec<tera::Value>"
    );
    assert_eq!(
        take_until_attr(&three(), Some(&list(vec![text("a")])), Some(&number(1))).unwrap_err().to_string(),
        "Filter `take_until_attr` received an incorrect type for arg `attribute`: got `[\"a\"]` but expected a String"
    );
    assert_eq!(
        before_attr(&three(), None, None).unwrap_err().to_string(),
        "The `before_attr` filter has to have an `attribute` argument"
    );
    assert_eq!(
        after_attr(&three(), Some(&text("a")), None).unwrap_err().to_string(),
        "The `after_attr` filter has to have an `value` argument"
    );
    assert_eq!(
        flatten_array(&record(vec![("a", list(vec![number(1)]))])).unwrap_err().to_string(),
        "trying to flatten something that's not an array"
    );
}

fn json_list(items: Vec<tera::Value>) -> tera::Value {
    tera::Value::Array(items)
}

fn json_record(key: &str, value: tera::Value) -> tera::Value {
    let mut map = tera::Map::new();
    map.insert(key.to_string(), value);
    tera::Value::Object(map)
}

#[test]
fn flatten_array_filter_takes_and_gives_json() {
    let nested = json_list(vec![
        json_list(vec![tera::Value::from(1)]),
        json_list(vec![tera::Value::from(-2), tera::Value::from(2.5)]),
        json_list(vec![tera::Value::from("x"), tera::Value::Bool(true), tera::Value::Null]),
    ]);
    let flat = json_list(vec![
        tera::Value::from(1),
        tera::Value::from(-2),
        tera::Value::from(2.5),
        tera::Value::from("x"),
        tera::Value::Bool(true),
        tera::Value::Null,
    ]);
    assert_eq!(flatten_array_filter(&nested), Ok(flat));
    assert_eq!(
        flatten_array_filter(&json_list(vec![tera::Value::from(1)])),
        Err(FilterError::ItemNotAnArray)
    );
    assert_eq!(flatten_array_filter(&tera::Value::from(1)), Err(FilterError::NotAnArray));
}

#[test]
fn attribute_filters_take_and_give_json() {
    let items = json_list(vec![
        json_record("a", tera::Value::from(1)),
        json_record("a", tera::Value::from(2)),
        json_record("a", tera::Value::from(3)),
    ]);
    let a = tera::Value::from("a");
    let two = tera::Value::from(2);
    assert_eq!(
        take_until_attr_filter(&items, Some(&a), Some(&two)),
        Ok(json_list(vec![json_record("a", tera::Value::from(1))]))
    );
    assert_eq!(before_attr_filter(&items, Some(&a), Some(&two)), Ok(json_record("a", tera::Value::from(1))));
    assert_eq!(after_attr_filter(&items, Some(&a), Some(&two)), Ok(json_record("a", tera::Value::from(3))));
    assert_eq!(
        before_attr_filter(&items, Some(&a), Some(&tera::Value::from(1))),
        Ok(tera::Value::Null)
    );
    assert_eq!(
        after_attr_filter(&items, None, Some(&two)),
        Err(FilterError::MissingArgument { filter: FilterName::AfterAttr, argument: Argument::Attribute })
    );
    assert_eq!(
        take_until_attr_filter(&json_record("a", tera::Value::from(1)), Some(&a), Some(&two))
            .unwrap_err()
            .to_string(),
        "Filter `take_until_attr` was called on an incorrect value: got `{\"a\":1}` but expected a Vec<tera::Value>"
    );
}

use kvs3::json::Json;
use kvs3::project::apply_mask;
use kvs3::project::filter_object;
use kvs3::project::filter_value;

fn num(s: &str) -> Json {
    Json::Num(s.to_string())
}

fn obj(entries: Vec<(&str, Json)>) -> Json {
    Json::Obj(entries.into_iter().map(|(k, v)| (k.to_string(), v)).collect())
}

fn abc() -> Json {
    obj(vec![("a", num("1")), ("b", num("2")), ("c", num("3"))])
}

#[test]
fn mask_keeps_named_fields_in_mask_order() {
    let r = filter_value(abc(), "a,c");
    assert_eq!(r, obj(vec![("a", num("1")), ("c", num("3"))]));
}

#[test]
fn mask_order_follows_the_mask_not_the_source() {
    let r = filter_value(abc(), "c,a");
    assert_eq!(r, obj(vec![("c", num("3")), ("a", num("1"))]));
}

#[test]
fn absent_fields_are_omitted_without_error() {
    let r = filter_value(abc(), "a,z");
    assert_eq!(r, obj(vec![("a", num("1"))]));
}

#[test]
fn mask_with_no_matching_field_yields_an_empty_object() {
    let r = filter_value(abc(), "z");
    assert_eq!(r, obj(vec![]));
}

#[test]
fn empty_mask_matches_only_an_empty_field_name() {
    // "" splits into one empty field name
    let r = filter_value(abc(), "");
    assert_eq!(r, obj(vec![]));
    let with_empty_key = obj(vec![("", num("7")), ("a", num("1"))]);
    let r2 = filter_value(with_empty_key, "");
    assert_eq!(r2, obj(vec![("", num("7"))]));
}

#[test]
fn duplicate_mask_field_yields_one_entry() {
    let r = filter_value(abc(), "a,a");
    assert_eq!(r, obj(vec![("a", num("1"))]));
}

#[test]
fn arrays_are_projected_element_wise() {
    let arr = Json::Arr(vec![
        obj(vec![("a", num("1")), ("b", num("2"))]),
        obj(vec![("b", num("4"))]),
        num("9"),
    ]);
    let r = filter_value(arr, "a");
    assert_eq!(
        r,
        Json::Arr(vec![obj(vec![("a", num("1"))]), obj(vec![]), num("9")])
    );
}

#[test]
fn scalars_pass_through_unchanged() {
    assert_eq!(filter_value(num("5"), "a"), num("5"));
    assert_eq!(filter_value(Json::Str("hi".to_string()), "a"), Json::Str("hi".to_string()));
    assert_eq!(filter_value(Json::Bool(true), "a"), Json::Bool(true));
    assert_eq!(filter_value(Json::Null, "a"), Json::Null);
}

#[test]
fn filter_object_leaves_non_objects_alone() {
    let fields = vec!["a".to_string()];
    assert_eq!(filter_object(num("5"), &fields), num("5"));
    let arr = Json::Arr(vec![num("1")]);
    // filter_object does not recurse into arrays; filter_value does
    assert_eq!(filter_object(arr, &fields), Json::Arr(vec![num("1")]));
}

#[test]
fn no_mask_leaves_the_value_untouched() {
    assert_eq!(apply_mask(abc(), &None), abc());
}

#[test]
fn some_mask_is_applied() {
    let r = apply_mask(abc(), &Some("b".to_string()));
    assert_eq!(r, obj(vec![("b", num("2"))]));
}

#[test]
fn nested_values_are_carried_wholesale() {
    let nested = obj(vec![
        ("a", obj(vec![("x", num("1"))])),
        ("b", Json::Arr(vec![num("2")])),
    ]);
    let r = filter_value(nested, "a");
    assert_eq!(r, obj(vec![("a", obj(vec![("x", num("1"))]))]));
}

#[test]
fn empty_segments_in_the_mask_are_field_names_too() {
    // "a,,c" names the fields "a", "", "c"
    let r = filter_value(abc(), "a,,c");
    assert_eq!(r, obj(vec![("a", num("1")), ("c", num("3"))]));
}

#[test]
fn multibyte_field_names_are_matched_by_character() {
    let source = obj(vec![("žluť", num("1")), ("b", num("2"))]);
    let r = filter_value(source, "žluť");
    assert_eq!(r, obj(vec![("žluť", num("1"))]));
}

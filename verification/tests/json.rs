use wherearethey::aliases::{aliases_from_json, all_aliases};
use wherearethey::json::{text_field, Json};
use wherearethey::managers::list_mise;

#[test]
fn text_members_of_objects() {
    let j = Json::Object(vec![
        ("n".to_string(), Json::Number("3".to_string())),
        ("name".to_string(), Json::Str("httpie".to_string())),
        ("z".to_string(), Json::Null),
    ]);
    assert_eq!(text_field(&j, "name"), Some("httpie".to_string()));
    assert_eq!(text_field(&j, "n"), None);
    assert_eq!(text_field(&j, "z"), None);
    assert_eq!(text_field(&j, "missing"), None);
    assert_eq!(text_field(&Json::Null, "a"), None);
    assert_eq!(text_field(&Json::Array(vec![Json::Str("a".to_string())]), "a"), None);
}

#[test]
fn the_first_member_of_a_name_counts() {
    let j = Json::Object(vec![
        ("a".to_string(), Json::Str("1".to_string())),
        ("a".to_string(), Json::Str("2".to_string())),
    ]);
    assert_eq!(text_field(&j, "a"), Some("1".to_string()));
}

#[test]
fn parsed_objects_come_sorted_by_key_with_the_last_of_a_repeated_key() {
    let t = aliases_from_json("{\"zed\": \"z\", \"alpha\": \"a\", \"alpha\": \"b\"}");
    assert_eq!(
        all_aliases(&t),
        vec![("alpha".to_string(), "b".to_string()), ("zed".to_string(), "z".to_string())]
    );
}

#[test]
fn parsing_rejects_what_is_not_one_value() {
    assert_eq!(aliases_from_json("{\"a\": \"b\"} {}").len(), 0);
    assert_eq!(aliases_from_json("{\"a\": \"b\"").len(), 0);
    assert_eq!(list_mise("{\"node\": [{\"version\": \"20\"}]} x").len(), 0);
}

#[test]
fn numbers_and_nested_values_are_carried_through() {
    let r = list_mise("{\"node\": [{\"version\": 20, \"install_path\": \"/n\"}, {\"version\": \"21\", \"install_path\": [\"x\"]}]}");
    assert_eq!(r.len(), 2);
    assert_eq!(r[0].version, None);
    assert_eq!(r[0].path, "/n");
    assert_eq!(r[1].version, Some("21".to_string()));
    assert_eq!(r[1].path, "");
}

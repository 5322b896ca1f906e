use wherearethey::aliases::{
    aliases_from_file, aliases_from_value, alias_table_from_pairs, aliases_file, aliases_from_json, all_aliases, list_aliases,
    remove_alias, resolve_alias, set_alias, AliasTable,
};
use wherearethey::json::Json;
use wherearethey::output::{BOLD, DIM, RESET};
use wherearethey::scan::lookup_target;

fn pair(a: &str, b: &str) -> (String, String) {
    (a.to_string(), b.to_string())
}

#[test]
fn friendly_name_resolves_after_it_is_set() {
    // wherearethey name gemini-cli Gemini; wherearethey Gemini
    let mut t = AliasTable::new();
    set_alias(&mut t, "gemini-cli", "Gemini");
    assert_eq!(lookup_target(&t, "Gemini"), "gemini-cli");
    assert_eq!(resolve_alias(&t, "gemini"), Some("gemini-cli".to_string()));
    assert_eq!(resolve_alias(&t, "GEMINI"), Some("gemini-cli".to_string()));
    assert_eq!(lookup_target(&t, "ffmpeg"), "ffmpeg");
    assert_eq!(resolve_alias(&t, "ffmpeg"), None);
}

#[test]
fn keys_are_stored_in_lower_case_and_sorted() {
    let mut t = AliasTable::new();
    set_alias(&mut t, "rg", "Ripgrep");
    set_alias(&mut t, "gemini-cli", "Gemini");
    set_alias(&mut t, "fd", "FIND");
    assert_eq!(t.len(), 3);
    assert_eq!(
        all_aliases(&t),
        vec![pair("find", "fd"), pair("gemini", "gemini-cli"), pair("ripgrep", "rg")]
    );
}

#[test]
fn setting_again_replaces_the_binary() {
    let mut t = AliasTable::new();
    set_alias(&mut t, "gemini-cli", "Gemini");
    set_alias(&mut t, "gemini", "gEmInI");
    assert_eq!(t.len(), 1);
    assert_eq!(resolve_alias(&t, "Gemini"), Some("gemini".to_string()));
}

#[test]
fn setting_twice_is_setting_once() {
    let mut once = AliasTable::new();
    set_alias(&mut once, "gemini-cli", "Gemini");
    let mut twice = AliasTable::new();
    set_alias(&mut twice, "gemini-cli", "Gemini");
    set_alias(&mut twice, "gemini-cli", "Gemini");
    assert_eq!(all_aliases(&once), all_aliases(&twice));
}

#[test]
fn removing_an_alias() {
    let mut t = AliasTable::new();
    set_alias(&mut t, "gemini-cli", "Gemini");
    set_alias(&mut t, "rg", "ripgrep");
    assert!(remove_alias(&mut t, "GEMINI"));
    assert_eq!(resolve_alias(&t, "gemini"), None);
    assert_eq!(lookup_target(&t, "Gemini"), "Gemini");
    assert_eq!(all_aliases(&t), vec![pair("ripgrep", "rg")]);
    assert!(!remove_alias(&mut t, "gemini"));
    assert_eq!(t.len(), 1);
}

#[test]
fn listing_aliases() {
    let empty = AliasTable::new();
    assert_eq!(list_aliases(&empty), "");
    let mut t = AliasTable::new();
    set_alias(&mut t, "rg", "ripgrep");
    set_alias(&mut t, "gemini-cli", "Gemini");
    let expected = format!(
        "\n  {BOLD}Aliases{RESET} {DIM}(2 entries){RESET}\n\n  {BOLD}gemini{RESET} {DIM}→{RESET} gemini-cli\n  {BOLD}ripgrep{RESET} {DIM}→{RESET} rg\n\n"
    );
    assert_eq!(list_aliases(&t), expected);
}

#[test]
fn listing_does_not_depend_on_the_order_of_setting() {
    let mut a = AliasTable::new();
    set_alias(&mut a, "rg", "ripgrep");
    set_alias(&mut a, "gemini-cli", "Gemini");
    let mut b = AliasTable::new();
    set_alias(&mut b, "gemini-cli", "Gemini");
    set_alias(&mut b, "rg", "ripgrep");
    assert_eq!(list_aliases(&a), list_aliases(&b));
}

#[test]
fn aliases_from_a_file() {
    let t = aliases_from_json("{\n  \"gemini\": \"gemini-cli\",\n  \"ripgrep\": \"rg\"\n}");
    assert_eq!(all_aliases(&t), vec![pair("gemini", "gemini-cli"), pair("ripgrep", "rg")]);
    assert_eq!(resolve_alias(&t, "Ripgrep"), Some("rg".to_string()));
}

#[test]
fn aliases_from_a_bad_file_are_empty() {
    assert_eq!(aliases_from_json("not json").len(), 0);
    assert_eq!(aliases_from_json("[\"a\"]").len(), 0);
    assert_eq!(aliases_from_json("{\"a\": 1, \"b\": \"c\"}").len(), 0);
    assert_eq!(aliases_from_json("").len(), 0);
    assert_eq!(aliases_from_json("{}").len(), 0);
}

#[test]
fn table_from_pairs_keeps_the_last_of_a_name() {
    let t = alias_table_from_pairs(&[pair("b", "1"), pair("a", "2"), pair("b", "3")]);
    assert_eq!(all_aliases(&t), vec![pair("a", "2"), pair("b", "3")]);
}

#[test]
fn aliases_file_location() {
    assert_eq!(aliases_file("/Users/me"), "/Users/me/.wherearethey/aliases.json");
    assert_eq!(aliases_file("/tmp/"), "/tmp/.wherearethey/aliases.json");
}

#[test]
fn a_missing_aliases_file_holds_no_aliases() {
    assert_eq!(aliases_from_file(None).len(), 0);
    let t = aliases_from_file(Some("{\"gemini\": \"gemini-cli\"}".to_string()));
    assert_eq!(resolve_alias(&t, "Gemini"), Some("gemini-cli".to_string()));
    assert_eq!(aliases_from_file(Some("oops".to_string())).len(), 0);
}

#[test]
fn aliases_from_a_parsed_object() {
    let j = Some(Json::Object(vec![
        ("b".to_string(), Json::Str("2".to_string())),
        ("a".to_string(), Json::Str("1".to_string())),
    ]));
    assert_eq!(all_aliases(&aliases_from_value(&j)), vec![pair("a", "1"), pair("b", "2")]);
    let bad = Some(Json::Object(vec![("a".to_string(), Json::Null)]));
    assert_eq!(aliases_from_value(&bad).len(), 0);
    assert_eq!(aliases_from_value(&None).len(), 0);
}

#[test]
fn the_last_change_of_a_name_decides() {
    let mut t = AliasTable::new();
    set_alias(&mut t, "a1", "One");
    set_alias(&mut t, "b", "two");
    set_alias(&mut t, "a2", "ONE");
    remove_alias(&mut t, "Two");
    assert_eq!(all_aliases(&t), vec![pair("one", "a2")]);
    set_alias(&mut t, "b2", "TWO");
    assert_eq!(all_aliases(&t), vec![pair("one", "a2"), pair("two", "b2")]);
}

use kakuyomu_dump::json::decode;

fn blob(state: &str) -> String {
    let mut s = String::new();
    s.push_str("{\"props\":{\"pageProps\":{\"__APOLLO_STATE__\":");
    s.push_str(state);
    s.push_str("}}}");
    s
}

#[test]
fn episode_keys_in_order_others_ignored() {
    let json = blob("{\"Episode:abc\":{},\"Work:xyz\":{},\"Episode:def\":{}}");
    let chapters = decode(&json).unwrap();
    assert_eq!(chapters, vec!["abc".to_owned(), "def".to_owned()]);
}

#[test]
fn missing_state_field_is_an_error() {
    let json = "{\"props\":{\"pageProps\":{\"somethingElse\":{}}}}";
    assert!(decode(json).is_err());
}

#[test]
fn missing_page_props_is_an_error() {
    let json = "{\"props\":{\"other\":{}}}";
    assert!(decode(json).is_err());
}

#[test]
fn malformed_json_is_an_error() {
    assert!(decode("{\"props\":").is_err());
    assert!(decode("").is_err());
    assert!(decode("not json at all").is_err());
}

#[test]
fn empty_state_object_yields_empty_list() {
    let json = blob("{}");
    let chapters = decode(&json).unwrap();
    assert!(chapters.is_empty());
}

#[test]
fn duplicates_are_preserved_in_order() {
    let json = blob("{\"Episode:a\":1,\"Episode:a\":2,\"Episode:b\":3}");
    let chapters = decode(&json).unwrap();
    assert_eq!(chapters, vec!["a".to_owned(), "a".to_owned(), "b".to_owned()]);
}

#[test]
fn values_of_any_shape_are_skipped() {
    let state = "{\"Episode:x\":[1,2,{\"k\":\"v\"}],\"Other\":\"te\\\"xt\",\"Episode:y\":null,\"N\":-1.5e3}";
    let json = blob(state);
    let chapters = decode(&json).unwrap();
    assert_eq!(chapters, vec!["x".to_owned(), "y".to_owned()]);
}

#[test]
fn siblings_on_the_path_are_skipped() {
    let json = "{\"before\":[{},[]],\"props\":{\"noise\":\"value\",\"pageProps\":{\"zzz\":0,\"__APOLLO_STATE__\":{\"Episode:only\":{}},\"after\":1}}}";
    let chapters = decode(json).unwrap();
    assert_eq!(chapters, vec!["only".to_owned()]);
}

#[test]
fn whitespace_everywhere_is_accepted() {
    let json = "  { \"props\" : { \"pageProps\" : { \"__APOLLO_STATE__\" : {\n\t\"Episode:a\" : { } } } } }";
    let chapters = decode(json).unwrap();
    assert_eq!(chapters, vec!["a".to_owned()]);
}

#[test]
fn prefix_must_match_exactly() {
    let json = blob("{\"episode:a\":{},\"Episode\":{},\"XEpisode:b\":{}}");
    let chapters = decode(&json).unwrap();
    assert!(chapters.is_empty());
}

#[test]
fn prefix_only_key_contributes_no_identifier() {
    let json = blob("{\"Episode:\":{},\"Episode:a\":{}}");
    assert_eq!(decode(&json).unwrap(), vec!["a".to_owned()]);
}

#[test]
fn malformed_literals_and_numbers_are_errors() {
    assert!(decode(&blob("{\"k\":tru}")).is_err());
    assert!(decode(&blob("{\"k\":truex}")).is_err());
    assert!(decode(&blob("{\"k\":1.2.3}")).is_err());
    assert!(decode(&blob("{\"k\":01}")).is_err());
    assert!(decode(&blob("{\"k\":-}")).is_err());
    assert!(decode(&blob("{\"k\":1e}")).is_err());
    assert!(decode(&blob("{\"k\":1.}")).is_err());
}

#[test]
fn valid_literals_and_numbers_are_skipped() {
    let json = blob("{\"a\":true,\"b\":false,\"c\":null,\"d\":-1.5e+3,\"e\":0,\"Episode:x\":12}");
    assert_eq!(decode(&json).unwrap(), vec!["x".to_owned()]);
}

#[test]
fn invalid_escapes_are_errors() {
    assert!(decode(&blob("{\"k\\q\":1}")).is_err());
    assert!(decode(&blob("{\"k\":\"\\u12G4\"}")).is_err());
    assert!(decode(&blob("{\"k\":\"a\nb\"}")).is_err());
}

#[test]
fn valid_escapes_are_accepted() {
    let json = blob("{\"k\":\"a\\u0041\\n\\\\\",\"Episode:y\":{}}");
    assert_eq!(decode(&json).unwrap(), vec!["y".to_owned()]);
}

#[test]
fn nesting_beyond_the_depth_budget_is_an_error() {
    let deep = format!("{}1{}", "[".repeat(200), "]".repeat(200));
    let json = blob(&format!("{{\"k\":{deep},\"Episode:z\":{{}}}}"));
    assert!(decode(&json).is_err());
    let fine = format!("{}1{}", "[".repeat(50), "]".repeat(50));
    let json = blob(&format!("{{\"k\":{fine},\"Episode:z\":{{}}}}"));
    assert_eq!(decode(&json).unwrap(), vec!["z".to_owned()]);
}

#[test]
fn unterminated_string_is_an_error() {
    let json = blob("{\"Episode:a");
    assert!(decode(&json).is_err());
}

#[test]
fn wrong_shape_on_path_is_an_error() {
    assert!(decode("{\"props\":[1,2]}").is_err());
    assert!(decode("{\"props\":{\"pageProps\":{\"__APOLLO_STATE__\":[]}}}").is_err());
}

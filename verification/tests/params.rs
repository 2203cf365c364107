use soniq::order::compare_names;
use soniq::order::NameOrder;
use soniq::params::ParameterSet;

fn pairs(params: &ParameterSet) -> Vec<(String, String)> {
    params.entries().clone()
}

fn pair(name: &str, value: &str) -> (String, String) {
    (name.to_string(), value.to_string())
}

#[test]
fn new_set_is_empty() {
    let params = ParameterSet::new();
    assert_eq!(params.len(), 0);
    assert!(params.is_empty());
    assert!(params.entries().is_empty());
    assert!(!params.contains_key("method"));
    assert_eq!(params.get("method"), None);
}

#[test]
fn insert_adds_a_new_name_and_returns_none() {
    let mut params = ParameterSet::new();
    assert_eq!(params.insert("user".to_string(), "rj".to_string()), None);
    assert_eq!(params.len(), 1);
    assert!(!params.is_empty());
    assert!(params.contains_key("user"));
    assert_eq!(params.get("user"), Some(&"rj".to_string()));
    assert_eq!(params.get("use"), None);
    assert_eq!(params.get("users"), None);
}

#[test]
fn insert_replaces_the_value_of_a_name_and_returns_the_old_one() {
    let mut params = ParameterSet::new();
    params.insert("limit".to_string(), "10".to_string());
    params.insert("page".to_string(), "1".to_string());
    let previous = params.insert("limit".to_string(), "50".to_string());
    assert_eq!(previous, Some("10".to_string()));
    assert_eq!(params.len(), 2);
    assert_eq!(params.get("limit"), Some(&"50".to_string()));
    assert_eq!(pairs(&params), vec![pair("limit", "50"), pair("page", "1")]);
}

#[test]
fn entries_ascend_by_name_whatever_the_insertion_order() {
    let names = ["track", "api_key", "sk", "method", "artist"];
    let mut forward = ParameterSet::new();
    for name in names.iter() {
        forward.insert(name.to_string(), format!("v-{}", name));
    }
    let mut backward = ParameterSet::new();
    for name in names.iter().rev() {
        backward.insert(name.to_string(), format!("v-{}", name));
    }
    let expected = vec![
        pair("api_key", "v-api_key"),
        pair("artist", "v-artist"),
        pair("method", "v-method"),
        pair("sk", "v-sk"),
        pair("track", "v-track"),
    ];
    assert_eq!(pairs(&forward), expected);
    assert_eq!(pairs(&backward), expected);
}

#[test]
fn entries_are_ordered_by_bytes_not_by_alphabet() {
    let mut params = ParameterSet::new();
    for name in ["b", "a", "B", "ab", "", "é", "z", "a0", "A"] {
        params.insert(name.to_string(), "x".to_string());
    }
    let names: Vec<String> = params.entries().iter().map(|p| p.0.clone()).collect();
    assert_eq!(names, vec!["", "A", "B", "a", "a0", "ab", "b", "z", "é"]);
}

#[test]
fn entries_agree_with_the_order_of_strings() {
    let names = ["sk", "api_sig", "api_key", "format", "method", "user", "limit", "page", "token"];
    let mut params = ParameterSet::new();
    for name in names {
        params.insert(name.to_string(), name.to_uppercase());
    }
    let mut sorted: Vec<(String, String)> =
        names.iter().map(|n| (n.to_string(), n.to_uppercase())).collect();
    sorted.sort();
    assert_eq!(pairs(&params), sorted);
    assert_eq!(params.len(), names.len());
}

#[test]
fn clone_holds_the_same_parameters() {
    let mut params = ParameterSet::new();
    params.insert("b".to_string(), "2".to_string());
    params.insert("a".to_string(), "1".to_string());
    let copy = params.clone();
    params.insert("c".to_string(), "3".to_string());
    assert_eq!(pairs(&copy), vec![pair("a", "1"), pair("b", "2")]);
    assert_eq!(params.len(), 3);
}

#[test]
fn compare_names_orders_by_bytes() {
    assert_eq!(compare_names("a", "b"), NameOrder::Before);
    assert_eq!(compare_names("b", "a"), NameOrder::After);
    assert_eq!(compare_names("method", "method"), NameOrder::Same);
    assert_eq!(compare_names("", ""), NameOrder::Same);
    assert_eq!(compare_names("", "a"), NameOrder::Before);
    assert_eq!(compare_names("a", ""), NameOrder::After);
    assert_eq!(compare_names("api_key", "api_sig"), NameOrder::Before);
    assert_eq!(compare_names("api", "api_key"), NameOrder::Before);
    assert_eq!(compare_names("Z", "a"), NameOrder::Before);
    assert_eq!(compare_names("z", "é"), NameOrder::Before);
    assert_eq!(compare_names("é", "♫"), NameOrder::Before);
}

#[test]
fn compare_names_agrees_with_the_order_of_strings() {
    let names = ["", "a", "A", "ab", "abc", "b", "é", "e", "♫", "zz", "z", "0", "_", "api_key"];
    for a in names {
        for b in names {
            let expected = match a.cmp(b) {
                std::cmp::Ordering::Less => NameOrder::Before,
                std::cmp::Ordering::Equal => NameOrder::Same,
                std::cmp::Ordering::Greater => NameOrder::After,
            };
            assert_eq!(compare_names(a, b), expected, "{:?} against {:?}", a, b);
        }
    }
}

use susum::aws::Tag;
use susum::tag_order::{build_instance, key_precedes, sort_tags};

fn tag(k: &str, v: &str) -> Tag {
    Tag::new(k.to_string(), v.to_string())
}

fn keys(tags: &[Tag]) -> Vec<String> {
    tags.iter().map(|t| t.key.clone()).collect()
}

#[test]
fn name_tag_goes_first_then_by_key() {
    let sorted = sort_tags(vec![tag("env", "prod"), tag("Name", "web"), tag("app", "x")]);
    assert_eq!(keys(&sorted), vec!["Name", "app", "env"]);
    assert_eq!(sorted[0].value, "web");
}

#[test]
fn keys_order_by_code_point() {
    assert!(key_precedes("Name", "Name"));
    assert!(key_precedes("Name", "a"));
    assert!(!key_precedes("a", "Name"));
    assert!(key_precedes("Zeta", "alpha"));
    assert!(!key_precedes("b", "a"));
    assert!(key_precedes("ab", "abc"));
    assert!(!key_precedes("abc", "ab"));
    assert!(key_precedes("Names", "Namf"));
}

#[test]
fn sort_without_name_is_by_key_and_stable() {
    let sorted = sort_tags(vec![tag("b", "1"), tag("a", "2"), tag("b", "3")]);
    assert_eq!(keys(&sorted), vec!["a", "b", "b"]);
    assert_eq!(sorted[1].value, "1");
    assert_eq!(sorted[2].value, "3");
    assert!(sort_tags(vec![]).is_empty());
}

#[test]
fn instance_without_id_is_skipped() {
    assert!(build_instance(None, vec![(Some("Name".to_string()), Some("web".to_string()))]).is_none());
}

#[test]
fn incomplete_tags_are_dropped_and_rest_ordered() {
    let raw = vec![
        (Some("env".to_string()), Some("prod".to_string())),
        (Some("orphan".to_string()), None),
        (None, Some("lost".to_string())),
        (Some("Name".to_string()), Some("web".to_string())),
    ];
    let inst = build_instance(Some("i-7".to_string()), raw).unwrap();
    assert_eq!(inst.instance_id, "i-7");
    assert_eq!(keys(&inst.tags), vec!["Name", "env"]);
    assert_eq!(inst.display(), "i-7 Name: web, env: prod");
}

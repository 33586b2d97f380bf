use morrows::completion::{completion_criteria, escape_pointer_token};
use morrows::json::Json;

fn to_value(v: &Json) -> serde_json::Value {
    match v {
        Json::Null => serde_json::Value::Null,
        Json::Bool(b) => serde_json::Value::Bool(*b),
        Json::Number(n) => serde_json::from_str(n).unwrap(),
        Json::Str(s) => serde_json::Value::String(s.clone()),
        Json::Array(a) => serde_json::Value::Array(a.iter().map(to_value).collect()),
        Json::Object(o) => {
            serde_json::Value::Object(o.iter().map(|(k, v)| (k.clone(), to_value(v))).collect())
        }
    }
}

fn obj(entries: Vec<(&str, Json)>) -> Json {
    Json::Object(entries.into_iter().map(|(k, v)| (k.to_string(), v)).collect())
}

fn paths(constraints: Json) -> Vec<String> {
    completion_criteria(constraints).into_iter().map(|c| c.path).collect()
}

#[test]
fn criteria_are_addressed_by_stable_pointers() {
    let constraints = obj(vec![
        (
            "acceptance_criteria",
            Json::Array(vec![Json::Str("a".into()), obj(vec![("rich", Json::Bool(true))])]),
        ),
        ("freeze_requires", obj(vec![("a/b", Json::Null), ("x~y", Json::Str("z".into()))])),
        ("other", Json::Str("ignored".into())),
    ]);
    assert_eq!(
        paths(constraints),
        vec![
            "/acceptance_criteria/0",
            "/acceptance_criteria/1",
            "/freeze_requires/a~1b",
            "/freeze_requires/x~0y"
        ]
    );
}

#[test]
fn scalar_null_and_blank_criteria() {
    assert_eq!(
        paths(obj(vec![("acceptance_criteria", Json::Str("ship it".into()))])),
        vec!["/acceptance_criteria"]
    );
    assert_eq!(
        paths(obj(vec![("acceptance_criteria", Json::Number("3".into()))])),
        vec!["/acceptance_criteria"]
    );
    assert!(paths(obj(vec![("acceptance_criteria", Json::Str("  ".into()))])).is_empty());
    assert!(paths(obj(vec![("freeze_requires", Json::Null)])).is_empty());
    assert!(paths(Json::Array(vec![])).is_empty());
}

#[test]
fn requirements_are_kept_whole() {
    let c = completion_criteria(obj(vec![(
        "acceptance_criteria",
        Json::Array(vec![obj(vec![("must", Json::Str("pass".into()))])]),
    )]));
    assert_eq!(c.len(), 1);
    match &c[0].requirement {
        Json::Object(e) => {
            assert_eq!(e[0].0, "must");
            assert!(matches!(&e[0].1, Json::Str(s) if s == "pass"));
        }
        _ => panic!("requirement was not kept"),
    }
    assert_eq!(escape_pointer_token("~/"), "~0~1");
}

#[test]
fn escaped_member_names_stay_distinct() {
    assert_eq!(escape_pointer_token("a/b~c"), "a~1b~0c");
    assert_eq!(escape_pointer_token("~1"), "~01");
    assert_ne!(escape_pointer_token("~1"), escape_pointer_token("/"));
    assert_ne!(escape_pointer_token("a/b"), escape_pointer_token("a~1b"));
}

#[test]
fn every_criterion_path_resolves_to_its_requirement() {
    let constraints = obj(vec![
        (
            "acceptance_criteria",
            Json::Array((0..12).map(|i| Json::Number(i.to_string())).collect()),
        ),
        ("freeze_requires", obj(vec![("a/b", Json::Null), ("~1", Json::Bool(true)), ("/", Json::Str("x".into()))])),
    ]);
    let value = to_value(&constraints);
    let criteria = completion_criteria(constraints);
    assert_eq!(criteria.len(), 15);
    let mut paths = std::collections::HashSet::new();
    for c in &criteria {
        assert_eq!(value.pointer(&c.path), Some(&to_value(&c.requirement)));
        assert!(paths.insert(c.path.clone()));
    }
    let scalar = obj(vec![("freeze_requires", Json::Str("frozen".into()))]);
    let value = to_value(&scalar);
    let c = completion_criteria(scalar);
    assert_eq!(value.pointer(&c[0].path), Some(&serde_json::Value::String("frozen".into())));
}

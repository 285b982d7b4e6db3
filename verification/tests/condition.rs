use raiden::attr::{AttributeType, AttributeValue};
use raiden::condition::{condition, CmpOp};
use raiden::ValueIdGen;

#[test]
fn test_attribute_exists_condition() {
    let cond = condition().attr_exists("name");
    let mut gen = ValueIdGen::new();
    let (condition_expression, attribute_names, _attribute_values) = cond.build(&mut gen);
    assert_eq!(condition_expression, "attribute_exists(#name)".to_owned());
    assert_eq!(attribute_names.len(), 1);
    assert_eq!(attribute_names.get("#name"), Some(&"name".to_owned()));
}

#[test]
fn test_not_attribute_exists_condition() {
    let cond = condition().not().attr_exists("name");
    let mut gen = ValueIdGen::new();
    let (condition_expression, attribute_names, _attribute_values) = cond.build(&mut gen);
    assert_eq!(
        condition_expression,
        "NOT (attribute_exists(#name))".to_owned(),
    );
    assert_eq!(attribute_names.len(), 1);
    assert_eq!(attribute_names.get("#name"), Some(&"name".to_owned()));
}

#[test]
fn test_attribute_not_exists_condition() {
    let cond = condition().attr_not_exists("name");
    let mut gen = ValueIdGen::new();
    let (condition_expression, attribute_names, _attribute_values) = cond.build(&mut gen);
    assert_eq!(
        condition_expression,
        "attribute_not_exists(#name)".to_owned(),
    );
    assert_eq!(attribute_names.len(), 1);
    assert_eq!(attribute_names.get("#name"), Some(&"name".to_owned()));
}

#[test]
fn test_attribute_not_exists_condition_and_conjunction() {
    let cond = condition()
        .attr_not_exists("name")
        .and(condition().attr_not_exists("id"));
    let mut gen = ValueIdGen::new();
    let (condition_expression, attribute_names, _attribute_values) = cond.build(&mut gen);
    assert_eq!(
        condition_expression,
        "attribute_not_exists(#name) AND (attribute_not_exists(#id))".to_owned()
    );
    assert_eq!(attribute_names.len(), 2);
    assert_eq!(attribute_names.get("#name"), Some(&"name".to_owned()));
    assert_eq!(attribute_names.get("#id"), Some(&"id".to_owned()));
}

#[test]
fn test_attribute_type_condition() {
    let cond = condition().attr_type("id", AttributeType::S);
    let mut gen = ValueIdGen::new();
    let (condition_expression, attribute_names, attribute_values) = cond.build(&mut gen);
    assert_eq!(
        condition_expression,
        "attribute_type(#id, :typeS)".to_owned()
    );
    assert_eq!(attribute_names.len(), 1);
    assert_eq!(attribute_names.get("#id"), Some(&"id".to_owned()));
    assert_eq!(attribute_values.len(), 1);
    assert_eq!(
        attribute_values.get(":typeS"),
        Some(&AttributeValue::S("S".to_string()))
    );
}

#[test]
fn test_begins_with_condition() {
    let cond = condition().begins_with("name", "boku");
    let mut gen = ValueIdGen::new();
    let (condition_expression, attribute_names, attribute_values) = cond.build(&mut gen);
    assert_eq!(
        condition_expression,
        "begins_with(#name, :begins_with_17d8e2e8233d9a6ae428061cb2cdf226)".to_owned()
    );
    assert_eq!(attribute_names.len(), 1);
    assert_eq!(attribute_names.get("#name"), Some(&"name".to_owned()));
    assert_eq!(attribute_values.len(), 1);
    assert_eq!(
        attribute_values.get(":begins_with_17d8e2e8233d9a6ae428061cb2cdf226"),
        Some(&AttributeValue::S("boku".to_string()))
    );
}

#[test]
fn test_and_condition() {
    let cond = condition()
        .attr_exists("name")
        .and(condition().attr_exists("id"));
    let mut gen = ValueIdGen::new();
    let (condition_expression, attribute_names, _attribute_values) = cond.build(&mut gen);
    assert_eq!(
        condition_expression,
        "attribute_exists(#name) AND (attribute_exists(#id))".to_owned(),
    );
    assert_eq!(attribute_names.len(), 2);
    assert_eq!(attribute_names.get("#id"), Some(&"id".to_owned()));
    assert_eq!(attribute_names.get("#name"), Some(&"name".to_owned()));
}

#[test]
fn test_three_and_condition() {
    let cond = condition().attr_exists("name").and(
        condition().attr_exists("id").and(
            condition()
                .attr_exists("id")
                .and(condition().attr_exists("id")),
        ),
    );
    let mut gen = ValueIdGen::new();
    let (condition_expression, attribute_names, _attribute_values) = cond.build(&mut gen);
    assert_eq!(
        condition_expression,
        "attribute_exists(#name) AND (attribute_exists(#id) AND (attribute_exists(#id) AND (attribute_exists(#id))))".to_owned(),
    );
    assert_eq!(attribute_names.len(), 2);
    assert_eq!(attribute_names.get("#id"), Some(&"id".to_owned()));
    assert_eq!(attribute_names.get("#name"), Some(&"name".to_owned()));
}

#[test]
fn test_cmp_eq_attr_attr_condition() {
    let cond = condition().attr("name").eq_attr("name");
    let mut gen = ValueIdGen::new();
    let (condition_expression, attribute_names, _attribute_values) = cond.build(&mut gen);
    assert_eq!(condition_expression, "#name = #name".to_owned());
    assert_eq!(attribute_names.len(), 1);
    assert_eq!(attribute_names.get("#name"), Some(&"name".to_owned()));
}

#[test]
fn test_cmp_eq_value_attr_condition() {
    let mut gen = ValueIdGen::new();
    let cond = condition()
        .value(AttributeValue::S("bokuweb".to_string()))
        .eq_attr("name");
    let (condition_expression, attribute_names, attribute_values) = cond.build(&mut gen);
    assert_eq!(condition_expression, ":value0 = #name".to_owned());
    assert_eq!(attribute_names.len(), 1);
    assert_eq!(attribute_names.get("#name"), Some(&"name".to_owned()));
    assert_eq!(attribute_values.len(), 1);
    assert_eq!(
        attribute_values.get(":value0"),
        Some(&AttributeValue::S("bokuweb".to_string()))
    );
}

#[test]
fn test_or_condition() {
    let cond = condition()
        .attr_exists("name")
        .or(condition().attr_not_exists("id"));
    let mut gen = ValueIdGen::new();
    let (condition_expression, attribute_names, _attribute_values) = cond.build(&mut gen);
    assert_eq!(
        condition_expression,
        "attribute_exists(#name) OR (attribute_not_exists(#id))".to_owned(),
    );
    assert_eq!(attribute_names.len(), 2);
}

#[test]
fn test_cmp_ops_render() {
    let mut gen = ValueIdGen::new();
    let (le, _, _) = condition()
        .attr("age")
        .cmp_value(CmpOp::Le, AttributeValue::N("21".to_string()))
        .build(&mut gen);
    assert_eq!(le, "#age <= :value0");
    let (ne, _, _) = condition()
        .attr("age")
        .cmp_attr(CmpOp::Ne, "limit")
        .build(&mut gen);
    assert_eq!(ne, "#age <> #limit");
}

#[test]
fn test_value_placeholders_never_reused() {
    let mut gen = ValueIdGen::new();
    let (first, _, values1) = condition()
        .value(AttributeValue::S("same".to_string()))
        .cmp_value(CmpOp::Eq, AttributeValue::S("same".to_string()))
        .build(&mut gen);
    assert_eq!(first, ":value0 = :value1");
    assert_eq!(values1.len(), 2);
    assert_eq!(
        values1.get(":value0"),
        Some(&AttributeValue::S("same".to_string()))
    );
    assert_eq!(
        values1.get(":value1"),
        Some(&AttributeValue::S("same".to_string()))
    );
    // A later build from the same generator continues the numbering.
    let (second, _, values2) = condition()
        .value(AttributeValue::S("same".to_string()))
        .eq_attr("name")
        .build(&mut gen);
    assert_eq!(second, ":value2 = #name");
    assert!(values2.get(":value0").is_none());
}

#[test]
fn test_attr_type_placeholder_shared_across_builds() {
    let mut gen = ValueIdGen::new();
    let (e1, _, v1) = condition().attr_type("id", AttributeType::S).build(&mut gen);
    let (e2, _, v2) = condition()
        .attr_type("name", AttributeType::S)
        .build(&mut gen);
    assert_eq!(e1, "attribute_type(#id, :typeS)");
    assert_eq!(e2, "attribute_type(#name, :typeS)");
    assert_eq!(v1.get(":typeS"), v2.get(":typeS"));
    let (e3, _, v3) = condition()
        .attr_type("id", AttributeType::Bool)
        .build(&mut gen);
    assert_eq!(e3, "attribute_type(#id, :typeBOOL)");
    assert_eq!(
        v3.get(":typeBOOL"),
        Some(&AttributeValue::S("BOOL".to_string()))
    );
}

#[test]
fn test_begins_with_placeholder_shared_and_distinct() {
    let mut gen = ValueIdGen::new();
    let (e1, _, _) = condition().begins_with("name", "boku").build(&mut gen);
    let (e2, _, _) = condition().begins_with("id", "boku").build(&mut gen);
    let suffix1 = e1.rsplit(":begins_with_").next().unwrap().to_string();
    let suffix2 = e2.rsplit(":begins_with_").next().unwrap().to_string();
    assert_eq!(suffix1.trim_end_matches(')'), suffix2.trim_end_matches(')'));
    let (e3, _, _) = condition().begins_with("name", "weruboku").build(&mut gen);
    let suffix3 = e3.rsplit(":begins_with_").next().unwrap().to_string();
    assert_ne!(suffix1.trim_end_matches(')'), suffix3.trim_end_matches(')'));
}

#[test]
fn test_alias_deduplicated_within_one_tree() {
    // The same field referenced three times yields one alias entry.
    let cond = condition().attr_exists("id").and(
        condition()
            .attr_not_exists("id")
            .and(condition().attr("id").eq_attr("id")),
    );
    let mut gen = ValueIdGen::new();
    let (_, attribute_names, _) = cond.build(&mut gen);
    assert_eq!(attribute_names.len(), 1);
    assert!(attribute_names.contains_key("#id"));
    assert!(!attribute_names.contains_key("#name"));
    assert_eq!(attribute_names.get("#id"), Some(&"id".to_owned()));
}

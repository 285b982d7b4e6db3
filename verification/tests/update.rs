use raiden::attr::AttributeValue;
use raiden::update::UpdateExpressionBuilder;
use raiden::ValueIdGen;

#[test]
fn test_set_expression() {
    let mut gen = ValueIdGen::new();
    let b = UpdateExpressionBuilder::new()
        .set("name", AttributeValue::S("bokuweb".to_string()))
        .set("age", AttributeValue::N("30".to_string()));
    let (expression, names, values) = b.build_expression(&mut gen);
    assert_eq!(expression, "SET #name = :value0, #age = :value1");
    assert_eq!(names.len(), 2);
    assert_eq!(names.get("#name"), Some(&"name".to_owned()));
    assert_eq!(names.get("#age"), Some(&"age".to_owned()));
    assert_eq!(values.len(), 2);
    assert_eq!(
        values.get(":value0"),
        Some(&AttributeValue::S("bokuweb".to_string()))
    );
    assert_eq!(
        values.get(":value1"),
        Some(&AttributeValue::N("30".to_string()))
    );
}

#[test]
fn test_all_categories_fixed_order() {
    // Counter numbers follow accumulation order (set, add, remove, delete)
    // while the printed order puts ADD first; the remove entry consumes
    // :value2 without emitting it.
    let mut gen = ValueIdGen::new();
    let b = UpdateExpressionBuilder::new()
        .set("updated_at", AttributeValue::S("2020-01-01".to_string()))
        .add("ids", AttributeValue::N("1".to_string()))
        .remove("obsolete")
        .delete("tags", AttributeValue::Ss(vec!["old".to_string()]));
    let (expression, names, values) = b.build_expression(&mut gen);
    assert_eq!(
        expression,
        "ADD #ids :value1 SET #updated_at = :value0 REMOVE #obsolete DELETE #tags :value3"
    );
    assert_eq!(names.len(), 4);
    assert_eq!(names.get("#obsolete"), Some(&"obsolete".to_owned()));
    assert_eq!(values.len(), 3);
    assert!(values.get(":value2").is_none());
    assert_eq!(
        values.get(":value3"),
        Some(&AttributeValue::Ss(vec!["old".to_string()]))
    );
}

#[test]
fn test_empty_builder_builds_empty_expression() {
    let mut gen = ValueIdGen::new();
    let (expression, names, values) = UpdateExpressionBuilder::new().build_expression(&mut gen);
    assert_eq!(expression, "");
    assert_eq!(names.len(), 0);
    assert_eq!(values.len(), 0);
}

#[test]
fn test_remove_only_expression() {
    let mut gen = ValueIdGen::new();
    let b = UpdateExpressionBuilder::new().remove("a").remove("b");
    let (expression, names, values) = b.build_expression(&mut gen);
    assert_eq!(expression, "REMOVE #a, #b");
    assert_eq!(names.len(), 2);
    assert_eq!(values.len(), 0);
}

#[test]
fn test_repeated_field_alias_collapses() {
    let mut gen = ValueIdGen::new();
    let b = UpdateExpressionBuilder::new()
        .set("n", AttributeValue::N("1".to_string()))
        .set("n", AttributeValue::N("2".to_string()));
    let (expression, names, values) = b.build_expression(&mut gen);
    assert_eq!(expression, "SET #n = :value0, #n = :value1");
    assert_eq!(names.len(), 1);
    assert_eq!(values.len(), 2);
}

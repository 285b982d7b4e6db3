use raiden::attr::{AttrValueTable, AttributeValue};
use raiden::codec::{
    decode_field, decode_item, encode, is_decimal_str, resolve_attr_key, FieldSpec, FieldType,
    FieldValue,
};
use raiden::error::RaidenError;

fn field(ident: &str, required: bool, ty: FieldType) -> FieldSpec {
    FieldSpec {
        ident: ident.to_string(),
        attr_key: ident.to_string(),
        required,
        ty,
    }
}

#[test]
fn test_encode_shapes() {
    assert_eq!(
        encode(FieldValue::S("a".to_string())),
        AttributeValue::S("a".to_string())
    );
    assert_eq!(
        encode(FieldValue::N("-7".to_string())),
        AttributeValue::N("-7".to_string())
    );
    assert_eq!(encode(FieldValue::Bool(true)), AttributeValue::Bool(true));
    assert_eq!(encode(FieldValue::Absent), AttributeValue::Null);
}

#[test]
fn test_decode_required_field_absent() {
    let item = AttrValueTable::new();
    let f = field("id", true, FieldType::S);
    assert_eq!(
        decode_field(&f, &item),
        Err(RaidenError::AttributeValueNotFound {
            attr_name: "id".to_string()
        })
    );
}

#[test]
fn test_decode_optional_field_absent_is_empty() {
    let item = AttrValueTable::new();
    let f = field("nickname", false, FieldType::S);
    assert_eq!(decode_field(&f, &item), Ok(FieldValue::Absent));
}

#[test]
fn test_decode_type_mismatch() {
    let mut item = AttrValueTable::new();
    item.insert("age".to_string(), AttributeValue::S("thirty".to_string()));
    let f = field("age", true, FieldType::N);
    assert_eq!(
        decode_field(&f, &item),
        Err(RaidenError::AttributeConvertError {
            attr_name: "age".to_string()
        })
    );
}

#[test]
fn test_decode_number_value() {
    let mut item = AttrValueTable::new();
    item.insert("age".to_string(), AttributeValue::N("-42".to_string()));
    let f = field("age", true, FieldType::N);
    assert_eq!(decode_field(&f, &item), Ok(FieldValue::N("-42".to_string())));

    let mut bad = AttrValueTable::new();
    bad.insert("age".to_string(), AttributeValue::N("4x2".to_string()));
    assert_eq!(
        decode_field(&f, &bad),
        Err(RaidenError::AttributeConvertError {
            attr_name: "age".to_string()
        })
    );
}

#[test]
fn test_decode_item_first_failure_wins() {
    let mut item = AttrValueTable::new();
    item.insert("name".to_string(), AttributeValue::S("bokuweb".to_string()));
    item.insert("age".to_string(), AttributeValue::Bool(false));
    let fields = vec![
        field("id", true, FieldType::S),
        field("age", true, FieldType::N),
        field("name", true, FieldType::S),
    ];
    // Both `id` (absent) and `age` (mismatched) fail; the first field's
    // error is the one reported.
    assert_eq!(
        decode_item(&fields, &item),
        Err(RaidenError::AttributeValueNotFound {
            attr_name: "id".to_string()
        })
    );
}

#[test]
fn test_decode_item_in_field_order() {
    let mut item = AttrValueTable::new();
    item.insert("id".to_string(), AttributeValue::S("a1".to_string()));
    item.insert("active".to_string(), AttributeValue::Bool(true));
    let fields = vec![
        field("id", true, FieldType::S),
        field("active", true, FieldType::Bool),
        field("nickname", false, FieldType::S),
    ];
    assert_eq!(
        decode_item(&fields, &item),
        Ok(vec![
            FieldValue::S("a1".to_string()),
            FieldValue::Bool(true),
            FieldValue::Absent,
        ])
    );
}

#[test]
fn test_resolve_attr_key_precedence() {
    assert_eq!(
        resolve_attr_key("created_at", Some("createdAt!"), Some("createdAt")),
        "createdAt!".to_string()
    );
    assert_eq!(
        resolve_attr_key("created_at", None, Some("createdAt")),
        "createdAt".to_string()
    );
    assert_eq!(resolve_attr_key("created_at", None, None), "created_at".to_string());
}

#[test]
fn test_is_decimal_str() {
    assert!(is_decimal_str("0"));
    assert!(is_decimal_str("907"));
    assert!(is_decimal_str("-35"));
    assert!(!is_decimal_str(""));
    assert!(!is_decimal_str("-"));
    assert!(!is_decimal_str("12a"));
    assert!(!is_decimal_str("a12"));
}

use fankor_macros::numbers::parse_decimal;
use fankor_macros::naming::{decimal_text, field_offsets, ts_field_names, OffsetItem};
use fankor_macros::syntax::FieldsShape;

#[test]
fn decimal_text_writes_digits() {
    assert_eq!(decimal_text(0), "0");
    assert_eq!(decimal_text(7), "7");
    assert_eq!(decimal_text(10), "10");
    assert_eq!(decimal_text(1234), "1234");
    assert_eq!(decimal_text(usize::MAX), usize::MAX.to_string());
}

#[test]
fn struct_field_offsets() {
    let item = OffsetItem::Struct(vec!["owner_key".to_string(), "amount".to_string()]);
    let offsets = field_offsets(&item);
    assert_eq!(offsets.len(), 2);
    assert_eq!(offsets[0].name, "OwnerKey");
    assert_eq!(offsets[0].variant, None);
    assert_eq!(offsets[0].field, 0);
    assert_eq!(offsets[0].base, 0);
    assert_eq!(offsets[1].name, "Amount");
    assert_eq!(offsets[1].field, 1);
}

#[test]
fn enum_field_offsets() {
    let item = OffsetItem::Enum(vec![
        ("Empty".to_string(), FieldsShape::Unit),
        ("Named".to_string(), FieldsShape::Named(vec!["first_value".to_string()])),
        ("Tuple".to_string(), FieldsShape::Unnamed(2)),
    ]);
    let offsets = field_offsets(&item);
    let names: Vec<&str> = offsets.iter().map(|o| o.name.as_str()).collect();
    assert_eq!(names, vec!["NamedFirstValue", "Tuple0", "Tuple1"]);
    assert_eq!(offsets[0].variant, Some(1));
    assert_eq!(offsets[2].variant, Some(2));
    assert_eq!(offsets[2].field, 1);
    assert!(offsets.iter().all(|o| o.base == 1));
}

#[test]
fn typescript_field_names() {
    let names = vec!["user_name".to_string(), "amount".to_string()];
    assert_eq!(ts_field_names(&names), vec!["userName".to_string(), "amount".to_string()]);
}

#[test]
fn decimal_text_reads_back() {
    for n in [0usize, 9, 10, 99, 100, 65535, 123456789] {
        assert_eq!(parse_decimal(&decimal_text(n), u64::MAX), Ok(n as u64));
    }
}

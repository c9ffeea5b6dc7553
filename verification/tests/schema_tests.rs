use roas::v3_1::schema::EmptySchema;

#[test]
fn empty_schema_default_is_unit_value() {
    assert_eq!(EmptySchema, <EmptySchema as Default>::default());
}

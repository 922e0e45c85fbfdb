use wmish::wmi::{
    classify_vartype, int_to_decimal, nat_to_decimal, variant_to_string, visible_property_names, Variant,
    VariantKind, VT_ARRAY, VT_BOOL, VT_BSTR, VT_EMPTY, VT_I2, VT_I4, VT_NULL, VT_UI2, VT_UI4,
};

#[test]
fn classifies_type_tags() {
    assert_eq!(classify_vartype(VT_ARRAY | VT_BSTR), VariantKind::Array);
    assert_eq!(classify_vartype(VT_ARRAY), VariantKind::Array);
    assert_eq!(classify_vartype(VT_BSTR), VariantKind::Bstr);
    assert_eq!(classify_vartype(VT_I4), VariantKind::I4);
    assert_eq!(classify_vartype(VT_UI4), VariantKind::UI4);
    assert_eq!(classify_vartype(VT_I2), VariantKind::I2);
    assert_eq!(classify_vartype(VT_UI2), VariantKind::UI2);
    assert_eq!(classify_vartype(VT_BOOL), VariantKind::Bool);
    assert_eq!(classify_vartype(VT_NULL), VariantKind::Null);
    assert_eq!(classify_vartype(VT_EMPTY), VariantKind::Empty);
    assert_eq!(classify_vartype(0x4008), VariantKind::Other);
    assert_eq!(classify_vartype(17), VariantKind::Other);
}

#[test]
fn renders_scalars() {
    assert_eq!(variant_to_string(&Variant::Bstr("svchost.exe".to_string())), "svchost.exe");
    assert_eq!(variant_to_string(&Variant::I4(-42)), "-42");
    assert_eq!(variant_to_string(&Variant::I4(i32::MIN)), "-2147483648");
    assert_eq!(variant_to_string(&Variant::UI4(u32::MAX)), "4294967295");
    assert_eq!(variant_to_string(&Variant::I2(i16::MIN)), "-32768");
    assert_eq!(variant_to_string(&Variant::UI2(0)), "0");
    assert_eq!(variant_to_string(&Variant::Bool(-1)), "true");
    assert_eq!(variant_to_string(&Variant::Bool(0)), "false");
    assert_eq!(variant_to_string(&Variant::Null), "null");
    assert_eq!(variant_to_string(&Variant::Empty), "");
    assert_eq!(variant_to_string(&Variant::Other(17)), "VARENUM(17)");
}

#[test]
fn renders_arrays() {
    assert_eq!(variant_to_string(&Variant::NullArray), "[]");
    assert_eq!(variant_to_string(&Variant::Array { lower: Some(0), upper: Some(2) }), "[..., ..., ...]");
    assert_eq!(variant_to_string(&Variant::Array { lower: Some(3), upper: Some(3) }), "[...]");
    assert_eq!(variant_to_string(&Variant::Array { lower: Some(1), upper: Some(0) }), "[]");
    assert_eq!(variant_to_string(&Variant::Array { lower: None, upper: None }), "[]");
    assert_eq!(variant_to_string(&Variant::Array { lower: None, upper: Some(1) }), "[..., ...]");
}

#[test]
fn decimal_notation() {
    assert_eq!(nat_to_decimal(0), "0");
    assert_eq!(nat_to_decimal(1234567890), "1234567890");
    assert_eq!(nat_to_decimal(u64::MAX), u64::MAX.to_string());
    assert_eq!(int_to_decimal(-1), "-1");
    assert_eq!(int_to_decimal(i64::MAX), i64::MAX.to_string());
}

#[test]
fn hides_system_properties() {
    let names: Vec<String> = ["__CLASS", "Name", "_x", "__PATH", "Caption", "_"].iter().map(|s| s.to_string()).collect();
    let expected: Vec<String> = ["Name", "_x", "Caption", "_"].iter().map(|s| s.to_string()).collect();
    assert_eq!(visible_property_names(names), expected);
}

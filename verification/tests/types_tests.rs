use tpl_lang::types::{
    clean_array_datatype, get_array_datatype_len, get_int_order, is_arr_type, is_ptr_type,
    literal_fits_type, literal_int_type, type_fmt, unwrap_ptr_type, validate_types,
};

#[test]
fn validate_types_test() {
    let types_array = [
        "int8".to_string(),
        "int8".to_string(),
        "int8".to_string(),
        "int8".to_string(),
    ];
    let expected_type = "int8".to_string();

    assert!(validate_types(&types_array, expected_type));
}

#[test]
#[should_panic]
fn validate_types_test_2() {
    let types_array = [
        "int8".to_string(),
        "int8".to_string(),
        "int32".to_string(),
        "int8".to_string(),
    ];
    let expected_type = "int8".to_string();

    assert!(validate_types(&types_array, expected_type));
}

#[test]
fn validate_types_of_nothing() {
    let types_array: [String; 0] = [];
    assert!(validate_types(&types_array, "str".to_string()));
}

#[test]
fn int_orders() {
    assert_eq!(get_int_order("int8"), 0);
    assert_eq!(get_int_order("int16"), 1);
    assert_eq!(get_int_order("int32"), 2);
    assert_eq!(get_int_order("int64"), 3);
    assert_eq!(get_int_order("int128"), -1);
    assert_eq!(get_int_order("str"), -1);
    assert_eq!(get_int_order(""), -1);
}

#[test]
fn pointer_types() {
    assert!(is_ptr_type("int8*"));
    assert!(is_ptr_type("*"));
    assert!(!is_ptr_type("int8"));
    assert!(!is_ptr_type(""));
    assert_eq!(unwrap_ptr_type("int8*"), "int8");
    assert_eq!(unwrap_ptr_type("int8**"), "int8*");
    assert_eq!(unwrap_ptr_type("str"), "str");
    assert_eq!(unwrap_ptr_type(""), "");
}

#[test]
fn array_types() {
    assert!(is_arr_type("int8[3]"));
    assert!(!is_arr_type("int8[3"));
    assert!(!is_arr_type("int8"));
    assert_eq!(clean_array_datatype("int8[3]"), "int8");
    assert_eq!(clean_array_datatype("str"), "str");
    assert_eq!(get_array_datatype_len("int8[3]"), 3);
    assert_eq!(get_array_datatype_len("int64[ 120 ]"), 120);
    assert_eq!(get_array_datatype_len("bool[+7]"), 7);
}

#[test]
fn printf_formats() {
    assert_eq!(type_fmt("int8"), "%d");
    assert_eq!(type_fmt("int16"), "%hd");
    assert_eq!(type_fmt("int32"), "%d");
    assert_eq!(type_fmt("int64"), "%lld");
    assert_eq!(type_fmt("bool"), "%s");
    assert_eq!(type_fmt("str"), "%s");
}

#[test]
fn literal_types() {
    assert_eq!(literal_int_type(15), "int8");
    assert_eq!(literal_int_type(-128), "int8");
    assert_eq!(literal_int_type(127), "int8");
    assert_eq!(literal_int_type(128), "int16");
    assert_eq!(literal_int_type(200), "int16");
    assert_eq!(literal_int_type(-129), "int16");
    assert_eq!(literal_int_type(256), "int16");
    assert_eq!(literal_int_type(32767), "int16");
    assert_eq!(literal_int_type(-32768), "int16");
    assert_eq!(literal_int_type(32768), "int32");
    assert_eq!(literal_int_type(65535), "int32");
    assert_eq!(literal_int_type(-2_147_483_648), "int32");
    assert_eq!(literal_int_type(2_147_483_647), "int32");
    assert_eq!(literal_int_type(2_147_483_648), "int64");
    assert_eq!(literal_int_type(i64::MIN), "int64");
}

#[test]
fn literals_fit_wider_types() {
    assert!(literal_fits_type(15, "int8"));
    assert!(literal_fits_type(15, "int64*"));
    assert!(!literal_fits_type(256, "int8"));
    assert!(literal_fits_type(256, "int16"));
    assert!(!literal_fits_type(200, "int8"));
    assert!(literal_fits_type(-128, "int8*"));
    assert!(!literal_fits_type(70000, "int16*"));
    assert!(!literal_fits_type(1, "str"));
}

#[test]
fn array_type_names_read_back() {
    for (t, n) in [("int8", 3u64), ("str*", 0), ("bool", 18446744073709551615)] {
        let name = format!("{}[{}]", t, n);
        assert_eq!(get_array_datatype_len(&name), n);
        assert_eq!(clean_array_datatype(&name), t);
    }
}

use tpl_lang::builtins::{print_pieces, PrintError};
use tpl_lang::builtins::{
    array_length, array_print_pieces, element_print_format, int_conversion, print_format,
    print_line_format, IntConversion,
};

#[test]
fn print_formats_by_type() {
    assert_eq!(print_format("int8"), Some("%d"));
    assert_eq!(print_format("int16"), Some("%hd"));
    assert_eq!(print_format("int32"), Some("%d"));
    assert_eq!(print_format("int64"), Some("%lld"));
    assert_eq!(print_format("bool"), Some("%s"));
    assert_eq!(print_format("str"), Some("%s"));
    assert_eq!(print_format("char"), Some("%c"));
    assert_eq!(print_format("void"), None);
    assert_eq!(element_print_format("str"), Some("\"%s\""));
    assert_eq!(element_print_format("char"), Some("'%c'"));
    assert_eq!(element_print_format("int64"), Some("%lld"));
    assert_eq!(element_print_format("fn"), None);
}

#[test]
fn array_formats() {
    assert_eq!(array_print_pieces("%d", 3), vec!["[%d,", "%d,", "%d]"]);
    assert_eq!(array_print_pieces("%s", 2), vec!["[%s,", "%s]"]);
    assert_eq!(array_print_pieces("%d", 1), vec!["[%d,"]);
    assert!(array_print_pieces("%d", 0).is_empty());
}

#[test]
fn whole_print_format() {
    let pieces = vec!["%d".to_string(), "[%s,".to_string(), "%s]".to_string()];
    assert_eq!(print_line_format(&pieces), "%d [%s, %s]\n");
    assert_eq!(print_line_format(&Vec::new()), "\n");
}

#[test]
fn array_lengths() {
    assert_eq!(array_length("int8[3]"), Some(3));
    assert_eq!(array_length("int8[]"), None);
    assert_eq!(array_length("int8[ 3]"), None);
    assert_eq!(array_length("str[4294967295]"), Some(4294967295));
    assert_eq!(array_length("str[4294967296]"), None);
}

#[test]
fn integer_conversions() {
    assert_eq!(int_conversion("int8", "int8"), IntConversion::Same);
    assert_eq!(int_conversion("int8", "str"), IntConversion::FromText);
    assert_eq!(int_conversion("int8", "bool"), IntConversion::NotInteger);
    assert_eq!(int_conversion("int8", "int32"), IntConversion::Truncate);
    assert_eq!(int_conversion("int64", "int16"), IntConversion::Extend);
    assert_eq!(int_conversion("int16", "int8*"), IntConversion::Extend);
}

#[test]
fn arrays_print_in_brackets() {
    let pieces = array_print_pieces("%d", 5);
    assert_eq!(print_line_format(&pieces), "[%d, %d, %d, %d, %d]\n");
    let pieces = array_print_pieces("\"%s\"", 2);
    assert_eq!(print_line_format(&pieces), "[\"%s\", \"%s\"]\n");
}

#[test]
fn print_pieces_by_type() {
    assert_eq!(print_pieces("int32"), Ok(vec!["%d".to_string()]));
    assert_eq!(print_pieces("void"), Ok(Vec::new()));
    assert_eq!(print_pieces("int8[0]"), Ok(Vec::new()));
    assert_eq!(
        print_pieces("str[2]"),
        Ok(vec!["[\"%s\",".to_string(), "\"%s\"]".to_string()])
    );
    assert_eq!(print_pieces("int8[x]"), Err(PrintError::ArrayLength));
    assert_eq!(print_pieces("fn"), Err(PrintError::Unsupported("fn".to_string())));
    assert_eq!(print_pieces("void[2]"), Err(PrintError::Unsupported("void".to_string())));
    assert_eq!(
        PrintError::Unsupported("fn".to_string()).description(),
        "Type `fn` is not supported for 'print' function!"
    );
    assert_eq!(PrintError::ArrayLength.description(), "Unable to get array length!");
}

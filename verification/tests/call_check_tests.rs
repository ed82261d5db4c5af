use tpl_lang::call_check::{
    annotation_mismatch, argument_count_mismatch, argument_types_mismatch, join_texts,
};

fn strings(items: &[&str]) -> Vec<String> {
    items.iter().map(|s| s.to_string()).collect()
}

#[test]
fn annotation_check() {
    assert_eq!(annotation_mismatch("int32", "a", "int32"), None);
    assert_eq!(
        annotation_mismatch("int32", "a", "str"),
        Some("Type `int32` expected for 'a' variable, but found `str`!".to_string())
    );
}

#[test]
fn argument_count_check() {
    assert_eq!(argument_count_mismatch("f", 2, 2), None);
    assert_eq!(
        argument_count_mismatch("f", 2, 13),
        Some("Function `f` has 2 arguments, but 13 found!".to_string())
    );
    assert_eq!(
        argument_count_mismatch("g", 0, 1),
        Some("Function `g` has 0 arguments, but 1 found!".to_string())
    );
}

#[test]
fn argument_types_check() {
    let expected = strings(&["int32", "str"]);
    assert_eq!(argument_types_mismatch("f", false, &expected, &strings(&["int32", "str"])), None);
    assert_eq!(
        argument_types_mismatch("f", false, &expected, &strings(&["int8", "str"])),
        Some("Function `f` expected arguments types [int32, str], but found [int8, str]!".to_string())
    );
    assert_eq!(
        argument_types_mismatch("lambda", true, &expected, &strings(&["str", "bool"])),
        Some("Lambda function expected arguments types [int32, str], but found [str, bool]!".to_string())
    );
    assert_eq!(argument_types_mismatch("f", false, &Vec::new(), &Vec::new()), None);
}

#[test]
fn joining_texts() {
    assert_eq!(join_texts(&strings(&[]), ", "), "");
    assert_eq!(join_texts(&strings(&["a"]), ", "), "a");
    assert_eq!(join_texts(&strings(&["a", "b", "c"]), ", "), "a, b, c");
}

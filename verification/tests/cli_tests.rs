use tpl_lang::cli::{
    contains_text, error_line, greeting_text, object_file, usage_text, Config, ObjectLinker,
};
use tpl_lang::import::ImportObject;
use tpl_lang::source::{nth_line, strip_comments};

fn args(list: &[&str]) -> Vec<String> {
    list.iter().map(|s| s.to_string()).collect()
}

#[test]
fn comments_are_cut_line_by_line() {
    assert_eq!(strip_comments("int8 a = 5; // five\nprint(a);"), "int8 a = 5; \nprint(a);");
    assert_eq!(strip_comments("// only a comment"), "");
    assert_eq!(strip_comments("a / b // c // d"), "a / b ");
    assert_eq!(strip_comments("x\r\ny//z\r\n"), "x\ny");
    assert_eq!(strip_comments("one\n\ntwo\n"), "one\n\ntwo");
    assert_eq!(strip_comments(""), "");
    assert_eq!(strip_comments("/"), "/");
}

#[test]
fn stripped_text_holds_no_comment_mark() {
    let s = strip_comments("a//b\n//\nc/ /d//e\n///");
    assert_eq!(s, "a\n\nc/ /d\n");
    assert!(!s.contains("//"));
}

#[test]
fn lines_are_found_by_number() {
    let v: Vec<char> = "first\r\nsecond\n\nfourth".chars().collect();
    assert_eq!(nth_line(&v, 0), Some("first".to_string()));
    assert_eq!(nth_line(&v, 1), Some("second".to_string()));
    assert_eq!(nth_line(&v, 2), Some("".to_string()));
    assert_eq!(nth_line(&v, 3), Some("fourth".to_string()));
    assert_eq!(nth_line(&v, 4), None);
}

#[test]
fn config_needs_two_operands() {
    let r = Config::from_arguments(&args(&["tplc", "main.tpl"]), Some("x".to_string()));
    assert_eq!(r.err(), Some("Not enough arguments! See `Usage`.".to_string()));
}

#[test]
fn config_needs_a_readable_source() {
    let r = Config::from_arguments(&args(&["tplc", "main.tpl", "out"]), None);
    assert_eq!(
        r.err(),
        Some("Error with parsing source code! Check file and try again.".to_string())
    );
}

#[test]
fn config_from_arguments() {
    let r = Config::from_arguments(
        &args(&["tplc", "main.tpl", "out", "extra"]),
        Some("print(1); // say one\n".to_string()),
    );
    let c = match r {
        Ok(c) => c,
        Err(e) => panic!("unexpected error: {}", e),
    };
    assert_eq!(c.input, "main.tpl");
    assert_eq!(c.output, "out");
    assert_eq!(c.source, "print(1); ");
}

#[test]
fn greeting_and_usage_plain() {
    colored::control::set_override(false);
    assert_eq!(
        greeting_text("0.1.0"),
        "| tpl-lang - 0.1.0\n| https://github.com/mealet/tpl-lang"
    );
    assert_eq!(
        usage_text("tplc"),
        "| Usage: tplc [input] [output]\n| Example: tplc example.tpl output"
    );
    assert_eq!(error_line("boom"), "| error: boom");
}

#[test]
fn greeting_and_usage_coloured() {
    colored::control::set_override(true);
    assert_eq!(
        greeting_text("1"),
        "\x1b[36m| tpl-lang - 1\n| https://github.com/mealet/tpl-lang\x1b[0m"
    );
    assert_eq!(
        usage_text("c"),
        "| Usage: \x1b[33mc [input] [output]\x1b[0m\n| Example: \x1b[33mc example.tpl output\x1b[0m"
    );
    assert_eq!(error_line("x"), "| \x1b[31merror:\x1b[0m x");
}

#[test]
fn link_reports() {
    colored::control::set_override(false);
    assert_eq!(
        ObjectLinker::report(true, "app"),
        "[Compiler] Compilation successful!\n|-> output binary: app"
    );
    let pad = " ".repeat(15);
    assert_eq!(
        ObjectLinker::report(false, "app"),
        format!(
            "[CompilerError] Compilation error!\n{} Maybe you forgot to install clang/gcc/cc or any other C compiler?\n{} Otherwise, please open issue at language repo's.",
            pad, pad
        )
    );
    colored::control::set_override(true);
    assert!(ObjectLinker::report(true, "app").starts_with("\x1b[32m[Compiler]\x1b[0m"));
}

#[test]
fn binary_and_object_paths() {
    assert_eq!(ObjectLinker::output_path("app", false), "app");
    assert_eq!(ObjectLinker::output_path("app", true), "app.exe");
    assert_eq!(ObjectLinker::output_path("app.exe", true), "app.exe");
    assert_eq!(ObjectLinker::output_path("my.exe.d", true), "my.exe.d");
    assert_eq!(object_file("app"), "app.o");
}

#[test]
fn text_search() {
    assert!(contains_text("abc", "bc"));
    assert!(contains_text("abc", ""));
    assert!(!contains_text("abc", "cb"));
    assert!(!contains_text("ab", "abc"));
}

#[test]
fn loaded_modules_lose_their_comments() {
    let m = ImportObject::loaded(
        "std.tpl".to_string(),
        std::path::PathBuf::from("lib/std.tpl"),
        "int8 x = 1; // one".to_string(),
    );
    assert_eq!(m.name, "std.tpl");
    assert_eq!(m.path, std::path::PathBuf::from("lib/std.tpl"));
    assert_eq!(m.source, "int8 x = 1; ");
    let n = ImportObject::new("a".to_string(), std::path::PathBuf::from("a"), "//".to_string());
    assert_eq!(n.source, "//");
}

#[test]
fn coloured_text_with_inner_reset() {
    colored::control::set_override(true);
    assert_eq!(
        greeting_text("a\x1b[0mb"),
        "\x1b[36m| tpl-lang - a\x1b[0m\x1b[36mb\n| https://github.com/mealet/tpl-lang\x1b[0m"
    );
    assert_eq!(error_line("x"), "| \x1b[31merror:\x1b[0m x");
}

//! The reports of the code generator and of module imports.

use vstd::prelude::*;
use vstd::string::*;
use crate::report::{
    cyan_bars, join_spaced, numbered_gutter, paint_gutter, paint_red, painted, red_code, spaced,
};
use crate::source::{lemma_lines_count, nth_line, source_lines};
use crate::text::{append_str, chars_of, decimal, push_char, usize_to_string};

verus! {

/// The kinds of code generation errors.
#[derive(Debug, Clone)]
pub enum ErrorType {
    NotDefined,
    NotSupported,
    NotExpected,
    VerificationFailure,
    ImportError,
    TypeError,
    MemoryError,
    BuildError,
}

/// The name of an error kind, as `{:?}` prints it.
pub open spec fn error_type_name(t: ErrorType) -> Seq<char> {
    match t {
        ErrorType::NotDefined => "NotDefined"@,
        ErrorType::NotSupported => "NotSupported"@,
        ErrorType::NotExpected => "NotExpected"@,
        ErrorType::VerificationFailure => "VerificationFailure"@,
        ErrorType::ImportError => "ImportError"@,
        ErrorType::TypeError => "TypeError"@,
        ErrorType::MemoryError => "MemoryError"@,
        ErrorType::BuildError => "BuildError"@,
    }
}

impl ErrorType {
    /// The variant's name, as `{:?}` prints it.
    pub fn name(&self) -> (r: &'static str)
        ensures
            r@ == error_type_name(*self),
    {
        match self {
            ErrorType::NotDefined => "NotDefined",
            ErrorType::NotSupported => "NotSupported",
            ErrorType::NotExpected => "NotExpected",
            ErrorType::VerificationFailure => "VerificationFailure",
            ErrorType::ImportError => "ImportError",
            ErrorType::TypeError => "TypeError",
            ErrorType::MemoryError => "MemoryError",
            ErrorType::BuildError => "BuildError",
        }
    }
}

/// The errors of the code generator.
pub struct GenError;

/// The label of a code generation report, before it is painted red.
pub open spec fn codegen_label(error_type: Seq<char>, module_name: Seq<char>) -> Seq<char> {
    "[CodeGen]["@ + error_type + "]["@ + module_name + "]:"@
}

/// A code generation report for given renderings of its coloured parts:
/// the label, the description, and the source line `line` framed and
/// numbered from 1.
pub open spec fn codegen_report_with(
    label: Seq<char>,
    description: Seq<char>,
    line: nat,
    text: Seq<char>,
    bars: (Seq<char>, Seq<char>, Seq<char>),
) -> Seq<char> {
    spaced(label, description) + seq!['\n'] + numbered_gutter(line, decimal(line + 1), text, bars)
}

/// `r` is a rendering of the code generation report of `description` at
/// line `line` of `source`.
pub open spec fn is_codegen_report(
    description: Seq<char>,
    error_type: Seq<char>,
    module_name: Seq<char>,
    source: Seq<char>,
    line: nat,
    r: Seq<char>,
) -> bool {
    exists|label: Seq<char>, bars: (Seq<char>, Seq<char>, Seq<char>)|
        {
            &&& painted(codegen_label(error_type, module_name), red_code(), label)
            &&& cyan_bars(bars)
            &&& r == #[trigger] codegen_report_with(
                label,
                description,
                line,
                source_lines(source)[line as int],
                bars,
            )
        }
}

impl GenError {
    /// The report of a code generation error at line `line` (from 0) of
    /// `source`; the line is shown numbered from 1.
    pub fn format(
        description: String,
        error_type: String,
        module_name: String,
        source: String,
        line: usize,
    ) -> (r: String)
        requires
            line < source_lines(source@).len(),
        ensures
            is_codegen_report(description@, error_type@, module_name@, source@, line as nat, r@),
    {
        let chars = chars_of(source.as_str());
        proof {
            lemma_lines_count(source@, 0);
        }
        let text = match nth_line(&chars, line) {
            Some(t) => t,
            None => String::new(),
        };
        let mut label_text = String::from_str("[CodeGen][");
        append_str(&mut label_text, error_type.as_str());
        append_str(&mut label_text, "][");
        append_str(&mut label_text, module_name.as_str());
        append_str(&mut label_text, "]:");
        let label = paint_red(label_text.as_str());
        let number = usize_to_string(line + 1);
        let block = paint_gutter(line, number.as_str(), text.as_str());
        let mut r = join_spaced(label.as_str(), description.as_str());
        push_char(&mut r, '\n');
        append_str(&mut r, block.as_str());
        let ghost bars = choose|bars: (Seq<char>, Seq<char>, Seq<char>)|
            cyan_bars(bars) && block@ == numbered_gutter(line as nat, number@, text@, bars);
        assert(label_text@ =~= codegen_label(error_type@, module_name@));
        assert(r@ =~= codegen_report_with(
            label@,
            description@,
            line as nat,
            source_lines(source@)[line as int],
            bars,
        ));
        r
    }
}

/// The kinds of import errors.
#[derive(Debug, Clone)]
pub enum ImportErrorType {
    PathError,
    FormatError,
    ReadFailure,
}

/// The name of an import error kind, as `{:?}` prints it.
pub open spec fn import_error_type_name(t: ImportErrorType) -> Seq<char> {
    match t {
        ImportErrorType::PathError => "PathError"@,
        ImportErrorType::FormatError => "FormatError"@,
        ImportErrorType::ReadFailure => "ReadFailure"@,
    }
}

impl ImportErrorType {
    /// The variant's name, as `{:?}` prints it.
    pub fn name(&self) -> (r: &'static str)
        ensures
            r@ == import_error_type_name(*self),
    {
        match self {
            ImportErrorType::PathError => "PathError",
            ImportErrorType::FormatError => "FormatError",
            ImportErrorType::ReadFailure => "ReadFailure",
        }
    }
}

/// The errors of module imports.
#[derive(Debug, Clone)]
pub struct ImportError;

/// The label of an import report, before it is painted red.
pub open spec fn import_label(error_type: Seq<char>) -> Seq<char> {
    "[ImportError]["@ + error_type + "]:"@
}

impl ImportError {
    /// The report of an import error: the red label and the description.
    pub fn format(description: String, error_type: String) -> (r: String)
        ensures
            exists|label: Seq<char>|
                painted(import_label(error_type@), red_code(), label) && r@ == #[trigger] spaced(
                    label,
                    description@,
                ),
    {
        let mut label_text = String::from_str("[ImportError][");
        append_str(&mut label_text, error_type.as_str());
        append_str(&mut label_text, "]:");
        assert(label_text@ =~= import_label(error_type@));
        let label = paint_red(label_text.as_str());
        let r = join_spaced(label.as_str(), description.as_str());
        assert(r@ == spaced(label@, description@));
        r
    }
}

} // verus!

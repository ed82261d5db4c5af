//! What the built-in functions decide before they emit code: the `printf`
//! format of a `print` call, and how `to_int8()` and its kin convert a
//! value.

use vstd::prelude::*;
use vstd::string::*;
use crate::cli::{contains_text, holds_text};
use crate::number::parse_u32_text;
use crate::text::{append_str, chars_of, str_eq, string_of};
use crate::type_shape::{parse_u32, raw_length_text};
use crate::types::{
    before_char, clean_array_datatype, get_int_order, index_of, int_order, int_width, lemma_find_from,
};

verus! {

/// The `printf` conversion that `print` uses for a value of type `t`.
pub open spec fn print_format_spec(t: Seq<char>) -> Option<Seq<char>> {
    if t == "int8"@ || t == "int32"@ {
        Some("%d"@)
    } else if t == "int16"@ {
        Some("%hd"@)
    } else if t == "int64"@ {
        Some("%lld"@)
    } else if t == "bool"@ || t == "str"@ {
        Some("%s"@)
    } else if t == "char"@ {
        Some("%c"@)
    } else {
        None
    }
}

/// The `printf` conversion for a value of type `t`; `None` for a type
/// that `print` does not support.
pub fn print_format(t: &str) -> (r: Option<&'static str>)
    ensures
        match r {
            Some(f) => print_format_spec(t@) == Some(f@),
            None => print_format_spec(t@) is None,
        },
{
    if str_eq(t, "int8") || str_eq(t, "int32") {
        Some("%d")
    } else if str_eq(t, "int16") {
        Some("%hd")
    } else if str_eq(t, "int64") {
        Some("%lld")
    } else if str_eq(t, "bool") || str_eq(t, "str") {
        Some("%s")
    } else if str_eq(t, "char") {
        Some("%c")
    } else {
        None
    }
}

/// The conversion that `print` uses for an element of an array of type
/// `t`: texts are quoted.
pub open spec fn element_format_spec(t: Seq<char>) -> Option<Seq<char>> {
    if t == "str"@ {
        Some("\"%s\""@)
    } else if t == "char"@ {
        Some("'%c'"@)
    } else {
        print_format_spec(t)
    }
}

/// The conversion for an element of an array of type `t`; `None` for a
/// type that `print` does not support.
pub fn element_print_format(t: &str) -> (r: Option<&'static str>)
    ensures
        match r {
            Some(f) => element_format_spec(t@) == Some(f@),
            None => element_format_spec(t@) is None,
        },
{
    if str_eq(t, "str") {
        Some("\"%s\"")
    } else if str_eq(t, "char") {
        Some("'%c'")
    } else {
        print_format(t)
    }
}

/// The piece of the format of an `n`-element array for the element at
/// `index`: the first opens the bracket, the last (of two or more) closes
/// it, and the pieces are separated by commas.
pub open spec fn array_piece(format: Seq<char>, index: int, n: int) -> Seq<char> {
    if index == 0 {
        "["@ + format + ","@
    } else if index == n - 1 {
        format + "]"@
    } else {
        format + ","@
    }
}

/// The format pieces of an array of `n` elements.
pub open spec fn array_pieces(format: Seq<char>, n: nat) -> Seq<Seq<char>> {
    Seq::new(n, |i: int| array_piece(format, i, n as int))
}

/// The format pieces of an array of `n` elements printed with `format`.
pub fn array_print_pieces(format: &str, n: u32) -> (r: Vec<String>)
    ensures
        r@.len() == n,
        forall|i: int| 0 <= i < n ==> #[trigger] r@[i]@ == array_piece(format@, i, n as int),
        texts(r@) == array_pieces(format@, n as nat),
{
    let mut pieces: Vec<String> = Vec::new();
    let mut i: u32 = 0;
    while i < n
        invariant
            i <= n,
            pieces@.len() == i,
            forall|k: int| 0 <= k < i ==> #[trigger] pieces@[k]@ == array_piece(format@, k, n as int),
        decreases n - i,
    {
        let mut piece = String::new();
        if i == 0 {
            append_str(&mut piece, "[");
            append_str(&mut piece, format);
            append_str(&mut piece, ",");
        } else if i == n - 1 {
            append_str(&mut piece, format);
            append_str(&mut piece, "]");
        } else {
            append_str(&mut piece, format);
            append_str(&mut piece, ",");
        }
        assert(piece@ =~= array_piece(format@, i as int, n as int));
        pieces.push(piece);
        i = i + 1;
    }
    assert(texts(pieces@) =~= array_pieces(format@, n as nat));
    pieces
}

/// `n` copies of `format` separated by a comma and a space.
pub open spec fn comma_list(format: Seq<char>, n: nat) -> Seq<char>
    decreases n,
{
    if n <= 1 {
        format
    } else {
        comma_list(format, (n - 1) as nat) + seq![',', ' '] + format
    }
}

proof fn lemma_open_list(format: Seq<char>, n: nat, k: nat)
    requires
        1 <= k < n,
    ensures
        join_with_spaces(array_pieces(format, n).take(k as int)) == seq!['['] + comma_list(
            format,
            k,
        ) + seq![','],
    decreases k,
{
    reveal_strlit("[");
    reveal_strlit(",");
    reveal_strlit("]");
    let ps = array_pieces(format, n);
    if k == 1 {
        assert(ps.take(1) =~= seq![ps[0]]);
        assert(ps[0] =~= seq!['['] + format + seq![',']);
    } else {
        lemma_open_list(format, n, (k - 1) as nat);
        assert(ps.take(k as int).drop_last() =~= ps.take(k - 1));
        assert(ps[k - 1] =~= format + seq![',']);
        assert(join_with_spaces(ps.take(k as int)) =~= seq!['['] + comma_list(format, k)
            + seq![',']);
    }
}

/// An array of two or more elements prints as its elements in brackets,
/// separated by a comma and a space (`[1, 2, 3]`).
pub proof fn array_prints_in_brackets(format: Seq<char>, n: nat)
    requires
        n >= 2,
    ensures
        join_with_spaces(array_pieces(format, n)) == seq!['['] + comma_list(format, n) + seq![']'],
{
    reveal_strlit("]");
    let ps = array_pieces(format, n);
    lemma_open_list(format, n, (n - 1) as nat);
    assert(ps.drop_last() =~= ps.take(n - 1));
    assert(ps[n - 1] =~= format + seq![']']);
    assert(join_with_spaces(ps) =~= seq!['['] + comma_list(format, n) + seq![']']);
}

/// The pieces joined with single spaces (`join(" ")`).
pub open spec fn join_with_spaces(pieces: Seq<Seq<char>>) -> Seq<char>
    decreases pieces.len(),
{
    if pieces.len() == 0 {
        seq![]
    } else if pieces.len() == 1 {
        pieces[0]
    } else {
        join_with_spaces(pieces.drop_last()) + seq![' '] + pieces.last()
    }
}

/// The views of a list of strings.
pub open spec fn texts(v: Seq<String>) -> Seq<Seq<char>> {
    v.map_values(|s: String| s@)
}

/// The format of a whole `print` call: its pieces separated by spaces, and
/// a line break.
pub fn print_line_format(pieces: &Vec<String>) -> (r: String)
    ensures
        r@ == join_with_spaces(texts(pieces@)) + seq!['\n'],
{
    proof {
        reveal_strlit(" ");
        reveal_strlit("\n");
    }
    let mut s = String::new();
    let mut i: usize = 0;
    assert(texts(pieces@).take(0) =~= Seq::<Seq<char>>::empty());
    while i < pieces.len()
        invariant
            i <= pieces.len(),
            " "@ == seq![' '],
            s@ == join_with_spaces(texts(pieces@).take(i as int)),
        decreases pieces.len() - i,
    {
        let ghost before = s@;
        if i > 0 {
            append_str(&mut s, " ");
        }
        append_str(&mut s, pieces[i].as_str());
        let ghost t = texts(pieces@).take(i + 1);
        assert(t.drop_last() =~= texts(pieces@).take(i as int));
        assert(t.last() == pieces@[i as int]@);
        assert(s@ =~= join_with_spaces(t));
        i = i + 1;
    }
    assert(texts(pieces@).take(i as int) =~= texts(pieces@));
    append_str(&mut s, "\n");
    s
}

/// The length of the array type `t` (written `t[n]`), as `print` reads it:
/// `None` when it is no `u32`.
pub fn array_length(t: &str) -> (r: Option<u32>)
    requires
        t@.contains('['),
    ensures
        r == parse_u32(raw_length_text(t@)),
{
    let chars = chars_of(t);
    let open = index_of(&chars, '[', 0);
    proof {
        lemma_find_from(t@, '[', 0);
        let j = choose|j: int| 0 <= j < t@.len() && t@[j] == '[';
        assert(crate::types::find_from(t@, '[', 0) <= j);
        assert(chars@ == t@);
    }
    assert(open < chars.len());
    let rest = string_of(&chars, open + 1, chars.len());
    assert(rest@ =~= crate::types::after_char(t@, '['));
    let rest_chars = chars_of(rest.as_str());
    let second = index_of(&rest_chars, '[', 0);
    proof {
        lemma_find_from(rest@, '[', 0);
    }
    let piece = string_of(&rest_chars, 0, second);
    let piece_chars = chars_of(piece.as_str());
    let close = index_of(&piece_chars, ']', 0);
    proof {
        lemma_find_from(piece@, ']', 0);
    }
    let digits = string_of(&piece_chars, 0, close);
    let digit_chars = chars_of(digits.as_str());
    assert(digit_chars@ =~= raw_length_text(t@));
    parse_u32_text(&digit_chars)
}

/// How `to_<target>()` turns a value into the integer type `target`.
#[derive(Debug, PartialEq, Eq)]
pub enum IntConversion {
    /// The value already has the type.
    Same,
    /// The value is a text, read with `sscanf`.
    FromText,
    /// The value is no integer: an error.
    NotInteger,
    /// The value is wider: its high bits are cut.
    Truncate,
    /// The value is not wider: it is sign-extended.
    Extend,
}

/// The conversion of a value of type `source` to the integer type `target`.
pub open spec fn int_conversion_spec(target: Seq<char>, source: Seq<char>) -> IntConversion {
    if source == target {
        IntConversion::Same
    } else if source == "str"@ {
        IntConversion::FromText
    } else if !holds_text(source, "int"@) {
        IntConversion::NotInteger
    } else if int_order(source) > int_order(target) {
        IntConversion::Truncate
    } else {
        IntConversion::Extend
    }
}

/// Converting a value of one integer type to another integer type
/// truncates exactly when the source is wider than the target and
/// sign-extends exactly when it is narrower (`to_int16()` truncates an
/// `int32` and extends an `int8`).
pub proof fn integer_conversion_follows_widths(target: Seq<char>, source: Seq<char>)
    requires
        int_width(target) > 0,
        int_width(source) > 0,
        target != source,
    ensures
        int_conversion_spec(target, source) == IntConversion::Truncate <==> int_width(source)
            > int_width(target),
        int_conversion_spec(target, source) == IntConversion::Extend <==> int_width(source)
            < int_width(target),
{
    reveal_strlit("int8");
    reveal_strlit("int16");
    reveal_strlit("int32");
    reveal_strlit("int64");
    reveal_strlit("int");
    reveal_strlit("str");
    assert(source.len() >= 4);
    assert(source.subrange(0int, 0int + "int"@.len()) =~= "int"@);
    assert(holds_text(source, "int"@));
    assert(source[0] != "str"@[0]);
    assert("int8"@.len() != "int16"@.len());
    assert("int8"@.len() != "int32"@.len());
    assert("int8"@.len() != "int64"@.len());
    assert("int32"@[3] != "int16"@[3]);
    assert("int64"@[3] != "int16"@[3]);
    assert("int64"@[3] != "int32"@[3]);
}

/// How a value of type `source` is converted to the integer type `target`.
pub fn int_conversion(target: &str, source: &str) -> (r: IntConversion)
    ensures
        r == int_conversion_spec(target@, source@),
{
    if str_eq(source, target) {
        IntConversion::Same
    } else if str_eq(source, "str") {
        IntConversion::FromText
    } else if !contains_text(source, "int") {
        IntConversion::NotInteger
    } else if get_int_order(source) > get_int_order(target) {
        IntConversion::Truncate
    } else {
        IntConversion::Extend
    }
}

/// Why `print` cannot print a value.
#[derive(Debug, PartialEq, Eq)]
pub enum PrintError {
    /// The length of the array type is no `u32` (reported as a build error).
    ArrayLength,
    /// The value's type, or its element type, cannot be printed (reported
    /// as unsupported).
    Unsupported(String),
}

/// The content of a `PrintError`.
pub enum PrintErrorView {
    ArrayLength,
    Unsupported(Seq<char>),
}

impl View for PrintError {
    type V = PrintErrorView;

    open spec fn view(&self) -> PrintErrorView {
        match self {
            PrintError::ArrayLength => PrintErrorView::ArrayLength,
            PrintError::Unsupported(t) => PrintErrorView::Unsupported(t@),
        }
    }
}

/// The format pieces that `print` writes for a value of type `t`: none for
/// `void` and for an empty array, one per element of an array, one for any
/// other printable type.
pub open spec fn print_pieces_spec(t: Seq<char>) -> Result<Seq<Seq<char>>, PrintErrorView> {
    if t == "void"@ {
        Ok(seq![])
    } else if t.contains('[') {
        match parse_u32(raw_length_text(t)) {
            None => Err(PrintErrorView::ArrayLength),
            Some(n) => if n == 0 {
                Ok(seq![])
            } else {
                match element_format_spec(before_char(t, '[')) {
                    None => Err(PrintErrorView::Unsupported(before_char(t, '['))),
                    Some(f) => Ok(array_pieces(f, n as nat)),
                }
            },
        }
    } else {
        match print_format_spec(t) {
            None => Err(PrintErrorView::Unsupported(t)),
            Some(f) => Ok(seq![f]),
        }
    }
}

/// The format pieces that `print` writes for a value of type `t`, or why
/// it cannot print it.
pub fn print_pieces(t: &str) -> (r: Result<Vec<String>, PrintError>)
    ensures
        match print_pieces_spec(t@) {
            Ok(ps) => r matches Ok(v) && texts(v@) == ps,
            Err(e) => r matches Err(x) && x@ == e,
        },
{
    if str_eq(t, "void") {
        let v: Vec<String> = Vec::new();
        assert(texts(v@) =~= Seq::<Seq<char>>::empty());
        return Ok(v);
    }
    if crate::types::holds_char(t, '[') {
        match array_length(t) {
            None => Err(PrintError::ArrayLength),
            Some(n) => {
                if n == 0 {
                    let v: Vec<String> = Vec::new();
                    assert(texts(v@) =~= Seq::<Seq<char>>::empty());
                    return Ok(v);
                }
                let element = clean_array_datatype(t);
                match element_print_format(element.as_str()) {
                    None => Err(PrintError::Unsupported(element)),
                    Some(f) => Ok(array_print_pieces(f, n)),
                }
            },
        }
    } else {
        match print_format(t) {
            None => Err(PrintError::Unsupported(String::from_str(t))),
            Some(f) => {
                let mut v: Vec<String> = Vec::new();
                v.push(String::from_str(f));
                assert(texts(v@) =~= seq![f@]);
                Ok(v)
            },
        }
    }
}

impl PrintError {
    /// The kind under which the code generator reports the error.
    pub fn error_type(&self) -> (r: crate::gen_error::ErrorType)
        ensures
            match self {
                PrintError::ArrayLength => r == crate::gen_error::ErrorType::BuildError,
                PrintError::Unsupported(_) => r == crate::gen_error::ErrorType::NotSupported,
            },
    {
        match self {
            PrintError::ArrayLength => crate::gen_error::ErrorType::BuildError,
            PrintError::Unsupported(_) => crate::gen_error::ErrorType::NotSupported,
        }
    }

    /// The description under which the code generator reports the error.
    pub fn description(&self) -> (r: String)
        ensures
            r@ == match self@ {
                PrintErrorView::ArrayLength => "Unable to get array length!"@,
                PrintErrorView::Unsupported(t) => "Type `"@ + t
                    + "` is not supported for 'print' function!"@,
            },
    {
        match self {
            PrintError::ArrayLength => String::from_str("Unable to get array length!"),
            PrintError::Unsupported(t) => {
                let mut s = String::from_str("Type `");
                append_str(&mut s, t.as_str());
                append_str(&mut s, "` is not supported for 'print' function!");
                s
            },
        }
    }
}

} // verus!

//! The machine types that the code generator gives to the language's type
//! names: `fn<T>` stands for `T`, `T[n]` is a vector of `n` values of `T`,
//! `T*` is handled as `T`, and the base names map to integers of a width,
//! booleans or pointers.

use vstd::prelude::*;
use vstd::string::*;
use crate::number::{all_digits, digits_value, parse_u32_text};
use crate::text::{chars_of, str_eq, string_of};
use crate::types::{
    after_char, before_char, find_from, holds_char, index_of, is_pointer, is_ptr_type,
    lemma_find_from,
};

verus! {

/// The shape of a machine type.
#[derive(Debug, PartialEq, Eq)]
pub enum TypeShape {
    Int8,
    Int16,
    Int32,
    Int64,
    Bool,
    Pointer,
    Vector { element: Box<TypeShape>, len: u32 },
}

/// Why a type name has no machine type.
#[derive(Debug, PartialEq, Eq)]
pub enum ShapeError {
    /// The length of an array type is no `u32` (reported as a build error).
    ArrayLength,
    /// The name is no known type (reported as unsupported).
    Unsupported(String),
}

/// The view of a shape error: the unknown name as characters.
pub enum ShapeErrorView {
    ArrayLength,
    Unsupported(Seq<char>),
}

impl View for ShapeError {
    type V = ShapeErrorView;

    open spec fn view(&self) -> ShapeErrorView {
        match self {
            ShapeError::ArrayLength => ShapeErrorView::ArrayLength,
            ShapeError::Unsupported(s) => ShapeErrorView::Unsupported(s@),
        }
    }
}

/// `s` with every occurrence of `pat` removed, scanning from the left
/// (`str::replace(pat, "")`).
pub open spec fn remove_all(s: Seq<char>, pat: Seq<char>) -> Seq<char>
    decreases s.len(),
{
    if pat.len() == 0 || s.len() < pat.len() {
        s
    } else if s.take(pat.len() as int) == pat {
        remove_all(s.skip(pat.len() as int), pat)
    } else {
        seq![s[0]] + remove_all(s.drop_first(), pat)
    }
}

pub proof fn lemma_remove_all_len(s: Seq<char>, pat: Seq<char>)
    ensures
        remove_all(s, pat).len() <= s.len(),
        pat.len() > 0 && s.len() >= pat.len() && s.take(pat.len() as int) == pat ==> remove_all(
            s,
            pat,
        ).len() < s.len(),
    decreases s.len(),
{
    if pat.len() == 0 || s.len() < pat.len() {
    } else if s.take(pat.len() as int) == pat {
        lemma_remove_all_len(s.skip(pat.len() as int), pat);
    } else {
        lemma_remove_all_len(s.drop_first(), pat);
    }
}

/// `s` begins with `fn<`.
pub open spec fn is_function_type(s: Seq<char>) -> bool {
    s.len() >= 3 && s.take(3) == "fn<"@
}

/// `str::parse::<u32>`: an optional `+`, then at least one decimal digit,
/// within the range of `u32`.
pub open spec fn parse_u32(v: Seq<char>) -> Option<u32> {
    let digits = if v.len() > 0 && v[0] == '+' {
        v.drop_first()
    } else {
        v
    };
    if digits.len() == 0 || !all_digits(digits, 10) || digits_value(digits, 10) > u32::MAX {
        None
    } else {
        Some(digits_value(digits, 10) as u32)
    }
}

/// The text of the length in an array type `t[n]`: between the first `[`
/// and the next `[` or `]` (not trimmed).
pub open spec fn raw_length_text(t: Seq<char>) -> Seq<char> {
    before_char(before_char(after_char(t, '['), '['), ']')
}

/// The shape of a base type name.
pub open spec fn base_shape(t: Seq<char>) -> Option<TypeShape> {
    if t == "int8"@ {
        Some(TypeShape::Int8)
    } else if t == "int16"@ {
        Some(TypeShape::Int16)
    } else if t == "int32"@ {
        Some(TypeShape::Int32)
    } else if t == "int64"@ {
        Some(TypeShape::Int64)
    } else if t == "bool"@ {
        Some(TypeShape::Bool)
    } else if t == "str"@ {
        Some(TypeShape::Pointer)
    } else if t == "auto"@ {
        Some(TypeShape::Int8)
    } else if t == "void"@ {
        Some(TypeShape::Pointer)
    } else {
        None
    }
}

/// The shape of the type named `t`. `None` where the code generator would
/// panic: an array of arrays.
pub open spec fn shape_of(t: Seq<char>) -> Option<Result<TypeShape, ShapeErrorView>>
    decreases t.len(),
{
    if is_function_type(t) {
        proof {
            reveal_strlit("fn<");
            reveal_strlit(">");
            lemma_remove_all_len(t, "fn<"@);
            lemma_remove_all_len(remove_all(t, "fn<"@), ">"@);
        }
        shape_of(remove_all(remove_all(t, "fn<"@), ">"@))
    } else if t.contains('[') {
        let k = find_from(t, '[', 0);
        proof {
            lemma_find_from(t, '[', 0);
            assert(k < t.len()) by {
                let j = choose|j: int| 0 <= j < t.len() && t[j] == '[';
                assert(k <= j);
            }
            assert(t.take(k).len() == k);
        }
        match parse_u32(raw_length_text(t)) {
            None => Some(Err(ShapeErrorView::ArrayLength)),
            Some(n) => match shape_of(t.take(k)) {
                None => None,
                Some(Err(e)) => Some(Err(e)),
                Some(Ok(TypeShape::Vector { .. })) => None,
                Some(Ok(element)) => Some(Ok(TypeShape::Vector { element: Box::new(element), len: n })),
            },
        }
    } else if is_pointer(t) {
        shape_of(t.drop_last())
    } else {
        match base_shape(t) {
            Some(b) => Some(Ok(b)),
            None => Some(Err(ShapeErrorView::Unsupported(t))),
        }
    }
}

proof fn lemma_remove_all_keeps_out(s: Seq<char>, pat: Seq<char>, c: char)
    requires
        !s.contains(c),
    ensures
        !remove_all(s, pat).contains(c),
    decreases s.len(),
{
    if pat.len() == 0 || s.len() < pat.len() {
    } else if s.take(pat.len() as int) == pat {
        assert forall|i: int| 0 <= i < s.skip(pat.len() as int).len() implies s.skip(
            pat.len() as int,
        )[i] != c by {
            assert(s.skip(pat.len() as int)[i] == s[i + pat.len()]);
        }
        lemma_remove_all_keeps_out(s.skip(pat.len() as int), pat, c);
    } else {
        assert forall|i: int| 0 <= i < s.drop_first().len() implies s.drop_first()[i] != c by {
            assert(s.drop_first()[i] == s[i + 1]);
        }
        lemma_remove_all_keeps_out(s.drop_first(), pat, c);
        let r = remove_all(s.drop_first(), pat);
        assert forall|i: int| 0 <= i < (seq![s[0]] + r).len() implies (seq![s[0]] + r)[i] != c by {
            if i > 0 {
                assert((seq![s[0]] + r)[i] == r[i - 1]);
            }
        }
    }
}

/// Every type name has a machine type or an error: the code generator
/// never meets an array of arrays, since the element type of an array type
/// is the name before its first `[`.
pub proof fn every_type_name_has_a_shape(t: Seq<char>)
    ensures
        shape_of(t) is Some,
        !t.contains('[') ==> !(shape_of(t) matches Some(Ok(TypeShape::Vector { .. }))),
    decreases t.len(),
{
    if is_function_type(t) {
        reveal_strlit("fn<");
        reveal_strlit(">");
        lemma_remove_all_len(t, "fn<"@);
        lemma_remove_all_len(remove_all(t, "fn<"@), ">"@);
        let inner = remove_all(remove_all(t, "fn<"@), ">"@);
        if !t.contains('[') {
            lemma_remove_all_keeps_out(t, "fn<"@, '[');
            lemma_remove_all_keeps_out(remove_all(t, "fn<"@), ">"@, '[');
        }
        every_type_name_has_a_shape(inner);
    } else if t.contains('[') {
        let k = find_from(t, '[', 0);
        lemma_find_from(t, '[', 0);
        let j = choose|j: int| 0 <= j < t.len() && t[j] == '[';
        assert(k <= j);
        assert(!t.take(k).contains('[')) by {
            assert forall|i: int| 0 <= i < t.take(k).len() implies t.take(k)[i] != '[' by {
                assert(t.take(k)[i] == t[i]);
            }
        }
        every_type_name_has_a_shape(t.take(k));
    } else if is_pointer(t) {
        assert(!t.drop_last().contains('[')) by {
            assert forall|i: int| 0 <= i < t.drop_last().len() implies t.drop_last()[i] != '[' by {
                assert(t.drop_last()[i] == t[i]);
            }
        }
        every_type_name_has_a_shape(t.drop_last());
    }
}

/// `s` with every occurrence of `pat` removed, scanning from the left.
fn remove_text(s: &Vec<char>, pat: &Vec<char>) -> (r: Vec<char>)
    ensures
        r@ == remove_all(s@, pat@),
{
    let n = s.len();
    let m = pat.len();
    let mut out: Vec<char> = Vec::new();
    let mut i: usize = 0;
    assert(s@.skip(0) =~= s@);
    while i < n
        invariant
            n == s@.len(),
            m == pat@.len(),
            i <= n,
            out@ + remove_all(s@.skip(i as int), pat@) == remove_all(s@, pat@),
        decreases n - i,
    {
        let ghost rest = s@.skip(i as int);
        if m == 0 || n - i < m {
            let ghost before = out@;
            assert(remove_all(rest, pat@) == rest);
            let mut j = i;
            while j < n
                invariant
                    n == s@.len(),
                    i <= j <= n,
                    out@ == before + s@.subrange(i as int, j as int),
                decreases n - j,
            {
                out.push(s[j]);
                j = j + 1;
                assert(out@ =~= before + s@.subrange(i as int, j as int));
            }
            assert(s@.subrange(i as int, n as int) =~= rest);
            assert(s@.skip(n as int) =~= Seq::<char>::empty());
            assert(remove_all(s@.skip(n as int), pat@) =~= Seq::<char>::empty());
            assert(out@ + remove_all(s@.skip(n as int), pat@) =~= out@);
            i = n;
        } else {
            let mut same = true;
            let mut k: usize = 0;
            while k < m
                invariant
                    n == s@.len(),
                    m == pat@.len(),
                    i + m <= n,
                    k <= m,
                    same == forall|t: int| 0 <= t < k ==> s@[i + t] == pat@[t],
                decreases m - k,
            {
                if s[i + k] != pat[k] {
                    same = false;
                }
                k = k + 1;
            }
            if same {
                assert(rest.take(m as int) =~= pat@);
                assert(rest.skip(m as int) =~= s@.skip(i + m));
                i = i + m;
            } else {
                assert(rest.take(m as int) != pat@) by {
                    let t = choose|t: int| 0 <= t < m && s@[i + t] != pat@[t];
                    assert(rest.take(m as int)[t] == s@[i + t]);
                }
                assert(rest.drop_first() =~= s@.skip(i + 1));
                let ghost before = out@;
                out.push(s[i]);
                assert(out@ + remove_all(s@.skip(i + 1), pat@) =~= before + (seq![s@[i as int]]
                    + remove_all(s@.skip(i + 1), pat@)));
                i = i + 1;
            }
        }
    }
    assert(s@.skip(n as int) =~= Seq::<char>::empty());
    out
}

/// `r` is the Rust value of the outcome `spec`.
pub open spec fn shape_result(
    spec: Option<Result<TypeShape, ShapeErrorView>>,
    r: Option<Result<TypeShape, ShapeError>>,
) -> bool {
    match spec {
        None => r is None,
        Some(Ok(sh)) => r == Some(Ok::<TypeShape, ShapeError>(sh)),
        Some(Err(e)) => match r {
            Some(Err(x)) => x@ == e,
            _ => false,
        },
    }
}

/// The machine type of the type named `datatype`: its shape, or why it
/// has none.
pub fn basic_type_of(datatype: &str) -> (r: Result<TypeShape, ShapeError>)
    ensures
        shape_result(shape_of(datatype@), Some(r)),
    decreases datatype@.len(),
{
    proof {
        every_type_name_has_a_shape(datatype@);
    }
    proof {
        reveal_strlit("fn<");
        reveal_strlit(">");
        reveal_strlit("int8");
        reveal_strlit("int16");
        reveal_strlit("int32");
        reveal_strlit("int64");
        reveal_strlit("bool");
        reveal_strlit("str");
        reveal_strlit("auto");
        reveal_strlit("void");
    }
    let chars = chars_of(datatype);
    let n = chars.len();
    if n >= 3 && chars[0] == 'f' && chars[1] == 'n' && chars[2] == '<' {
        assert(datatype@.take(3) =~= "fn<"@);
        let fn_pat = chars_of("fn<");
        let close_pat = chars_of(">");
        let a = remove_text(&chars, &fn_pat);
        let b = remove_text(&a, &close_pat);
        let inner = string_of(&b, 0, b.len());
        assert(inner@ =~= remove_all(remove_all(datatype@, "fn<"@), ">"@));
        proof {
            lemma_remove_all_len(datatype@, "fn<"@);
            lemma_remove_all_len(remove_all(datatype@, "fn<"@), ">"@);
        }
        return basic_type_of(inner.as_str());
    }
    assert(!is_function_type(datatype@)) by {
        if is_function_type(datatype@) {
            assert(datatype@.take(3)[0] == 'f');
            assert(datatype@.take(3)[1] == 'n');
            assert(datatype@.take(3)[2] == '<');
        }
    }
    if holds_char(datatype, '[') {
        let k = index_of(&chars, '[', 0);
        proof {
            lemma_find_from(datatype@, '[', 0);
            let j = choose|j: int| 0 <= j < datatype@.len() && datatype@[j] == '[';
            assert(k <= j);
        }
        let rest = string_of(&chars, k + 1, n);
        assert(rest@ =~= after_char(datatype@, '['));
        let rest_chars = chars_of(rest.as_str());
        let second = index_of(&rest_chars, '[', 0);
        proof {
            lemma_find_from(rest@, '[', 0);
        }
        let piece = string_of(&rest_chars, 0, second);
        let piece_chars = chars_of(piece.as_str());
        let close = index_of(&piece_chars, ']', 0);
        proof {
            lemma_find_from(piece@, ']', 0);
        }
        let digits = string_of(&piece_chars, 0, close);
        let digit_chars = chars_of(digits.as_str());
        assert(digit_chars@ =~= raw_length_text(datatype@));
        match parse_u32_text(&digit_chars) {
            None => Err(ShapeError::ArrayLength),
            Some(len) => {
                let raw = string_of(&chars, 0, k);
                assert(raw@ =~= datatype@.take(k as int));
                proof {
                    every_type_name_has_a_shape(raw@);
                }
                match basic_type_of(raw.as_str()) {
                    Err(e) => Err(e),
                    Ok(element) => Ok(TypeShape::Vector { element: Box::new(element), len }),
                }
            },
        }
    } else if is_ptr_type(datatype) {
        let inner = string_of(&chars, 0, n - 1);
        assert(inner@ =~= datatype@.drop_last());
        basic_type_of(inner.as_str())
    } else if str_eq(datatype, "int8") || str_eq(datatype, "auto") {
        Ok(TypeShape::Int8)
    } else if str_eq(datatype, "int16") {
        Ok(TypeShape::Int16)
    } else if str_eq(datatype, "int32") {
        Ok(TypeShape::Int32)
    } else if str_eq(datatype, "int64") {
        Ok(TypeShape::Int64)
    } else if str_eq(datatype, "bool") {
        Ok(TypeShape::Bool)
    } else if str_eq(datatype, "str") || str_eq(datatype, "void") {
        Ok(TypeShape::Pointer)
    } else {
        Err(ShapeError::Unsupported(String::from_str(datatype)))
    }
}

impl ShapeError {
    /// The kind under which the code generator reports the error.
    pub fn error_type(&self) -> (r: crate::gen_error::ErrorType)
        ensures
            match self {
                ShapeError::ArrayLength => r == crate::gen_error::ErrorType::BuildError,
                ShapeError::Unsupported(_) => r == crate::gen_error::ErrorType::NotSupported,
            },
    {
        match self {
            ShapeError::ArrayLength => crate::gen_error::ErrorType::BuildError,
            ShapeError::Unsupported(_) => crate::gen_error::ErrorType::NotSupported,
        }
    }

    /// The description under which the code generator reports the error.
    pub fn description(&self) -> (r: String)
        ensures
            r@ == match self@ {
                ShapeErrorView::ArrayLength => "Unable to compile array's length!"@,
                ShapeErrorView::Unsupported(name) => "Unsupported `"@ + name + "` datatype!"@,
            },
    {
        match self {
            ShapeError::ArrayLength => String::from_str("Unable to compile array's length!"),
            ShapeError::Unsupported(name) => {
                let mut s = String::from_str("Unsupported `");
                crate::text::append_str(&mut s, name.as_str());
                crate::text::append_str(&mut s, "` datatype!");
                s
            },
        }
    }
}

/// The machine types that a function may return.
#[derive(Debug, PartialEq, Eq)]
pub enum ReturnShape {
    Int8,
    Int16,
    Int32,
    Int64,
    Bool,
    Void,
    Pointer,
}

/// The return type of a function declared with type `t`; `None` for a type
/// that no function may return.
pub open spec fn return_shape_of(t: Seq<char>) -> Option<ReturnShape> {
    if t == "int8"@ {
        Some(ReturnShape::Int8)
    } else if t == "int16"@ {
        Some(ReturnShape::Int16)
    } else if t == "int32"@ {
        Some(ReturnShape::Int32)
    } else if t == "int64"@ {
        Some(ReturnShape::Int64)
    } else if t == "bool"@ {
        Some(ReturnShape::Bool)
    } else if t == "void"@ {
        Some(ReturnShape::Void)
    } else if t == "str"@ {
        Some(ReturnShape::Pointer)
    } else {
        None
    }
}

/// The return type of a function declared with type `datatype`, or the
/// description of the error the code generator reports for it.
pub fn function_type_of(datatype: &str) -> (r: Result<ReturnShape, String>)
    ensures
        match return_shape_of(datatype@) {
            Some(sh) => r == Ok::<ReturnShape, String>(sh),
            None => r matches Err(e) && e@ == "Unsupported `"@ + datatype@
                + "` function type found!"@,
        },
{
    if str_eq(datatype, "int8") {
        Ok(ReturnShape::Int8)
    } else if str_eq(datatype, "int16") {
        Ok(ReturnShape::Int16)
    } else if str_eq(datatype, "int32") {
        Ok(ReturnShape::Int32)
    } else if str_eq(datatype, "int64") {
        Ok(ReturnShape::Int64)
    } else if str_eq(datatype, "bool") {
        Ok(ReturnShape::Bool)
    } else if str_eq(datatype, "void") {
        Ok(ReturnShape::Void)
    } else if str_eq(datatype, "str") {
        Ok(ReturnShape::Pointer)
    } else {
        let mut s = String::from_str("Unsupported `");
        crate::text::append_str(&mut s, datatype);
        crate::text::append_str(&mut s, "` function type found!");
        Err(s)
    }
}

} // verus!

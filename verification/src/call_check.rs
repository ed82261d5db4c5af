//! The type checks the compiler makes where a value meets a declared type:
//! a variable's initial value against its annotation, and a call's
//! arguments against the function's parameters. Each answers `None` when
//! the check passes and the error message otherwise.

use vstd::prelude::*;
use vstd::string::*;
use crate::text::{append_str, decimal, str_eq, usize_to_string};

verus! {

/// The texts of a list of strings.
pub open spec fn texts(v: Seq<String>) -> Seq<Seq<char>> {
    v.map_values(|s: String| s@)
}

/// The items of `items` with `sep` between each two of them
/// (`[String]::join`).
pub open spec fn joined(items: Seq<Seq<char>>, sep: Seq<char>) -> Seq<char>
    decreases items.len(),
{
    if items.len() == 0 {
        seq![]
    } else if items.len() == 1 {
        items[0]
    } else {
        joined(items.drop_last(), sep) + sep + items.last()
    }
}

/// The message for a variable whose initial value has another type than
/// its annotation.
pub open spec fn msg_annotation(datatype: Seq<char>, identifier: Seq<char>, found: Seq<char>) -> Seq<
    char,
> {
    "Type `"@ + datatype + "` expected for '"@ + identifier + "' variable, but found `"@ + found
        + "`!"@
}

/// The message for a call with another number of arguments than the
/// function has parameters.
pub open spec fn msg_argument_count(name: Seq<char>, expected: nat, found: nat) -> Seq<char> {
    "Function `"@ + name + "` has "@ + decimal(expected) + " arguments, but "@ + decimal(found)
        + " found!"@
}

/// The message for a call whose arguments have other types than the
/// parameters; a lambda is not named.
pub open spec fn msg_argument_types(
    name: Seq<char>,
    is_lambda: bool,
    expected: Seq<Seq<char>>,
    found: Seq<Seq<char>>,
) -> Seq<char> {
    let lists = "expected arguments types ["@ + joined(expected, ", "@) + "], but found ["@
        + joined(found, ", "@) + "]!"@;
    if is_lambda {
        "Lambda function "@ + lists
    } else {
        "Function `"@ + name + "` "@ + lists
    }
}

/// Checks the type of a variable's initial value, `found`, against the
/// variable's annotation `datatype`.
pub fn annotation_mismatch(datatype: &str, identifier: &str, found: &str) -> (r: Option<String>)
    ensures
        r is None <==> found@ == datatype@,
        r matches Some(m) ==> m@ == msg_annotation(datatype@, identifier@, found@),
{
    if str_eq(found, datatype) {
        return None;
    }
    let mut m = String::from_str("Type `");
    append_str(&mut m, datatype);
    append_str(&mut m, "` expected for '");
    append_str(&mut m, identifier);
    append_str(&mut m, "' variable, but found `");
    append_str(&mut m, found);
    append_str(&mut m, "`!");
    Some(m)
}

/// Checks the number of a call's arguments, `found`, against the number of
/// the function's parameters, `expected`.
pub fn argument_count_mismatch(name: &str, expected: usize, found: usize) -> (r: Option<String>)
    ensures
        r is None <==> found == expected,
        r matches Some(m) ==> m@ == msg_argument_count(name@, expected as nat, found as nat),
{
    if found == expected {
        return None;
    }
    let mut m = String::from_str("Function `");
    append_str(&mut m, name);
    append_str(&mut m, "` has ");
    let e = usize_to_string(expected);
    append_str(&mut m, e.as_str());
    append_str(&mut m, " arguments, but ");
    let f = usize_to_string(found);
    append_str(&mut m, f.as_str());
    append_str(&mut m, " found!");
    Some(m)
}

/// The strings of `items` joined with `sep` between them.
pub fn join_texts(items: &Vec<String>, sep: &str) -> (r: String)
    ensures
        r@ == joined(texts(items@), sep@),
{
    let mut out = String::new();
    let mut i: usize = 0;
    while i < items.len()
        invariant
            i <= items.len(),
            out@ == joined(texts(items@).take(i as int), sep@),
        decreases items.len() - i,
    {
        let ghost before = texts(items@).take(i as int);
        if i > 0 {
            append_str(&mut out, sep);
        }
        append_str(&mut out, items[i].as_str());
        proof {
            let after = texts(items@).take(i + 1);
            assert(after.drop_last() =~= before);
            assert(after.last() == items@[i as int]@);
            if i == 0 {
                assert(before =~= Seq::<Seq<char>>::empty());
            }
        }
        i = i + 1;
    }
    assert(texts(items@).take(items.len() as int) =~= texts(items@));
    out
}

/// Checks the types of a call's arguments, `found`, against the types of
/// the function's parameters, `expected`, one by one.
pub fn argument_types_mismatch(
    name: &str,
    is_lambda: bool,
    expected: &Vec<String>,
    found: &Vec<String>,
) -> (r: Option<String>)
    requires
        expected.len() == found.len(),
    ensures
        r is None <==> texts(found@) == texts(expected@),
        r matches Some(m) ==> m@ == msg_argument_types(
            name@,
            is_lambda,
            texts(expected@),
            texts(found@),
        ),
{
    let mut same = true;
    let mut i: usize = 0;
    while i < expected.len()
        invariant
            i <= expected.len(),
            expected.len() == found.len(),
            same <==> forall|k: int| 0 <= k < i ==> found@[k]@ == expected@[k]@,
        decreases expected.len() - i,
    {
        if !str_eq(found[i].as_str(), expected[i].as_str()) {
            same = false;
        }
        i = i + 1;
    }
    if same {
        assert(texts(found@) =~= texts(expected@));
        return None;
    }
    assert(texts(found@) != texts(expected@)) by {
        let k = choose|k: int| 0 <= k < expected.len() && found@[k]@ != expected@[k]@;
        assert(texts(found@)[k] != texts(expected@)[k]);
    }
    let mut m = if is_lambda {
        String::from_str("Lambda function ")
    } else {
        let mut head = String::from_str("Function `");
        append_str(&mut head, name);
        append_str(&mut head, "` ");
        head
    };
    append_str(&mut m, "expected arguments types [");
    let e = join_texts(expected, ", ");
    append_str(&mut m, e.as_str());
    append_str(&mut m, "], but found [");
    let f = join_texts(found, ", ");
    append_str(&mut m, f.as_str());
    append_str(&mut m, "]!");
    Some(m)
}

} // verus!

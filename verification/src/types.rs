//! The type names of the language as the code generator reads them: integer
//! widths, pointer types (`int8*`), array types (`int8[3]`), the `printf`
//! formats of printable types and the type given to an integer literal.

use vstd::prelude::*;
use vstd::string::*;
use crate::number::{all_digits, digit_value, digits_value, parse_u64, parse_u64_text};
use crate::parser_spec::trim;
use crate::text::{chars_of, decimal, digit_char, str_eq, string_of};

verus! {

/// The rank of an integer type by width: `int8` < `int16` < `int32` <
/// `int64`; -1 for any other name.
pub open spec fn int_order(t: Seq<char>) -> int {
    if t == "int8"@ {
        0
    } else if t == "int16"@ {
        1
    } else if t == "int32"@ {
        2
    } else if t == "int64"@ {
        3
    } else {
        -1
    }
}

/// The rank of the integer type `o_type` (see `int_order`).
pub fn get_int_order(o_type: &str) -> (r: i8)
    ensures
        r == int_order(o_type@),
{
    if str_eq(o_type, "int8") {
        0
    } else if str_eq(o_type, "int16") {
        1
    } else if str_eq(o_type, "int32") {
        2
    } else if str_eq(o_type, "int64") {
        3
    } else {
        -1
    }
}

/// Every type in `types` is `expected_type`.
pub fn validate_types(types: &[String], expected_type: String) -> (r: bool)
    ensures
        r == forall|i: int| 0 <= i < types@.len() ==> #[trigger] types@[i]@ == expected_type@,
{
    let mut i: usize = 0;
    while i < types.len()
        invariant
            i <= types@.len(),
            forall|k: int| 0 <= k < i ==> #[trigger] types@[k]@ == expected_type@,
        decreases types@.len() - i,
    {
        if !str_eq(types[i].as_str(), expected_type.as_str()) {
            return false;
        }
        i = i + 1;
    }
    true
}

/// A pointer type ends with `*`.
pub open spec fn is_pointer(t: Seq<char>) -> bool {
    t.len() > 0 && t.last() == '*'
}

/// `type_str` names a pointer type.
pub fn is_ptr_type(type_str: &str) -> (r: bool)
    ensures
        r == is_pointer(type_str@),
{
    let n = type_str.unicode_len();
    n > 0 && type_str.get_char(n - 1) == '*'
}

/// `s` holds the character `c`.
pub fn holds_char(s: &str, c: char) -> (r: bool)
    ensures
        r == s@.contains(c),
{
    let n = s.unicode_len();
    let mut i: usize = 0;
    while i < n
        invariant
            n == s@.len(),
            i <= n,
            forall|k: int| 0 <= k < i ==> s@[k] != c,
        decreases n - i,
    {
        if s.get_char(i) == c {
            assert(s@[i as int] == c);
            return true;
        }
        i = i + 1;
    }
    false
}

/// `type_str` names an array type: it holds both `[` and `]`.
pub fn is_arr_type(type_str: &str) -> (r: bool)
    ensures
        r == (type_str@.contains('[') && type_str@.contains(']')),
{
    holds_char(type_str, '[') && holds_char(type_str, ']')
}

/// The type a pointer type points to: the name without its last `*`.
pub open spec fn pointee(t: Seq<char>) -> Seq<char> {
    if is_pointer(t) {
        t.drop_last()
    } else {
        t
    }
}

/// The pointed-to type of a pointer type; any other type unchanged.
pub fn unwrap_ptr_type(type_str: &str) -> (r: String)
    ensures
        r@ == pointee(type_str@),
{
    let chars = chars_of(type_str);
    if is_ptr_type(type_str) {
        string_of(&chars, 0, chars.len() - 1)
    } else {
        string_of(&chars, 0, chars.len())
    }
}

/// The types that `printf` can print.
pub open spec fn is_printable(t: Seq<char>) -> bool {
    t == "int8"@ || t == "int16"@ || t == "int32"@ || t == "int64"@ || t == "bool"@ || t == "str"@
}

/// The `printf` conversion for a printable type.
pub open spec fn printf_format(t: Seq<char>) -> Seq<char> {
    if t == "int8"@ || t == "int32"@ {
        "%d"@
    } else if t == "int16"@ {
        "%hd"@
    } else if t == "int64"@ {
        "%lld"@
    } else {
        "%s"@
    }
}

/// The `printf` conversion for the printable type `type_str`.
pub fn type_fmt(type_str: &str) -> (r: String)
    requires
        is_printable(type_str@),
    ensures
        r@ == printf_format(type_str@),
{
    if str_eq(type_str, "int8") || str_eq(type_str, "int32") {
        String::from_str("%d")
    } else if str_eq(type_str, "int16") {
        String::from_str("%hd")
    } else if str_eq(type_str, "int64") {
        String::from_str("%lld")
    } else {
        String::from_str("%s")
    }
}

/// The index of the first `c` in `s` at or after `i`, or the length of `s`.
pub open spec fn find_from(s: Seq<char>, c: char, i: int) -> int
    decreases s.len() - i,
{
    if i < 0 || i >= s.len() {
        s.len() as int
    } else if s[i] == c {
        i
    } else {
        find_from(s, c, i + 1)
    }
}

pub proof fn lemma_find_from(s: Seq<char>, c: char, i: int)
    requires
        0 <= i <= s.len(),
    ensures
        i <= find_from(s, c, i) <= s.len(),
        find_from(s, c, i) < s.len() ==> s[find_from(s, c, i)] == c,
        forall|j: int| i <= j < find_from(s, c, i) ==> s[j] != c,
    decreases s.len() - i,
{
    if i < s.len() && s[i] != c {
        lemma_find_from(s, c, i + 1);
    }
}

/// The first piece of `s` split at `c` (`s.split(c)` yields it first).
pub open spec fn before_char(s: Seq<char>, c: char) -> Seq<char> {
    s.take(find_from(s, c, 0))
}

/// What follows the first `c` in `s`.
pub open spec fn after_char(s: Seq<char>, c: char) -> Seq<char> {
    s.skip(find_from(s, c, 0) + 1)
}

/// The index of the first `c` in `v[from..]`, or the length of `v`.
pub(crate) fn index_of(v: &Vec<char>, c: char, from: usize) -> (r: usize)
    requires
        from <= v.len(),
    ensures
        r as int == find_from(v@, c, from as int),
{
    proof {
        lemma_find_from(v@, c, from as int);
    }
    let mut i = from;
    while i < v.len() && v[i] != c
        invariant
            from <= i <= v.len(),
            find_from(v@, c, i as int) == find_from(v@, c, from as int),
        decreases v.len() - i,
    {
        i = i + 1;
    }
    i
}

/// The element type of an array type: the name up to its first `[`.
pub fn clean_array_datatype(val: &str) -> (r: String)
    ensures
        r@ == before_char(val@, '['),
{
    let chars = chars_of(val);
    let k = index_of(&chars, '[', 0);
    proof {
        lemma_find_from(val@, '[', 0);
    }
    let r = string_of(&chars, 0, k);
    assert(r@ =~= before_char(val@, '['));
    r
}

/// The text of the length of an array type `t[n]`: what stands between the
/// first `[` and the next `[` or `]`, trimmed.
pub open spec fn array_length_text(t: Seq<char>) -> Seq<char> {
    trim(before_char(before_char(after_char(t, '['), '['), ']'))
}

/// The length of the array type `val`.
pub fn get_array_datatype_len(val: &str) -> (r: u64)
    requires
        val@.contains('['),
        parse_u64(array_length_text(val@)) is Some,
    ensures
        Some(r) == parse_u64(array_length_text(val@)),
{
    let chars = chars_of(val);
    let open = index_of(&chars, '[', 0);
    proof {
        lemma_find_from(val@, '[', 0);
        let j = choose|j: int| 0 <= j < val@.len() && val@[j] == '[';
        assert(find_from(val@, '[', 0) <= j);
        assert(chars@ == val@);
    }
    assert(open < chars.len());
    let rest = string_of(&chars, open + 1, chars.len());
    assert(rest@ =~= after_char(val@, '['));
    let rest_chars = chars_of(rest.as_str());
    let second = index_of(&rest_chars, '[', 0);
    proof {
        lemma_find_from(rest@, '[', 0);
    }
    let piece = string_of(&rest_chars, 0, second);
    assert(piece@ =~= before_char(after_char(val@, '['), '['));
    let piece_chars = chars_of(piece.as_str());
    let close = index_of(&piece_chars, ']', 0);
    proof {
        lemma_find_from(piece@, ']', 0);
    }
    let inner = string_of(&piece_chars, 0, close);
    assert(inner@ =~= before_char(before_char(after_char(val@, '['), '['), ']'));
    let digits = crate::parser::trimmed(inner.as_str());
    match parse_u64_text(&digits) {
        Some(n) => n,
        None => 0,
    }
}

/// The integer type given to a literal of value `i`: the narrowest of
/// `int8`, `int16`, `int32` and `int64` whose range holds it.
pub open spec fn literal_type(i: int) -> Seq<char> {
    if i8::MIN <= i <= i8::MAX {
        "int8"@
    } else if i16::MIN <= i <= i16::MAX {
        "int16"@
    } else if i32::MIN <= i <= i32::MAX {
        "int32"@
    } else {
        "int64"@
    }
}

/// The integer type given to the literal `i` when no type is expected.
pub fn literal_int_type(i: i64) -> (r: &'static str)
    ensures
        r@ == literal_type(i as int),
{
    if -128 <= i && i <= 127 {
        "int8"
    } else if -32768 <= i && i <= 32767 {
        "int16"
    } else if -2147483648 <= i && i <= 2147483647 {
        "int32"
    } else {
        "int64"
    }
}

/// A literal of value `i` may stand where `expected` (or a pointer to it)
/// is expected: its own type is no wider.
pub open spec fn literal_fits(i: int, expected: Seq<char>) -> bool {
    int_order(literal_type(i)) <= int_order(pointee(expected))
}

/// Whether the literal `i` may be compiled as a value of type `expected`.
pub fn literal_fits_type(i: i64, expected: &str) -> (r: bool)
    ensures
        r == literal_fits(i as int, expected@),
{
    let own = literal_int_type(i);
    let target = unwrap_ptr_type(expected);
    get_int_order(own) <= get_int_order(target.as_str())
}

/// The rank of an integer type grows with its width, and the type given to
/// a literal is the narrowest integer type whose range holds its value.
pub proof fn literal_types_are_ranked(i: int)
    ensures
        int_order("int8"@) < int_order("int16"@) < int_order("int32"@) < int_order("int64"@),
        0 <= int_order(literal_type(i)) <= 3,
        literal_type(i) == "int8"@ <==> i8::MIN <= i <= i8::MAX,
        literal_type(i) == "int16"@ <==> (i16::MIN <= i <= i16::MAX && !(i8::MIN <= i
            <= i8::MAX)),
        literal_type(i) == "int32"@ <==> (i32::MIN <= i <= i32::MAX && !(i16::MIN <= i
            <= i16::MAX)),
        literal_type(i) == "int64"@ <==> !(i32::MIN <= i <= i32::MAX),
        literal_fits(i, literal_type(i)),
{
    reveal_strlit("int8");
    reveal_strlit("int16");
    reveal_strlit("int32");
    reveal_strlit("int64");
    assert("int16"@.len() == 5);
    assert("int8"@.len() == 4);
    assert("int16"@ != "int8"@);
    assert("int32"@[3] != "int16"@[3]);
    assert("int32"@ != "int16"@);
    assert("int32"@ != "int8"@);
    assert("int64"@[3] != "int16"@[3]);
    assert("int64"@[3] != "int32"@[3]);
    assert("int64"@ != "int8"@);
}

/// The width in bits of an integer type of the language; 0 for any other
/// name.
pub open spec fn int_width(t: Seq<char>) -> nat {
    if t == "int8"@ {
        8
    } else if t == "int16"@ {
        16
    } else if t == "int32"@ {
        32
    } else if t == "int64"@ {
        64
    } else {
        0
    }
}

/// `t` is an integer type of the language whose signed range holds `i`.
pub open spec fn in_int_range(t: Seq<char>, i: int) -> bool {
    ||| int_width(t) == 8 && -0x80 <= i < 0x80
    ||| int_width(t) == 16 && -0x8000 <= i < 0x8000
    ||| int_width(t) == 32 && -0x8000_0000 <= i < 0x8000_0000
    ||| int_width(t) == 64 && -0x8000_0000_0000_0000 <= i < 0x8000_0000_0000_0000
}

/// The four integer type names differ from each other.
proof fn lemma_int_names_differ()
    ensures
        "int8"@ != "int16"@,
        "int8"@ != "int32"@,
        "int8"@ != "int64"@,
        "int16"@ != "int32"@,
        "int16"@ != "int64"@,
        "int32"@ != "int64"@,
{
    reveal_strlit("int8");
    reveal_strlit("int16");
    reveal_strlit("int32");
    reveal_strlit("int64");
    assert("int8"@.len() != "int16"@.len());
    assert("int8"@.len() != "int32"@.len());
    assert("int8"@.len() != "int64"@.len());
    assert("int32"@[3] != "int16"@[3]);
    assert("int64"@[3] != "int16"@[3]);
    assert("int64"@[3] != "int32"@[3]);
}

/// An integer literal fits a declared type exactly when that type, or the
/// type it points to, is an integer type whose range holds the literal:
/// `int32 a = 5;` and `int8 b = -128;` are accepted, `int8 c = 300;` and
/// `str d = 5;` are not.
pub proof fn literal_fits_when_range_holds(i: int, expected: Seq<char>)
    requires
        i64::MIN <= i <= i64::MAX,
    ensures
        literal_fits(i, expected) <==> in_int_range(pointee(expected), i),
{
    lemma_int_names_differ();
    literal_types_are_ranked(i);
}

/// The name of the array type of `n` values of type `t`: `t[n]`.
pub open spec fn array_type_name(t: Seq<char>, n: nat) -> Seq<char> {
    t + seq!['['] + decimal(n) + seq![']']
}

proof fn lemma_decimal_digits(n: nat)
    ensures
        decimal(n).len() >= 1,
        forall|i: int| 0 <= i < decimal(n).len() ==> '0' <= #[trigger] decimal(n)[i] <= '9',
        all_digits(decimal(n), 10),
        digits_value(decimal(n), 10) == n,
    decreases n,
{
    if n >= 10 {
        lemma_decimal_digits(n / 10);
        let s = decimal(n / 10);
        let d = digit_char(n % 10);
        assert(decimal(n) == s.push(d));
        assert(s.push(d).drop_last() =~= s);
        assert(digit_value(d, 10) == Some((n % 10) as nat));
        assert(digits_value(s.push(d), 10) == digits_value(s, 10) * 10 + (n % 10) as nat);
        assert(n == (n / 10) * 10 + n % 10);
        assert(digits_value(s, 10) * 10 == (n / 10) * 10);
        assert(digits_value(decimal(n), 10) == n);
        assert forall|i: int| 0 <= i < s.push(d).len() implies #[trigger] digit_value(
            s.push(d)[i],
            10,
        ) is Some by {
            if i < s.len() {
                assert(s.push(d)[i] == s[i]);
                assert(digit_value(s[i], 10) is Some);
            }
        }
        assert forall|i: int| 0 <= i < s.push(d).len() implies '0' <= #[trigger] s.push(d)[i]
            <= '9' by {
            if i < s.len() {
                assert(s.push(d)[i] == s[i]);
            }
        }
    } else {
        assert(digit_value(digit_char(n), 10) == Some(n));
        assert(seq![digit_char(n)].drop_last() =~= Seq::<char>::empty());
        assert(digits_value(Seq::<char>::empty(), 10) == 0);
        assert(digits_value(seq![digit_char(n)], 10) == digits_value(Seq::<char>::empty(), 10) * 10
            + n);
    }
}

/// The first `c` in `a + seq![c] + b`, where `a` holds no `c`, is the one
/// after `a`.
proof fn lemma_find_after(a: Seq<char>, c: char, b: Seq<char>)
    requires
        !a.contains(c),
    ensures
        find_from(a + seq![c] + b, c, 0) == a.len(),
{
    let s = a + seq![c] + b;
    lemma_find_from(s, c, 0);
    let k = find_from(s, c, 0);
    assert(s[a.len() as int] == c);
    if k < a.len() {
        assert(s[k] == a[k]);
    }
}

/// Reading back the name of an array type gives its parts: the element
/// type is the text before the `[`, and the length is the number written
/// between the brackets.
pub proof fn array_type_name_round_trip(t: Seq<char>, n: u64)
    requires
        !t.contains('['),
    ensures
        array_type_name(t, n as nat).contains('['),
        before_char(array_type_name(t, n as nat), '[') == t,
        parse_u64(array_length_text(array_type_name(t, n as nat))) == Some(n),
{
    let d = decimal(n as nat);
    let name = array_type_name(t, n as nat);
    lemma_decimal_digits(n as nat);
    assert(name =~= t + seq!['['] + (d + seq![']']));
    lemma_find_after(t, '[', d + seq![']']);
    assert(name[t.len() as int] == '[');
    assert(before_char(name, '[') =~= t);
    let rest = after_char(name, '[');
    assert(rest =~= d + seq![']']);
    assert(!d.contains('[')) by {
        assert forall|i: int| 0 <= i < d.len() implies d[i] != '[' by {
            assert('0' <= d[i] <= '9');
        }
    }
    assert(!d.contains(']')) by {
        assert forall|i: int| 0 <= i < d.len() implies d[i] != ']' by {
            assert('0' <= d[i] <= '9');
        }
    }
    assert(!rest.contains('[')) by {
        assert forall|i: int| 0 <= i < rest.len() implies rest[i] != '[' by {
            if i < d.len() {
                assert(rest[i] == d[i]);
            }
        }
    }
    lemma_find_from(rest, '[', 0);
    if find_from(rest, '[', 0) < rest.len() {
        assert(rest[find_from(rest, '[', 0)] == '[');
    }
    assert(before_char(rest, '[') =~= rest);
    assert(rest =~= d + seq![']'] + Seq::<char>::empty());
    lemma_find_after(d, ']', Seq::<char>::empty());
    assert(before_char(rest, ']') =~= d);
    lemma_trim_digits(d);
    assert(array_length_text(name) == d);
}

/// `trim` leaves a text of digits as it is.
proof fn lemma_trim_digits(d: Seq<char>)
    requires
        d.len() >= 1,
        forall|i: int| 0 <= i < d.len() ==> '0' <= #[trigger] d[i] <= '9',
    ensures
        trim(d) == d,
{
    assert('0' <= d[0] <= '9');
    assert('0' <= d.last() <= '9');
    assert(crate::parser_spec::trim_start(d) == d);
    assert(crate::parser_spec::trim_end(d) == d);
}

} // verus!

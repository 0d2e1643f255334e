use vstd::prelude::*;
use crate::text::{
    all_digits, decimal, is_digit, lemma_decimal_digits, signed_decimal, strip_plus, contains_char, ends_with, has_prefix, has_suffix, parse_i64, parse_i64_spec, parse_u64,
    parse_u64_spec, skip_chars, starts_with,
};
use crate::value::BufValue;

verus! {

/// What a literal token denotes: a value, or a float still to be read from
/// its text.
pub enum Literal {
    Value(BufValue),
    FloatText(String),
}

/// Why a literal token is refused.
pub enum LiteralError {
    /// A string literal that does not end with `"`.
    UnclosedString,
    /// A string literal that does not begin with `"`.
    UnopenedString,
    /// A header that is none of `'`, `f`, `u`, `i`, `s`, `1`, `0`.
    UnknownHeader(String),
    /// A number that does not parse.
    NotANumber(String),
}

/// `Literal` with its text as characters.
pub enum LiteralView {
    Value(BufValue),
    FloatText(Seq<char>),
}

/// `LiteralError` with its text as characters.
pub enum LiteralFault {
    UnclosedString,
    UnopenedString,
    UnknownHeader(Seq<char>),
    NotANumber(Seq<char>),
}

impl Literal {
    pub open spec fn view(self) -> LiteralView {
        match self {
            Literal::Value(v) => LiteralView::Value(v),
            Literal::FloatText(t) => LiteralView::FloatText(t@),
        }
    }
}

impl LiteralError {
    pub open spec fn view(self) -> LiteralFault {
        match self {
            LiteralError::UnclosedString => LiteralFault::UnclosedString,
            LiteralError::UnopenedString => LiteralFault::UnopenedString,
            LiteralError::UnknownHeader(h) => LiteralFault::UnknownHeader(h@),
            LiteralError::NotANumber(t) => LiteralFault::NotANumber(t@),
        }
    }
}

/// Reads a literal token.
pub fn mkbuf(data: &str) -> (r: Result<Literal, LiteralError>)
    requires
        data@.len() >= 2,
        (data@[0] as u32) < 128,
        (data@[1] as u32) < 128,
    ensures
        match mkbuf_spec(data@) {
            Ok(l) => r matches Ok(x) && x.view() == l,
            Err(f) => r matches Err(e) && e.view() == f,
        },
{
    let header = data.get_char(1);
    let value = skip_chars(data, 2);
    let val = skip_chars(data, 1);
    if header == '\'' {
        if contains_char(value, '.') {
            Ok(Literal::FloatText(String::from_str(value)))
        } else {
            match parse_u64(value) {
                Some(v) => Ok(Literal::Value(BufValue::U_Int(v))),
                None => match parse_i64(value) {
                    Some(i) => Ok(Literal::Value(BufValue::Int(i))),
                    None => Err(LiteralError::NotANumber(String::from_str(value))),
                },
            }
        }
    } else if header == 'f' {
        Ok(Literal::FloatText(String::from_str(value)))
    } else if header == 'u' {
        match parse_u64(value) {
            Some(v) => Ok(Literal::Value(BufValue::U_Int(v))),
            None => Err(LiteralError::NotANumber(String::from_str(value))),
        }
    } else if header == 'i' {
        match parse_i64(value) {
            Some(i) => Ok(Literal::Value(BufValue::Int(i))),
            None => Err(LiteralError::NotANumber(String::from_str(value))),
        }
    } else if header == 's' {
        let q = "\"";
        proof {
            reveal_strlit("\"");
            assert(q@ =~= quote());
        }
        if !ends_with(val, q) {
            Err(LiteralError::UnclosedString)
        } else {
            Err(LiteralError::UnopenedString)
        }
    } else if header == '1' {
        Ok(Literal::Value(BufValue::Bool(true)))
    } else if header == '0' {
        Ok(Literal::Value(BufValue::Bool(false)))
    } else {
        let text = data.substring_char(1, 2);
        proof {
            assert(data@.subrange(1, 2) =~= seq![header]);
        }
        Err(LiteralError::UnknownHeader(String::from_str(text)))
    }
}

/// An unsigned number written in decimal after `@'` reads back as itself.
pub proof fn law_unsigned_literal_roundtrip(n: u64)
    ensures
        mkbuf_spec(seq!['@', '\''] + decimal(n as nat)) == Ok::<LiteralView, LiteralFault>(
            LiteralView::Value(BufValue::U_Int(n)),
        ),
{
    let data = seq!['@', '\''] + decimal(n as nat);
    let value = data.skip(2);
    assert(value =~= decimal(n as nat));
    lemma_decimal_digits(n as nat);
    assert(!value.contains('.')) by {
        if value.contains('.') {
            let k = choose|k: int| 0 <= k < value.len() && value[k] == '.';
            assert(is_digit(value[k]));
        }
    }
    assert(is_digit(value[0]));
    assert(strip_plus(value) == value);
}

/// A negative number written in decimal after `@'` reads back as itself.
pub proof fn law_negative_literal_roundtrip(i: i64)
    requires
        i < 0,
    ensures
        mkbuf_spec(seq!['@', '\''] + signed_decimal(i as int)) == Ok::<LiteralView, LiteralFault>(
            LiteralView::Value(BufValue::Int(i)),
        ),
{
    let data = seq!['@', '\''] + signed_decimal(i as int);
    let value = data.skip(2);
    let m = (0 - i) as nat;
    assert(value =~= seq!['-'] + decimal(m));
    lemma_decimal_digits(m);
    assert(!value.contains('.')) by {
        if value.contains('.') {
            let k = choose|k: int| 0 <= k < value.len() && value[k] == '.';
            assert(k > 0);
            assert(value[k] == decimal(m)[k - 1]);
            assert(is_digit(decimal(m)[k - 1]));
        }
    }
    assert(strip_plus(value) == value);
    assert(!is_digit(value[0]));
    assert(!all_digits(value));
    assert(value.drop_first() =~= decimal(m));
}

/// An `i` literal is always a signed integer: every `i64`, written in
/// decimal after `@i` (with a `-` when negative), reads back as `Int` of
/// itself.
pub proof fn law_signed_literal_roundtrip(n: i64)
    ensures
        mkbuf_spec(seq!['@', 'i'] + signed_decimal(n as int)) == Ok::<LiteralView, LiteralFault>(
            LiteralView::Value(BufValue::Int(n)),
        ),
{
    let data = seq!['@', 'i'] + signed_decimal(n as int);
    let value = data.skip(2);
    if n < 0 {
        let m = (0 - n) as nat;
        assert(value =~= seq!['-'] + decimal(m));
        lemma_decimal_digits(m);
        assert(value.drop_first() =~= decimal(m));
    } else {
        assert(value =~= decimal(n as nat));
        lemma_decimal_digits(n as nat);
        assert(is_digit(value[0]));
        assert(strip_plus(value) == value);
    }
}

/// A `u` literal is always an unsigned integer: every `u64`, written in
/// decimal after `@u`, reads back as `U_Int` of itself.
pub proof fn law_unsigned_header_roundtrip(n: u64)
    ensures
        mkbuf_spec(seq!['@', 'u'] + decimal(n as nat)) == Ok::<LiteralView, LiteralFault>(
            LiteralView::Value(BufValue::U_Int(n)),
        ),
{
    let data = seq!['@', 'u'] + decimal(n as nat);
    let value = data.skip(2);
    assert(value =~= decimal(n as nat));
    lemma_decimal_digits(n as nat);
    assert(is_digit(value[0]));
    assert(strip_plus(value) == value);
}

/// `@1` is `true` and `@0` is `false`.
pub proof fn law_boolean_literals()
    ensures
        mkbuf_spec(seq!['@', '1']) == Ok::<LiteralView, LiteralFault>(LiteralView::Value(BufValue::Bool(true))),
        mkbuf_spec(seq!['@', '0']) == Ok::<LiteralView, LiteralFault>(LiteralView::Value(BufValue::Bool(false))),
{
}

/// `"`
pub open spec fn quote() -> Seq<char> {
    seq!['"']
}

/// What the literal token `data` (such as `@'42`, `@u7`, `@1`) denotes: its
/// first character is the marker, its second the header, the rest the value.
/// A `'` header reads a float when the value has a `.`, else an unsigned
/// number, else a signed one.
pub open spec fn mkbuf_spec(data: Seq<char>) -> Result<LiteralView, LiteralFault> {
    let header = data[1];
    let value = data.skip(2);
    let val = data.skip(1);
    if header == '\'' {
        if value.contains('.') {
            Ok(LiteralView::FloatText(value))
        } else {
            match parse_u64_spec(value) {
                Some(v) => Ok(LiteralView::Value(BufValue::U_Int(v))),
                None => match parse_i64_spec(value) {
                    Some(i) => Ok(LiteralView::Value(BufValue::Int(i))),
                    None => Err(LiteralFault::NotANumber(value)),
                },
            }
        }
    } else if header == 'f' {
        Ok(LiteralView::FloatText(value))
    } else if header == 'u' {
        match parse_u64_spec(value) {
            Some(v) => Ok(LiteralView::Value(BufValue::U_Int(v))),
            None => Err(LiteralFault::NotANumber(value)),
        }
    } else if header == 'i' {
        match parse_i64_spec(value) {
            Some(i) => Ok(LiteralView::Value(BufValue::Int(i))),
            None => Err(LiteralFault::NotANumber(value)),
        }
    } else if header == 's' {
        // `val` begins with the header `s`, never with `"`: a string literal
        // is refused by one check or the other.
        if !has_suffix(val, quote()) {
            Err(LiteralFault::UnclosedString)
        } else {
            Err(LiteralFault::UnopenedString)
        }
    } else if header == '1' {
        Ok(LiteralView::Value(BufValue::Bool(true)))
    } else if header == '0' {
        Ok(LiteralView::Value(BufValue::Bool(false)))
    } else {
        Err(LiteralFault::UnknownHeader(seq![header]))
    }
}

} // verus!

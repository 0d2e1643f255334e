use leadlang::text::{
    contains_str, parse_i64, parse_u64, skip_bytes, split_once, split_str, trim, u64_to_string,
    i64_to_string, utf8_count,
};
use leadlang::value::{BufValue, DisplayPart, Ref, TaskHandle};

fn f(x: f64) -> BufValue {
    BufValue::Float(x.to_bits())
}

#[test]
fn numbers_compare_across_signedness() {
    assert!(BufValue::Int(-1).lt(&BufValue::U_Int(u64::MAX)));
    assert!(BufValue::U_Int(u64::MAX).gt(&BufValue::Int(-1)));
    assert!(BufValue::Int(5).eq(&BufValue::U_Int(5)));
    assert!(BufValue::U_Int(5).eq(&BufValue::Int(5)));
    assert!(!BufValue::Int(-5).eq(&BufValue::U_Int(5)));
}

#[test]
fn floats_compare_as_ieee() {
    assert!(f(1.5).lt(&f(2.0)));
    assert!(f(-3.0).lt(&f(-1.0)));
    assert!(f(2.0).gt(&f(1.5)));
    assert!(f(0.0).eq(&f(-0.0)));
    assert!(!f(1.0).lt(&f(1.0)));
}

#[test]
fn nan_is_unordered() {
    let nan = f(f64::NAN);
    assert!(!nan.lt(&f(1.0)));
    assert!(!f(1.0).lt(&nan));
    assert!(!nan.gt(&f(1.0)));
    assert!(!nan.eq(&nan));
}

#[test]
fn gt_is_swapped_lt() {
    let vals = vec![BufValue::Int(3), BufValue::U_Int(7), f(2.5), BufValue::Bool(true)];
    for a in &vals {
        for b in &vals {
            assert_eq!(a.gt(b), b.lt(a));
        }
    }
}

#[test]
fn mixed_kinds_are_unordered() {
    assert!(!BufValue::Int(1).lt(&f(2.0)));
    assert!(!BufValue::Str("a".to_string()).lt(&BufValue::Str("b".to_string())));
}

#[test]
fn type_names() {
    assert_eq!(BufValue::Int(1).type_of(), "int");
    assert_eq!(BufValue::U_Int(1).type_of(), "u_int");
    assert_eq!(BufValue::Str("x".to_string()).type_of(), "string");
    assert_eq!(BufValue::Faillable(Ok(Box::new(BufValue::Bool(true)))).type_of(), "<success bool>");
    assert_eq!(BufValue::Faillable(Err("boom".to_string())).type_of(), "<err boom>");
    assert_eq!(BufValue::Pointer(Ref { addr: 0, target: None }).type_of(), "<ptr *ref NULL>");
    assert_eq!(
        BufValue::PointerMut(Ref { addr: 8, target: Some(Box::new(BufValue::Int(2))) }).type_of(),
        "int"
    );
    assert_eq!(BufValue::AsyncTask(TaskHandle { id: 1, finished: false }).type_of(), "<async pending...>");
    assert_eq!(BufValue::AsyncTask(TaskHandle { id: 1, finished: true }).type_of(), "<async recv...\\0>");
    assert_eq!(BufValue::Listener(3).type_of(), "<listener ?event>");
}

#[test]
fn display_of_an_array_joins_with_commas() {
    let v = BufValue::Array(vec![BufValue::Int(1), BufValue::Str("a".to_string()), BufValue::Bool(false)]);
    let parts = v.display();
    let texts: Vec<String> = parts
        .iter()
        .map(|p| match p {
            DisplayPart::Text(t) => t.clone(),
            _ => "?".to_string(),
        })
        .collect();
    assert_eq!(texts, vec!["1", ", ", "a", ", ", "false"]);
}

#[test]
fn display_of_a_float_is_handed_over() {
    let v = f(2.5);
    let parts = v.display();
    assert_eq!(parts.len(), 1);
    assert!(matches!(parts[0], DisplayPart::Float(b) if b == 2.5f64.to_bits()));
}

#[test]
fn split_keeps_empty_pieces() {
    assert_eq!(split_str("a b  c", " "), vec!["a", "b", "", "c"]);
    assert_eq!(split_str("", " "), vec![""]);
    assert_eq!(split_once("$x::len", "::"), Some(("$x", "len")));
    assert_eq!(split_once("$x", "::"), None);
}

#[test]
fn trim_and_numbers() {
    assert_eq!(trim("  \t hi there \n"), "hi there");
    assert_eq!(parse_u64("+42"), Some(42));
    assert_eq!(parse_u64("18446744073709551616"), None);
    assert_eq!(parse_u64("-1"), None);
    assert_eq!(parse_i64("-7"), Some(-7));
    assert_eq!(parse_i64("-9223372036854775808"), Some(i64::MIN));
    assert_eq!(u64_to_string(0), "0");
    assert_eq!(i64_to_string(-120), "-120");
}

#[test]
fn bytes_of_text() {
    assert_eq!(utf8_count("héllo"), 6);
    assert_eq!(skip_bytes("héllo", 2), None);
    assert_eq!(skip_bytes("héllo", 3), Some("llo"));
    assert_eq!(skip_bytes("ab", 3), None);
    assert_eq!(skip_bytes("ab", 2), Some(""));
    assert!(contains_str("binaries_linux_x86_64", "linux"));
    assert!(contains_str("abc", ""));
    assert!(!contains_str("abc", "abcd"));
}

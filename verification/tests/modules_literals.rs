use leadlang::literal::{mkbuf, Literal, LiteralError};
use leadlang::module_text::{module_text_fault, parse_into_modules, TextModuleError};
use leadlang::parser::{parse_lead_module, ModuleError};
use leadlang::structure::{parse, source_lines, LeadCode};
use leadlang::value::BufValue;

fn lines(src: &str) -> Vec<Vec<String>> {
    source_lines(src, false)
}

#[test]
fn literals_read() {
    assert!(matches!(mkbuf("@'42"), Ok(Literal::Value(BufValue::U_Int(42)))));
    assert!(matches!(mkbuf("@'-3"), Ok(Literal::Value(BufValue::Int(-3)))));
    assert!(matches!(mkbuf("@'1.5"), Ok(Literal::FloatText(t)) if t == "1.5"));
    assert!(matches!(mkbuf("@f2"), Ok(Literal::FloatText(t)) if t == "2"));
    assert!(matches!(mkbuf("@u7"), Ok(Literal::Value(BufValue::U_Int(7)))));
    assert!(matches!(mkbuf("@i-7"), Ok(Literal::Value(BufValue::Int(-7)))));
    assert!(matches!(mkbuf("@1"), Ok(Literal::Value(BufValue::Bool(true)))));
    assert!(matches!(mkbuf("@0"), Ok(Literal::Value(BufValue::Bool(false)))));
}

#[test]
fn literal_errors() {
    assert!(matches!(mkbuf("@uX"), Err(LiteralError::NotANumber(t)) if t == "X"));
    assert!(matches!(mkbuf("@'abc"), Err(LiteralError::NotANumber(_))));
    assert!(matches!(mkbuf("@shello"), Err(LiteralError::UnclosedString)));
    assert!(matches!(mkbuf("@shello\""), Err(LiteralError::UnopenedString)));
    assert!(matches!(mkbuf("@z1"), Err(LiteralError::UnknownHeader(h)) if h == "z"));
}

#[test]
fn token_module_parses() {
    let src = "declare counter\nfn add ->$a ->$b\n$r: $a::add $b\n*return $r\n*end\nfn zero\n*end\n";
    let tree = parse_lead_module(&lines(src)).ok().unwrap();
    assert_eq!(tree.name, "counter");
    let add = tree.data.get("add").unwrap();
    assert_eq!(add.args, vec!["->$a", "->$b"]);
    assert_eq!(add.code.len(), 2);
    assert_eq!(add.code[1], vec!["*return", "$r"]);
    assert_eq!(tree.data.get("zero").unwrap().code.len(), 0);
}

#[test]
fn token_module_errors() {
    assert!(matches!(parse_lead_module(&lines("declare a\ndeclare b\n")), Err(ModuleError::DuplicateDeclaration)));
    assert!(matches!(parse_lead_module(&lines("fn f ->&$x\n*end\n")), Err(ModuleError::NotMove(t)) if t == "->&$x"));
    assert!(matches!(parse_lead_module(&lines("print x\n")), Err(ModuleError::Unknown(t)) if t == "print"));
    assert!(matches!(parse_lead_module(&lines("declare\n")), Err(ModuleError::MissingToken(0))));
}

#[test]
fn structure_puts_entry_under_entry_key() {
    let files = vec![
        ("main.pb".to_string(), "# comment\n$x: @1\n\n  print $x  \n".to_string()),
        ("lib.mod.pb".to_string(), "declare lib\nfn f\n*end\n".to_string()),
        ("other.pb".to_string(), "a b".to_string()),
    ];
    let d = parse("main.pb", &files).ok().unwrap();
    match d.get(":entry") {
        Some(LeadCode::Code(l)) => {
            assert_eq!(l.len(), 2);
            assert_eq!(l[0], vec!["$x:", "@1"]);
            assert_eq!(l[1], vec!["print", "$x"]);
        }
        _ => panic!("entry missing"),
    }
    assert!(matches!(d.get("lib.mod.pb"), Some(LeadCode::LeadModule(m)) if m.contains_key("f")));
    assert!(matches!(d.get("other.pb"), Some(LeadCode::Code(_))));
    assert!(d.get("main.pb").is_none());
}

#[test]
fn text_module_reads() {
    let src = "# a module\ndeclare greeter\n\nfn hi ->$name\n  $x: *ok\n*end\n";
    let m = parse_into_modules(src).ok().unwrap().unwrap();
    assert_eq!(m.name, "greeter");
    let (args, body) = m.methods.get("hi").unwrap();
    assert_eq!(args, &vec!["->$name".to_string()]);
    assert_eq!(body, &vec!["$x: *ok".to_string()]);
    assert_eq!(m.code, src);
    assert_eq!(m.lines, vec!["declare greeter", "fn hi ->$name", "$x: *ok", "*end"]);
}

#[test]
fn text_module_keeps_its_lines() {
    let code = "declare m\n  fn f ->$a\n# note\n*return ->$a\n*end\n".to_string();
    let md = parse_into_modules(&code).ok().unwrap().unwrap();
    assert_eq!(md.name, "m");
    assert_eq!(md.lines, vec!["declare m", "fn f ->$a", "*return ->$a", "*end"]);
    assert_eq!(md.methods.len(), 1);
    let (args, body) = md.methods.get("f").unwrap();
    assert_eq!(args, &vec!["->$a".to_string()]);
    assert_eq!(body, &vec!["*return ->$a".to_string()]);
}

#[test]
fn text_module_without_declare_holds_nothing() {
    assert!(matches!(parse_into_modules("fn f\n*end\n"), Ok(None)));
    assert!(matches!(parse_into_modules(""), Ok(None)));
}

#[test]
fn text_module_errors() {
    assert!(matches!(module_text_fault("declare a\nfn f\n*end\nfn f\n*end\n"), Some(TextModuleError::MethodOverlap(n)) if n == "f"));
    assert!(matches!(module_text_fault("declare a\ndeclare b\n"), Some(TextModuleError::DuplicateDeclaration)));
    assert!(matches!(module_text_fault("fn f $x\n"), Some(TextModuleError::NotMove(t)) if t == "$x"));
    assert!(matches!(module_text_fault("oops\n"), Some(TextModuleError::Unknown(t)) if t == "oops"));
    assert!(matches!(module_text_fault("fn\n"), Some(TextModuleError::MissingToken(0))));
    assert!(module_text_fault("declare a\nfn f ->$x\n*end\n").is_none());
    assert!(matches!(parse_into_modules("fn f $x\n"), Err(TextModuleError::NotMove(t)) if t == "$x"));
}

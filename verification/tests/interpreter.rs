use std::sync::Arc;
use leadlang::dict::Dict;
use leadlang::driver::{code_lines, end_line, run_line, Application, Frame, InterpretError, LineOutcome};
use leadlang::extends::{get_handle_runtime_ptr, prototype_clash, set_into_extends, Extends, ExtendsInternal};
use leadlang::heap::Heap;
use leadlang::interp::{
    check_state, tok_parse, tok_run, LineState, ParseError, RunError, StateError, Step,
};
use leadlang::packages::{ImplPackage, LanguagePackages};
use leadlang::parser::ModuleMethod;
use leadlang::runtime::{
    begin_event_call, begin_module_call, call_runtime_val, end_event_call, end_module_call,
    finish_import, get_runtime_ptr, store_result, CallTarget, HeapWrapper, ModuleCallError, Options,
};
use leadlang::structure::LeadCode;
use leadlang::timing::AsyncHeapHelper;
use leadlang::value::{BufValue, RTCreatedModule, RawRTValue};

fn toks(s: &str) -> Vec<String> {
    s.split(' ').map(|x| x.to_string()).collect()
}

fn defaults() -> Arc<ExtendsInternal> {
    Arc::new(ExtendsInternal::new())
}

fn is_int(v: Option<&BufValue>, n: i64) -> bool {
    matches!(v, Some(BufValue::Int(x)) if *x == n)
}

struct World {
    heap: Heap,
    line: usize,
    markers: Dict<usize>,
    code: Dict<LeadCode>,
    pkgs: LanguagePackages,
    next_id: u64,
}

fn world() -> World {
    World {
        heap: Heap::new(defaults()),
        line: 0,
        markers: Dict::new(),
        code: Dict::new(),
        pkgs: LanguagePackages::new(),
        next_id: 1,
    }
}

fn run(w: &mut World, total: &mut i8, line: &str, in_module: bool) -> Result<Step, RunError> {
    let args = toks(line);
    let st = check_state(total, &args, &w.heap).ok().unwrap();
    match st {
        LineState::Ignore => Ok(Step::Done),
        LineState::Run { from, to_set, val_type } => tok_run(
            total, &args, from, &to_set, val_type, in_module, &mut w.heap, &mut w.line,
            &mut w.markers, &w.code, &w.pkgs, &mut w.next_id,
        ),
    }
}

#[test]
fn comments_are_ignored_without_cost() {
    let w = world();
    let mut total: i8 = 8;
    assert!(matches!(check_state(&mut total, &toks("# note here"), &w.heap), Ok(LineState::Ignore)));
    assert_eq!(total, 8);
}

#[test]
fn conditions_are_weighed() {
    let mut w = world();
    w.heap.set("$c".to_string(), BufValue::Bool(true));
    w.heap.set("$n".to_string(), BufValue::Bool(false));
    let mut total: i8 = 8;
    match check_state(&mut total, &toks("$a: *if$c @1"), &w.heap) {
        Ok(LineState::Run { from, to_set, val_type }) => {
            assert_eq!(from, 2);
            assert_eq!(to_set, "");
            assert!(!val_type);
        }
        _ => panic!("expected a run"),
    }
    assert_eq!(total, 7);
    assert!(matches!(check_state(&mut total, &toks("*if$n @1"), &w.heap), Ok(LineState::Ignore)));
    assert_eq!(total, 6);
    assert!(matches!(check_state(&mut total, &toks("*else$n $b: @1"), &w.heap), Ok(LineState::Run { from: 2, .. })));
    assert!(matches!(check_state(&mut total, &toks("*if$zz @1"), &w.heap), Err(StateError::MissingValue(n)) if n == "$zz"));
    w.heap.set("$i".to_string(), BufValue::Int(1));
    assert!(matches!(check_state(&mut total, &toks("*if$i @1"), &w.heap), Err(StateError::NotBool(_))));
    assert!(matches!(check_state(&mut total, &toks("$a:"), &w.heap), Err(StateError::MissingToken)));
    let mut low: i8 = -128;
    assert!(matches!(check_state(&mut low, &toks("*if$c @1"), &w.heap), Err(StateError::Overflow)));
}

#[test]
fn literal_lines_store_values() {
    let mut w = world();
    let mut total: i8 = 8;
    assert!(matches!(run(&mut w, &mut total, "$x: @'12", false), Ok(Step::Done)));
    assert!(matches!(w.heap.get("$x"), Some(BufValue::U_Int(12))));
    assert_eq!(total, 7);
    assert!(matches!(run(&mut w, &mut total, "$f: @f1.25", false), Ok(Step::Float { to_set, text }) if to_set == "$f" && text == "1.25"));
    assert!(matches!(run(&mut w, &mut total, "$y: @", false), Err(RunError::BadLiteral)));
    assert!(matches!(run(&mut w, &mut total, "$y: @q", false), Err(RunError::Literal(_))));
    assert!(matches!(run(&mut w, &mut total, "$y: @u-1", false), Err(RunError::Literal(_))));
}

#[test]
fn mark_then_goto_returns() {
    let mut w = world();
    let mut total: i8 = 8;
    w.line = 4;
    assert!(matches!(run(&mut w, &mut total, "*mark top", false), Ok(Step::Done)));
    w.line = 20;
    assert!(matches!(run(&mut w, &mut total, "*goto top", false), Ok(Step::Done)));
    assert_eq!(w.line, 4);
    assert!(matches!(run(&mut w, &mut total, "*goto nowhere", false), Err(RunError::NoMarker(m)) if m == "nowhere"));
}

#[test]
fn goto_returns_across_other_lines() {
    let mut w = world();
    let mut total: i8 = 8;
    w.line = 2;
    assert!(matches!(run(&mut w, &mut total, "*mark loop", false), Ok(Step::Done)));
    w.line = 3;
    assert!(matches!(run(&mut w, &mut total, "*mark other", false), Ok(Step::Done)));
    w.line = 4;
    assert!(matches!(run(&mut w, &mut total, "$x: @'5", false), Ok(Step::Done)));
    w.line = 5;
    assert!(matches!(run(&mut w, &mut total, "*goto other", false), Ok(Step::Done)));
    assert_eq!(w.line, 3);
    w.line = 9;
    assert!(matches!(run(&mut w, &mut total, "*goto loop", false), Ok(Step::Done)));
    assert_eq!(w.line, 2);
}

#[test]
fn return_only_inside_modules() {
    let mut w = world();
    let mut total: i8 = 8;
    w.heap.set("$r".to_string(), BufValue::Int(3));
    assert!(matches!(run(&mut w, &mut total, "*return ->$r", false), Err(RunError::ReturnOutsideModule)));
    assert!(matches!(run(&mut w, &mut total, "*return ->$r", true), Ok(Step::Return(BufValue::Int(3)))));
    assert!(matches!(run(&mut w, &mut total, "*return ->$r", true), Err(RunError::CannotFindVariable(_))));
    assert!(matches!(run(&mut w, &mut total, "*return", true), Err(RunError::MissingToken)));
}

#[test]
fn commands_hand_back_outside_work() {
    let mut w = world();
    let mut total: i8 = 8;
    assert!(matches!(run(&mut w, &mut total, "*run other.pb", false), Ok(Step::Run(f)) if f == "other.pb"));
    assert!(matches!(run(&mut w, &mut total, "*prototype std", false), Ok(Step::Prototype(n)) if n == "std"));
    assert!(matches!(run(&mut w, &mut total, "$io: *import std", false), Ok(Step::Import { name, to_set }) if name == "std" && to_set == "$io"));
    assert!(matches!(run(&mut w, &mut total, "*teleport x", false), Err(RunError::UnknownCommand(c)) if c == "*teleport"));
    assert!(matches!(run(&mut w, &mut total, "*run a b c d", false), Err(RunError::InvalidSyntax)));
}

fn module_code() -> Dict<ModuleMethod> {
    let mut d = Dict::new();
    d.insert(
        "add".to_string(),
        ModuleMethod { args: vec!["->$a".to_string()], code: vec![toks("*return ->$a")] },
    );
    d.insert("on".to_string(), ModuleMethod { args: vec!["->$ev".to_string()], code: vec![] });
    d
}

#[test]
fn mod_loads_a_module() {
    let mut w = world();
    let mut total: i8 = 8;
    w.code.insert("m.mod.pb".to_string(), LeadCode::LeadModule(module_code()));
    w.code.insert("plain.pb".to_string(), LeadCode::Code(vec![]));
    assert!(matches!(run(&mut w, &mut total, "$m: *mod m.mod.pb", false), Ok(Step::Done)));
    assert_eq!(w.next_id, 2);
    match w.heap.data.get("$m") {
        Some(BufValue::RuntimeRaw(RawRTValue::RTCM(m))) => {
            assert_eq!(m.id, 1);
            assert!(m.methods.contains_key("add"));
        }
        _ => panic!("module missing"),
    }
    assert!(matches!(run(&mut w, &mut total, "$p: *mod plain.pb", false), Err(RunError::NotModuleCode)));
    assert!(matches!(run(&mut w, &mut total, "$q: *mod gone.pb", false), Err(RunError::ModuleNotFound(_))));
}

#[test]
fn module_calls_move_their_arguments() {
    let mut w = world();
    let mut total: i8 = 8;
    w.code.insert("m.mod.pb".to_string(), LeadCode::LeadModule(module_code()));
    run(&mut w, &mut total, "$m: *mod m.mod.pb", false).ok().unwrap();
    w.heap.set("$v".to_string(), BufValue::Int(5));
    let step = run(&mut w, &mut total, "$out: $m::add ->$v", false).ok().unwrap();
    let (target, args) = match step {
        Step::Call { target: CallTarget::Module { key, method, id }, args, to_set, val_type } => {
            assert_eq!(id, 1);
            assert_eq!(to_set, "$out");
            assert!(val_type);
            ((key, method), args)
        }
        _ => panic!("expected a module call"),
    };
    let call = begin_module_call(&mut w.heap, &target.0, &target.1, &args).ok().unwrap();
    assert!(w.heap.get("$v").is_none());
    assert!(is_int(call.frame.get("$a"), 5));
    let mut frame = Frame::for_call(call);
    let mut opt = Options::new();
    match run_line(&mut frame.0, &w.code, &w.pkgs, &mut w.next_id) {
        LineOutcome::Ran(Step::Return(v)) => opt.set_return_val(v),
        _ => panic!("expected a return"),
    }
    end_module_call(
        &mut w.heap,
        target.0.clone(),
        leadlang::runtime::ModuleCall { frame: frame.0.heap, code: vec![], id: frame.1, methods: frame.2 },
    );
    store_result(&mut w.heap, opt, true, "$out");
    assert!(is_int(w.heap.get("$out"), 5));
    assert!(matches!(w.heap.data.get("$m"), Some(BufValue::RuntimeRaw(RawRTValue::RTCM(_)))));
}

#[test]
fn module_is_restored_after_its_call() {
    let mut w = world();
    let mut total: i8 = 8;
    w.code.insert("m.mod.pb".to_string(), LeadCode::LeadModule(module_code()));
    run(&mut w, &mut total, "$m: *mod m.mod.pb", false).ok().unwrap();
    w.heap.set("$v".to_string(), BufValue::Int(7));
    let call = begin_module_call(&mut w.heap, "$m", "add", &toks("$m::add ->$v")).ok().unwrap();
    assert!(!w.heap.data.contains_key("$m"));
    assert_eq!(call.id, 1);
    let frame = Frame::for_call(call);
    end_module_call(
        &mut w.heap,
        "$m".to_string(),
        leadlang::runtime::ModuleCall { frame: frame.0.heap, code: vec![], id: frame.1, methods: frame.2 },
    );
    match w.heap.data.get("$m") {
        Some(BufValue::RuntimeRaw(RawRTValue::RTCM(m))) => {
            assert_eq!(m.id, 1);
            assert!(m.methods.contains_key("add"));
            assert!(m.methods.contains_key("on"));
            assert_eq!(m.methods.len(), 2);
        }
        _ => panic!("the module is not back under its key"),
    }
}

#[test]
fn module_call_errors() {
    let mut w = world();
    let mut total: i8 = 8;
    w.code.insert("m.mod.pb".to_string(), LeadCode::LeadModule(module_code()));
    run(&mut w, &mut total, "$m: *mod m.mod.pb", false).ok().unwrap();
    assert!(matches!(begin_module_call(&mut w.heap, "$m", "nope", &toks("$m::nope")), Err(ModuleCallError::UnknownMethod)));
    assert!(matches!(begin_module_call(&mut w.heap, "$m", "add", &toks("$m::add")), Err(ModuleCallError::ArgumentCount)));
    assert!(matches!(begin_module_call(&mut w.heap, "$zz", "add", &toks("$zz::add ->$v")), Err(ModuleCallError::NotAModule)));
    assert!(matches!(begin_module_call(&mut w.heap, "$m", "add", &toks("$m::add ->$missing")), Err(ModuleCallError::MissingArgument(t)) if t == "->$missing"));
}

#[test]
fn listen_takes_module_and_listener() {
    let mut w = world();
    let mut total: i8 = 8;
    w.code.insert("m.mod.pb".to_string(), LeadCode::LeadModule(module_code()));
    run(&mut w, &mut total, "$m: *mod m.mod.pb", false).ok().unwrap();
    w.heap.set("$l".to_string(), BufValue::Listener(42));
    match run(&mut w, &mut total, "*listen ->$m ->$l", false) {
        Ok(Step::Listen { module, listener }) => {
            assert_eq!(listener, 42);
            let call = begin_event_call(*module, BufValue::Int(8), defaults()).ok().unwrap();
            assert!(is_int(call.frame.get("$ev"), 8));
            let back: RTCreatedModule = end_event_call(call).unwrap();
            assert_eq!(back.id, 1);
            assert!(back.methods.contains_key("on"));
            assert!(back.methods.contains_key("add"));
        }
        _ => panic!("expected listen"),
    }
    assert!(matches!(run(&mut w, &mut total, "*listen ->$m ->$l", false), Err(RunError::ListenRuntime)));
    assert!(matches!(run(&mut w, &mut total, "*listen $m ->$l", false), Err(RunError::ListenFormat)));
    w.heap.set("$i".to_string(), BufValue::Int(1));
    assert!(matches!(run(&mut w, &mut total, "*listen ->$i ->$l", false), Err(RunError::ListenNotModule)));
}

fn str_prototypes() -> Arc<ExtendsInternal> {
    let mut internal = ExtendsInternal::new();
    let mut ext = Extends::new();
    ext.tables[3].push(("len".to_string(), 77));
    assert!(prototype_clash(&ext, &internal).is_none());
    set_into_extends(&ext, &mut internal);
    Arc::new(internal)
}

#[test]
fn prototypes_are_found_own_first() {
    let mut h = Heap::new(str_prototypes());
    let mut own = Extends::new();
    own.tables[3].push(("upper".to_string(), 5));
    assert!(prototype_clash(&own, &h.extends).is_none());
    set_into_extends(&own, &mut h.extends);
    let s = BufValue::Str("hi".to_string());
    assert_eq!(get_handle_runtime_ptr(&h, &s, "len"), Some(77));
    assert_eq!(get_handle_runtime_ptr(&h, &s, "upper"), Some(5));
    assert_eq!(get_handle_runtime_ptr(&h, &BufValue::Int(1), "len"), None);
}

#[test]
fn duplicate_prototypes_are_refused() {
    let mut internal = ExtendsInternal::new();
    let mut ext = Extends::new();
    ext.tables[0].push(("abs".to_string(), 1));
    ext.tables[0].push(("abs".to_string(), 2));
    assert!(matches!(prototype_clash(&ext, &internal), Some(k) if k == "abs"));
    let mut once = Extends::new();
    once.tables[0].push(("abs".to_string(), 1));
    set_into_extends(&once, &mut internal);
    let mut again = Extends::new();
    again.tables[0].push(("abs".to_string(), 3));
    assert!(matches!(prototype_clash(&again, &internal), Some(k) if k == "abs"));
    assert!(internal.tables[0].get("abs") == Some(&1));
}

#[test]
fn calls_resolve_against_the_heap() {
    let mut w = world();
    w.heap = Heap::new(str_prototypes());
    let mut total: i8 = 8;
    w.heap.set("$s".to_string(), BufValue::Str("abc".to_string()));
    match run(&mut w, &mut total, "$n: $s::len", false) {
        Ok(Step::Call { target: CallTarget::Prototype { key, method, handle }, .. }) => {
            assert_eq!((key.as_str(), method.as_str(), handle), ("$s", "len", 77));
        }
        _ => panic!("expected a prototype call"),
    }
    assert!(matches!(run(&mut w, &mut total, "$s::nope", false), Err(RunError::Unexpected(c)) if c == "$s::nope"));
    let mut pkg = Dict::new();
    pkg.insert("print".to_string(), 9u64);
    leadlang::runtime::set_runtime_val(&mut w.heap, "$io".to_string(), RawRTValue::PKG(pkg));
    assert_eq!(get_runtime_ptr(&w.heap, "$io::print").ok().unwrap(), Some(9));
    assert!(matches!(call_runtime_val(&w.heap, "$io::write"), Err(m) if m == "write"));
    assert!(matches!(run(&mut w, &mut total, "$io::write", false), Err(RunError::UnexpectedMethod(m)) if m == "write"));
}

#[test]
fn native_commands_come_from_packages() {
    let mut w = world();
    let mut total: i8 = 8;
    let pkg = ImplPackage::new().set_name("core").add_method("print".to_string(), "prints".to_string(), 11);
    w.pkgs.import(&pkg);
    match run(&mut w, &mut total, "$r: print $x", false) {
        Ok(Step::Native { pkg_name, handle, args, to_set, val_type }) => {
            assert_eq!(pkg_name, "core");
            assert_eq!(handle, 11);
            assert_eq!(args, vec!["print", "$x"]);
            assert_eq!(to_set, "$r");
            assert!(val_type);
        }
        _ => panic!("expected a native call"),
    }
    assert_eq!(total, 8);
    assert!(matches!(run(&mut w, &mut total, "shout", false), Err(RunError::Unexpected(c)) if c == "shout"));
}

#[test]
fn text_lines_skip_bytes_after_conditions() {
    let mut w = world();
    w.heap.set("$c".to_string(), BufValue::Bool(true));
    let r = tok_parse("*if$c $x: @1", false, &mut w.heap, &mut w.line, &mut w.markers, &w.code, &w.pkgs, &mut w.next_id);
    assert!(matches!(r, Ok(Step::Done)));
    assert!(matches!(w.heap.get("$x"), Some(BufValue::Bool(true))));
    let r = tok_parse("*if$c", false, &mut w.heap, &mut w.line, &mut w.markers, &w.code, &w.pkgs, &mut w.next_id);
    assert!(matches!(r, Err(ParseError::BadSlice)));
    let r = tok_parse("", false, &mut w.heap, &mut w.line, &mut w.markers, &w.code, &w.pkgs, &mut w.next_id);
    assert!(matches!(r, Ok(Step::Done)));
    let r = tok_parse("*else$c @1", false, &mut w.heap, &mut w.line, &mut w.markers, &w.code, &w.pkgs, &mut w.next_id);
    assert!(matches!(r, Ok(Step::Done)));
}

#[test]
fn frames_run_line_by_line() {
    let w = world();
    let mut code = Dict::new();
    code.insert(":entry".to_string(), LeadCode::Code(vec![toks("$a: @1"), toks("# skip"), toks("$b: @0")]));
    code.insert("lib.mod.pb".to_string(), LeadCode::LeadModule(Dict::new()));
    assert!(matches!(code_lines(&code, "nope"), Err(InterpretError::NoSuchFile)));
    assert!(matches!(code_lines(&code, "lib.mod.pb"), Err(InterpretError::NotCode)));
    let lines = code_lines(&code, ":entry").ok().unwrap();
    let mut frame = Frame::new(lines, defaults());
    let mut next_id = 1u64;
    let mut yields = 0;
    loop {
        match run_line(&mut frame, &code, &w.pkgs, &mut next_id) {
            LineOutcome::Finished => break,
            LineOutcome::Ran(Step::Done) => {}
            _ => panic!("unexpected outcome"),
        }
        if end_line(&mut frame) {
            yields += 1;
        }
    }
    assert_eq!(frame.line, 3);
    assert_eq!(yields, 0);
    assert_eq!(frame.total, 6);
    assert!(matches!(frame.heap.get("$a"), Some(BufValue::Bool(true))));
    assert!(matches!(frame.heap.get("$b"), Some(BufValue::Bool(false))));
}

#[test]
fn frames_yield_when_work_runs_out() {
    let mut frame = Frame::new(vec![], defaults());
    frame.total = 0;
    assert!(end_line(&mut frame));
    assert_eq!(frame.total, 8);
    assert!(!end_line(&mut frame));
}

#[test]
fn results_are_stored() {
    let mut h = Heap::new(defaults());
    let mut opt = Options::new();
    opt.set_r_runtime(12);
    store_result(&mut h, opt, true, "$rt");
    assert!(matches!(h.data.get("$rt"), Some(BufValue::RuntimeRaw(RawRTValue::RT(12)))));
    let mut opt = Options::new();
    opt.set_return_val(BufValue::Int(4));
    store_result(&mut h, opt, false, "$no");
    assert!(h.get("$no").is_none());
    let mut opt = Options::new();
    opt.set_r_runtime(3);
    assert_eq!(opt.rem_r_runtime(), Some(3));
    assert_eq!(opt.rem_r_runtime(), None);
}

#[test]
fn imports_become_one_package() {
    let mut h = Heap::new(defaults());
    finish_import(&mut h, "$io", &vec![vec![("print".to_string(), 1), ("read".to_string(), 2)], vec![("print".to_string(), 3)]]);
    match h.data.get("$io") {
        Some(BufValue::RuntimeRaw(RawRTValue::PKG(p))) => {
            assert_eq!(p.get("print"), Some(&3));
            assert_eq!(p.get("read"), Some(&2));
        }
        _ => panic!("package missing"),
    }
}

#[test]
fn wrapper_limits_access_to_the_line() {
    let mut h = Heap::new(defaults());
    h.set("$a".to_string(), BufValue::Int(1));
    h.set("$b".to_string(), BufValue::Int(2));
    let w = HeapWrapper { args: vec!["$a".to_string(), "->&$a".to_string(), "->$b".to_string()], pkg_name: "p".to_string(), allow_full: false };
    assert!(is_int(w.get(&h, "$a"), 1));
    assert!(w.get(&h, "$b").is_none());
    *w.get_mut(&mut h, 1).unwrap() = BufValue::Int(6);
    assert!(is_int(h.get("$a"), 6));
    assert!(matches!(w.remove(&mut h, 2), Some(Some(BufValue::Int(2)))));
    assert!(w.remove(&mut h, 9).is_none());
    assert_eq!(w.upgrade(), Some("p".to_string()));
    let full = HeapWrapper { args: vec![], pkg_name: "q".to_string(), allow_full: true };
    assert_eq!(full.upgrade(), None);
}

#[test]
fn ten_slow_readings_mark_a_callee_blocking() {
    let mut helper = AsyncHeapHelper::from(Heap::new(defaults()));
    for _ in 0..9 {
        helper.report(7, 300);
    }
    assert_eq!(helper.is_blocking(7), None);
    helper.report(7, 300);
    assert_eq!(helper.is_blocking(7), Some(true));
    for _ in 0..10 {
        helper.report(8, 100);
    }
    assert_eq!(helper.is_blocking(8), Some(false));
    for _ in 0..10 {
        helper.report(9, 240);
    }
    assert_eq!(helper.is_blocking(9), Some(true));
    for _ in 0..10 {
        helper.report(10, 239);
    }
    assert_eq!(helper.is_blocking(10), Some(false));
    assert!(!helper.timings.contains_key(&10));
    helper.report(11, u128::MAX / 10);
    assert!(helper.timings.contains_key(&11));
}

#[test]
fn application_lists_commands() {
    let mut app = Application::new(Dict::new());
    app.add_pkg_raw(b"std", &vec![("print".to_string(), 1)]);
    app.add_file("x.pb".to_string(), "a b\n# c\n");
    let cmds = app.list_cmds();
    assert_eq!(cmds, vec![("print".to_string(), "std".to_string())]);
    assert!(matches!(app.code.get("x.pb"), Some(LeadCode::Code(l)) if l.len() == 1));
}

use vstd::prelude::*;
use std::sync::Arc;
use crate::dict::Dict;
use crate::extends::ExtendsInternal;
use crate::heap::{get_spec, remove_rel, set_rel, Heap};
use crate::literal::{mkbuf, mkbuf_spec, Literal, LiteralError, LiteralFault, LiteralView};
use crate::packages::LanguagePackages;
use crate::parser::{clone_methods, methods_view, ModuleMethod};
use crate::runtime::{call_runtime_val, resolve_spec, set_runtime_val, CallTarget, TargetView};
use crate::structure::LeadCode;
use crate::structure::space;
use crate::text::{
    byte_skip, ends_with, first_ascii, first_ascii_char, has_prefix, has_suffix, lemma_byte_skip_shorter,
    lemma_split_nonempty, skip_bytes, skip_chars, split_pat, split_str, starts_with, str_eq,
    utf8_bytes, utf8_count, views,
};
use crate::value::{BufValue, RawRTValue, RTCreatedModule};

verus! {

/// `:`
pub open spec fn colon() -> Seq<char> {
    seq![':']
}

/// `$`
pub open spec fn dollar_sign() -> Seq<char> {
    seq!['$']
}

/// `*if$`
pub open spec fn if_mark() -> Seq<char> {
    seq!['*', 'i', 'f', '$']
}

/// `*else$`
pub open spec fn else_mark() -> Seq<char> {
    seq!['*', 'e', 'l', 's', 'e', '$']
}

/// What a line of tokens asks for, once its conditions are weighed.
pub enum LineState {
    /// The line is a comment, or a condition turned it off.
    Ignore,
    /// The tokens from position `from` on are to run; `val_type` says whether
    /// the line stores its result, under `to_set`.
    Run { from: usize, to_set: String, val_type: bool },
}

/// `LineState` with its target as characters.
pub enum LineStateView {
    Ignore,
    Run { from: int, to_set: Seq<char>, val_type: bool },
}

impl LineState {
    pub open spec fn view(self) -> LineStateView {
        match self {
            LineState::Ignore => LineStateView::Ignore,
            LineState::Run { from, to_set, val_type } => LineStateView::Run {
                from: from as int,
                to_set: to_set@,
                val_type,
            },
        }
    }
}

/// Why a line cannot be weighed; each one stops the program.
pub enum StateError {
    /// No token where a caller belongs.
    EmptyLine,
    /// A target `$name:` with nothing after it.
    MissingToken,
    /// A caller that is empty or begins with a character of more than one
    /// byte, which cannot be cut after its first byte.
    BadHead,
    /// A condition on a variable that is not set.
    MissingValue(String),
    /// A condition on a variable that is not a boolean.
    NotBool(String),
    /// The work counter went below its range.
    Overflow,
}

/// `StateError` with its names as characters.
pub enum StateFault {
    EmptyLine,
    MissingToken,
    BadHead,
    MissingValue(Seq<char>),
    NotBool(Seq<char>),
    Overflow,
}

impl StateError {
    pub open spec fn view(self) -> StateFault {
        match self {
            StateError::EmptyLine => StateFault::EmptyLine,
            StateError::MissingToken => StateFault::MissingToken,
            StateError::BadHead => StateFault::BadHead,
            StateError::MissingValue(n) => StateFault::MissingValue(n@),
            StateError::NotBool(n) => StateFault::NotBool(n@),
            StateError::Overflow => StateFault::Overflow,
        }
    }
}

/// The token `t` names a target, as in `$name:`.
pub open spec fn is_target(t: Seq<char>) -> bool {
    has_suffix(t, colon()) && has_prefix(t, dollar_sign())
}

/// Weighs the line `args` from token `off` on, with the work counter at `c`:
/// the outcome, and the counter afterwards. Each condition `*if$name` or
/// `*else$name` that is read costs one unit of work; when it holds, the rest
/// of the line is weighed again as a line of its own.
pub open spec fn state_spec(args: Seq<Seq<char>>, heap: Heap, off: nat, c: int) -> (
    Result<LineStateView, StateFault>,
    int,
)
    decreases args.len() - off,
{
    if off >= args.len() {
        (Err(StateFault::EmptyLine), c)
    } else {
        let first = args[off as int];
        let vt = is_target(first);
        let start: nat = if vt {
            1
        } else {
            0
        };
        if off + start >= args.len() {
            (Err(StateFault::MissingToken), c)
        } else {
            let caller = args[(off + start) as int];
            match first_ascii(caller) {
                None => (Err(StateFault::BadHead), c),
                Some(h) => {
                    if h == '#' {
                        (Ok(LineStateView::Ignore), c)
                    } else if has_prefix(caller, if_mark()) || has_prefix(caller, else_mark()) {
                        let is_if = has_prefix(caller, if_mark());
                        let name = if is_if {
                            caller.skip(3)
                        } else {
                            caller.skip(5)
                        };
                        match get_spec(heap, name) {
                            None => (Err(StateFault::MissingValue(name)), c),
                            Some(BufValue::Bool(x)) => {
                                if c - 1 < -128 {
                                    (Err(StateFault::Overflow), c)
                                } else if (is_if && x) || (!is_if && !x) {
                                    state_spec(args, heap, off + start + 1, c - 1)
                                } else {
                                    (Ok(LineStateView::Ignore), c - 1)
                                }
                            },
                            Some(_) => (Err(StateFault::NotBool(name)), c),
                        }
                    } else {
                        (
                            Ok(
                                LineStateView::Run {
                                    from: (off + start) as int,
                                    to_set: if vt {
                                        first.drop_last()
                                    } else {
                                        Seq::empty()
                                    },
                                    val_type: vt,
                                },
                            ),
                            c,
                        )
                    }
                },
            }
        }
    }
}

fn check_from(complexity: &mut i8, args: &Vec<String>, off: usize, heap: &Heap) -> (r: Result<
    LineState,
    StateError,
>)
    ensures
        (r matches Ok(LineState::Run { from, .. }) ==> from < args@.len()),
        ({
            let (res, c) = state_spec(views(args@), *heap, off as nat, *old(complexity) as int);
            &&& *final(complexity) as int == c
            &&& match res {
                Ok(s) => r matches Ok(x) && x.view() == s,
                Err(f) => r matches Err(e) && e.view() == f,
            }
        }),
    decreases args@.len() - off,
{
    let ghost av = views(args@);
    if off >= args.len() {
        return Err(StateError::EmptyLine);
    }
    let first = args[off].as_str();
    let colon_lit = ":";
    let dollar_lit = "$";
    proof {
        reveal_strlit(":");
        reveal_strlit("$");
        assert(colon_lit@ =~= colon());
        assert(dollar_lit@ =~= dollar_sign());
        assert(av[off as int] == first@);
    }
    let vt = ends_with(first, colon_lit) && starts_with(first, dollar_lit);
    let start: usize = if vt {
        1
    } else {
        0
    };
    if start >= args.len() - off {
        return Err(StateError::MissingToken);
    }
    let caller = args[off + start].as_str();
    proof {
        assert(av[off + start] == caller@);
    }
    let head = match first_ascii_char(caller) {
        None => return Err(StateError::BadHead),
        Some(h) => h,
    };
    if head == '#' {
        return Ok(LineState::Ignore);
    }
    let if_lit = "*if$";
    let else_lit = "*else$";
    proof {
        reveal_strlit("*if$");
        reveal_strlit("*else$");
        assert(if_lit@ =~= if_mark());
        assert(else_lit@ =~= else_mark());
    }
    let is_if = starts_with(caller, if_lit);
    let is_else = starts_with(caller, else_lit);
    if is_if || is_else {
        let name = if is_if {
            skip_chars(caller, 3)
        } else {
            skip_chars(caller, 5)
        };
        let x = match heap.get(name) {
            None => return Err(StateError::MissingValue(String::from_str(name))),
            Some(BufValue::Bool(x)) => *x,
            Some(_) => return Err(StateError::NotBool(String::from_str(name))),
        };
        if *complexity == -128 {
            return Err(StateError::Overflow);
        }
        *complexity = *complexity - 1;
        if (is_if && x) || (!is_if && !x) {
            return check_from(complexity, args, off + start + 1, heap);
        }
        return Ok(LineState::Ignore);
    }
    let to_set = if vt {
        let n = first.unicode_len();
        proof {
            assert(first@.subrange(0, n - 1) =~= first@.drop_last());
        }
        String::from_str(first.substring_char(0, n - 1))
    } else {
        proof {
            reveal_strlit("");
        }
        String::from_str("")
    };
    proof {
        assert(to_set@ =~= (if vt {
            first@.drop_last()
        } else {
            Seq::<char>::empty()
        }));
    }
    Ok(LineState::Run { from: off + start, to_set, val_type: vt })
}

/// Weighs a line of tokens: whether it is to run, from which token, and
/// where its result goes. `complexity` counts down the work done.
pub fn check_state(complexity: &mut i8, args: &Vec<String>, heap: &Heap) -> (r: Result<
    LineState,
    StateError,
>)
    ensures
        (r matches Ok(LineState::Run { from, .. }) ==> from < args@.len()),
        ({
            let (res, c) = state_spec(views(args@), *heap, 0, *old(complexity) as int);
            &&& *final(complexity) as int == c
            &&& match res {
                Ok(s) => r matches Ok(x) && x.view() == s,
                Err(f) => r matches Err(e) && e.view() == f,
            }
        }),
{
    check_from(complexity, args, 0, heap)
}

/// What the interpreter is to do next for a line that ran.
pub enum Step {
    /// Nothing more.
    Done,
    /// `*return`: the value that the running module method hands back.
    Return(BufValue),
    /// A float literal, still to be read from its text, to store under `to_set`.
    Float { to_set: String, text: String },
    /// `*run`: interpret the named file.
    Run(String),
    /// `*listen`: run the module's `on` method for each event that arrives
    /// on the listener with this handle.
    Listen { module: Box<RTCreatedModule>, listener: u64 },
    /// `*prototype`: install the prototypes of the packages that the name
    /// resolves to.
    Prototype(String),
    /// `*import`: import the packages that the name resolves to, under `to_set`.
    Import { name: String, to_set: String },
    /// `$name::method`: make the call, with the line's tokens from the caller on.
    Call { target: CallTarget, args: Vec<String>, to_set: String, val_type: bool },
    /// A command of a loaded package: call its callback, with the line's
    /// tokens from the command on.
    Native { pkg_name: String, handle: u64, args: Vec<String>, to_set: String, val_type: bool },
}

/// `Step` with its texts as characters.
pub enum StepView {
    Done,
    Return(BufValue),
    Float { to_set: Seq<char>, text: Seq<char> },
    Run(Seq<char>),
    Listen { module: RTCreatedModule, listener: u64 },
    Prototype(Seq<char>),
    Import { name: Seq<char>, to_set: Seq<char> },
    Call { target: TargetView, args: Seq<Seq<char>>, to_set: Seq<char>, val_type: bool },
    Native { pkg_name: Seq<char>, handle: u64, args: Seq<Seq<char>>, to_set: Seq<char>, val_type: bool },
}

impl Step {
    pub open spec fn view(self) -> StepView {
        match self {
            Step::Done => StepView::Done,
            Step::Return(v) => StepView::Return(v),
            Step::Float { to_set, text } => StepView::Float { to_set: to_set@, text: text@ },
            Step::Run(f) => StepView::Run(f@),
            Step::Listen { module, listener } => StepView::Listen { module: *module, listener },
            Step::Prototype(n) => StepView::Prototype(n@),
            Step::Import { name, to_set } => StepView::Import { name: name@, to_set: to_set@ },
            Step::Call { target, args, to_set, val_type } => StepView::Call {
                target: target.view(),
                args: views(args@),
                to_set: to_set@,
                val_type,
            },
            Step::Native { pkg_name, handle, args, to_set, val_type } => StepView::Native {
                pkg_name: pkg_name@,
                handle,
                args: views(args@),
                to_set: to_set@,
                val_type,
            },
        }
    }
}

/// Why a line cannot run; each one stops the program.
pub enum RunError {
    /// The work counter went below its range.
    Overflow,
    /// `*return` outside a module method.
    ReturnOutsideModule,
    /// A token that the command needs is missing.
    MissingToken,
    /// `*return` of a variable that cannot be moved out.
    CannotFindVariable(String),
    /// A caller that begins with a character of more than one byte.
    BadHead,
    /// A literal too short, or with a header of more than one byte, to be split.
    BadLiteral,
    /// A literal that does not read.
    Literal(LiteralError),
    /// A command with the wrong number of tokens.
    InvalidSyntax,
    /// `*listen` on a module token that is not a move.
    ListenFormat,
    /// `*listen` on a module variable that is not set.
    ListenRuntime,
    /// `*listen` on a variable that holds no runtime value.
    ListenNotModule,
    /// `*listen` on a runtime value that is not a Lead module.
    ListenNotLeadModule,
    /// `*listen` on a listener token that cannot be moved out.
    ListenNoListener,
    /// `*listen` on a variable that holds no listener.
    ListenNotListener,
    /// `*goto` to a marker that was never set.
    NoMarker(String),
    /// `*mod` of a file that the program does not have.
    ModuleNotFound(String),
    /// `*mod` of a file that holds code, not a module.
    NotModuleCode,
    /// A `*` command that does not exist.
    UnknownCommand(String),
    /// A caller that names nothing.
    Unexpected(String),
    /// A method that the imported package lacks.
    UnexpectedMethod(String),
}

/// `RunError` with its texts as characters.
pub enum RunFault {
    Overflow,
    ReturnOutsideModule,
    MissingToken,
    CannotFindVariable(Seq<char>),
    BadHead,
    BadLiteral,
    Literal(LiteralFault),
    InvalidSyntax,
    ListenFormat,
    ListenRuntime,
    ListenNotModule,
    ListenNotLeadModule,
    ListenNoListener,
    ListenNotListener,
    NoMarker(Seq<char>),
    ModuleNotFound(Seq<char>),
    NotModuleCode,
    UnknownCommand(Seq<char>),
    Unexpected(Seq<char>),
    UnexpectedMethod(Seq<char>),
}

impl RunError {
    pub open spec fn view(self) -> RunFault {
        match self {
            RunError::Overflow => RunFault::Overflow,
            RunError::ReturnOutsideModule => RunFault::ReturnOutsideModule,
            RunError::MissingToken => RunFault::MissingToken,
            RunError::CannotFindVariable(v) => RunFault::CannotFindVariable(v@),
            RunError::BadHead => RunFault::BadHead,
            RunError::BadLiteral => RunFault::BadLiteral,
            RunError::Literal(e) => RunFault::Literal(e.view()),
            RunError::InvalidSyntax => RunFault::InvalidSyntax,
            RunError::ListenFormat => RunFault::ListenFormat,
            RunError::ListenRuntime => RunFault::ListenRuntime,
            RunError::ListenNotModule => RunFault::ListenNotModule,
            RunError::ListenNotLeadModule => RunFault::ListenNotLeadModule,
            RunError::ListenNoListener => RunFault::ListenNoListener,
            RunError::ListenNotListener => RunFault::ListenNotListener,
            RunError::NoMarker(v) => RunFault::NoMarker(v@),
            RunError::ModuleNotFound(v) => RunFault::ModuleNotFound(v@),
            RunError::NotModuleCode => RunFault::NotModuleCode,
            RunError::UnknownCommand(v) => RunFault::UnknownCommand(v@),
            RunError::Unexpected(v) => RunFault::Unexpected(v@),
            RunError::UnexpectedMethod(v) => RunFault::UnexpectedMethod(v@),
        }
    }
}

/// The outcome of a line as characters.
pub open spec fn outcome_view(r: Result<Step, RunError>) -> Result<StepView, RunFault> {
    match r {
        Ok(s) => Ok(s.view()),
        Err(e) => Err(e.view()),
    }
}

pub open spec fn return_word() -> Seq<char> {
    seq!['*', 'r', 'e', 't', 'u', 'r', 'n']
}

pub open spec fn listen_word() -> Seq<char> {
    seq!['*', 'l', 'i', 's', 't', 'e', 'n']
}

pub open spec fn run_word() -> Seq<char> {
    seq!['*', 'r', 'u', 'n']
}

pub open spec fn mark_word() -> Seq<char> {
    seq!['*', 'm', 'a', 'r', 'k']
}

pub open spec fn goto_word() -> Seq<char> {
    seq!['*', 'g', 'o', 't', 'o']
}

pub open spec fn prototype_word() -> Seq<char> {
    seq!['*', 'p', 'r', 'o', 't', 'o', 't', 'y', 'p', 'e']
}

pub open spec fn import_word() -> Seq<char> {
    seq!['*', 'i', 'm', 'p', 'o', 'r', 't']
}

pub open spec fn mod_word() -> Seq<char> {
    seq!['*', 'm', 'o', 'd']
}

/// `*listen module listener`: moves the Lead module out of the variable
/// `mtok`, then the listener out of `ftok`, from `h0` to `h1`.
pub open spec fn listen_rel(
    h0: Heap,
    mtok: Seq<char>,
    ftok: Seq<char>,
    h1: Heap,
    r: Result<StepView, RunFault>,
) -> bool {
    exists|hm: Heap, g1: Option<Option<BufValue>>|
        #[trigger] remove_rel(h0, mtok, hm, g1) && match g1 {
            None => h1 == hm && r == Err::<StepView, RunFault>(RunFault::ListenFormat),
            Some(None) => h1 == hm && r == Err::<StepView, RunFault>(RunFault::ListenRuntime),
            Some(Some(BufValue::RuntimeRaw(RawRTValue::RTCM(m)))) => exists|
                g2: Option<Option<BufValue>>,
            |
                #[trigger] remove_rel(hm, ftok, h1, g2) && match g2 {
                    Some(Some(BufValue::Listener(l))) => r == Ok::<StepView, RunFault>(
                        StepView::Listen { module: *m, listener: l },
                    ),
                    Some(Some(_)) => r == Err::<StepView, RunFault>(RunFault::ListenNotListener),
                    _ => r == Err::<StepView, RunFault>(RunFault::ListenNoListener),
                },
            Some(Some(BufValue::RuntimeRaw(_))) => h1 == hm && r == Err::<StepView, RunFault>(
                RunFault::ListenNotLeadModule,
            ),
            Some(Some(_)) => h1 == hm && r == Err::<StepView, RunFault>(RunFault::ListenNotModule),
        }
}

/// A freshly loaded module: identity `id`, an empty heap of its own with the
/// defaults `def`, and the methods `ms`.
pub open spec fn fresh_module(
    m: RTCreatedModule,
    id: u64,
    def: Arc<ExtendsInternal>,
    ms: Dict<ModuleMethod>,
) -> bool {
    &&& m.id == id
    &&& m.heap.data.view() == Map::<Seq<char>, BufValue>::empty()
    &&& m.heap.this is None
    &&& m.heap.def_extends == def
    &&& m.heap.extends.view() == ExtendsInternal::new_view()
    &&& m.heap.wf()
    &&& methods_view(m.methods) == methods_view(ms)
}

/// The identity after `id`, wrapping around.
pub open spec fn next_id_after(id: u64) -> u64 {
    if id == u64::MAX {
        0
    } else {
        (id + 1) as u64
    }
}

/// A `*` command `a` run with the line number `line0`, heap `h0`, markers
/// `m0` and next module identity `id0`, which become `line1`, `h1`, `m1`,
/// `id1`, with the outcome `r`.
pub open spec fn insert_rel(
    a: Seq<Seq<char>>,
    to_set: Seq<char>,
    code: Map<Seq<char>, LeadCode>,
    line0: usize,
    h0: Heap,
    m0: Map<Seq<char>, usize>,
    id0: u64,
    line1: usize,
    h1: Heap,
    m1: Map<Seq<char>, usize>,
    id1: u64,
    r: Result<StepView, RunFault>,
) -> bool {
    let same = line1 == line0 && m1 == m0 && id1 == id0;
    if a.len() == 3 {
        if a[0] == listen_word() {
            same && listen_rel(h0, a[1], a[2], h1, r)
        } else {
            same && h1 == h0 && r == Err::<StepView, RunFault>(RunFault::InvalidSyntax)
        }
    } else if a.len() != 2 {
        same && h1 == h0 && r == Err::<StepView, RunFault>(RunFault::InvalidSyntax)
    } else {
        let cmd = a[0];
        let v = a[1];
        if cmd == run_word() {
            same && h1 == h0 && r == Ok::<StepView, RunFault>(StepView::Run(v))
        } else if cmd == mark_word() {
            &&& line1 == line0
            &&& id1 == id0
            &&& h1 == h0
            &&& m1 == m0.insert(v, line0)
            &&& r == Ok::<StepView, RunFault>(StepView::Done)
        } else if cmd == goto_word() {
            &&& m1 == m0
            &&& id1 == id0
            &&& h1 == h0
            &&& if m0.contains_key(v) {
                line1 == m0[v] && r == Ok::<StepView, RunFault>(StepView::Done)
            } else {
                line1 == line0 && r == Err::<StepView, RunFault>(RunFault::NoMarker(v))
            }
        } else if cmd == prototype_word() {
            same && h1 == h0 && r == Ok::<StepView, RunFault>(StepView::Prototype(v))
        } else if cmd == import_word() {
            same && h1 == h0 && r == Ok::<StepView, RunFault>(StepView::Import { name: v, to_set })
        } else if cmd == mod_word() {
            &&& line1 == line0
            &&& m1 == m0
            &&& if !code.contains_key(v) {
                id1 == id0 && h1 == h0 && r == Err::<StepView, RunFault>(RunFault::ModuleNotFound(v))
            } else {
                match code[v] {
                    LeadCode::Code(_) => id1 == id0 && h1 == h0 && r == Err::<StepView, RunFault>(
                        RunFault::NotModuleCode,
                    ),
                    LeadCode::LeadModule(ms) => {
                        &&& id1 == next_id_after(id0)
                        &&& r == Ok::<StepView, RunFault>(StepView::Done)
                        &&& h1.this == h0.this
                        &&& h1.extends == h0.extends
                        &&& h1.def_extends == h0.def_extends
                        &&& h1.data.view() == h0.data.view().insert(to_set, h1.data.view()[to_set])
                        &&& h1.data.view()[to_set] matches BufValue::RuntimeRaw(RawRTValue::RTCM(mm))
                            && fresh_module(*mm, id0, h0.def_extends, ms)
                    },
                }
            }
        } else {
            same && h1 == h0 && r == Err::<StepView, RunFault>(RunFault::UnknownCommand(cmd))
        }
    }
}

/// A Lead module made from its methods, with an empty heap of its own whose
/// defaults are `entry`.
pub fn load_module(entry: Arc<ExtendsInternal>, methods: &Dict<ModuleMethod>, id: u64) -> (r:
    RTCreatedModule)
    requires
        entry.wf(),
    ensures
        fresh_module(r, id, entry, *methods),
{
    RTCreatedModule { id, heap: Heap::new(entry), methods: clone_methods(methods) }
}

fn listen_parts(heap: &mut Heap, mtok: &str, ftok: &str) -> (r: Result<Step, RunError>)
    ensures
        final(heap).extends == old(heap).extends,
        final(heap).def_extends == old(heap).def_extends,
        listen_rel(*old(heap), mtok@, ftok@, *final(heap), outcome_view(r)),
{
    let ghost h0 = *heap;
    let g1 = heap.remove(mtok);
    let ghost hm = *heap;
    let ghost gg1 = g1;
    proof {
        assert(remove_rel(h0, mtok@, hm, gg1));
    }
    let module = match g1 {
        None => return Err(RunError::ListenFormat),
        Some(None) => return Err(RunError::ListenRuntime),
        Some(Some(BufValue::RuntimeRaw(RawRTValue::RTCM(m)))) => m,
        Some(Some(BufValue::RuntimeRaw(_))) => return Err(RunError::ListenNotLeadModule),
        Some(Some(_)) => return Err(RunError::ListenNotModule),
    };
    let g2 = heap.remove(ftok);
    let ghost gg2 = g2;
    proof {
        assert(remove_rel(hm, ftok@, *heap, gg2));
    }
    match g2 {
        Some(Some(BufValue::Listener(l))) => Ok(Step::Listen { module, listener: l }),
        Some(Some(_)) => Err(RunError::ListenNotListener),
        _ => Err(RunError::ListenNoListener),
    }
}

/// A `*` command of the right shape: `*listen` with two tokens, or one of
/// `*run`, `*mark`, `*goto`, `*prototype`, `*import`, `*mod` with one.
/// Any other command stops the program.
pub open spec fn star_syntax_ok(a: Seq<Seq<char>>) -> bool {
    ||| a.len() == 3 && a[0] == listen_word()
    ||| a.len() == 2 && (a[0] == run_word() || a[0] == mark_word() || a[0] == goto_word()
        || a[0] == prototype_word() || a[0] == import_word() || a[0] == mod_word())
}

/// Why the `*` command `args[from..]` stops the program: a wrong number of
/// tokens, or a command that does not exist; `None` when it has the right
/// shape.
pub fn star_fault(args: &Vec<String>, from: usize) -> (r: Option<RunError>)
    requires
        from < args@.len(),
    ensures
        ({
            let a = views(args@).skip(from as int);
            match r {
                None => star_syntax_ok(a),
                Some(e) => !star_syntax_ok(a) && e.view() == if a.len() == 2 {
                    RunFault::UnknownCommand(a[0])
                } else {
                    RunFault::InvalidSyntax
                },
            }
        }),
{
    let ghost a = views(args@).skip(from as int);
    let n = args.len() - from;
    let cmd = args[from].as_str();
    proof {
        assert(a[0] == cmd@);
    }
    let listen = "*listen";
    let run = "*run";
    let mark = "*mark";
    let goto = "*goto";
    let prototype = "*prototype";
    let import = "*import";
    let module = "*mod";
    proof {
        reveal_strlit("*listen");
        reveal_strlit("*run");
        reveal_strlit("*mark");
        reveal_strlit("*goto");
        reveal_strlit("*prototype");
        reveal_strlit("*import");
        reveal_strlit("*mod");
        assert(listen@ =~= listen_word());
        assert(run@ =~= run_word());
        assert(mark@ =~= mark_word());
        assert(goto@ =~= goto_word());
        assert(prototype@ =~= prototype_word());
        assert(import@ =~= import_word());
        assert(module@ =~= mod_word());
    }
    if n == 3 {
        if str_eq(cmd, listen) {
            None
        } else {
            Some(RunError::InvalidSyntax)
        }
    } else if n != 2 {
        Some(RunError::InvalidSyntax)
    } else if str_eq(cmd, run) || str_eq(cmd, mark) || str_eq(cmd, goto) || str_eq(cmd, prototype) || str_eq(
        cmd,
        import,
    ) || str_eq(cmd, module) {
        None
    } else {
        Some(RunError::UnknownCommand(String::from_str(cmd)))
    }
}

/// Runs a `*` command, the tokens `args[from..]`: `*mark` and `*goto` move
/// through the markers of the file, `*mod` loads a module into `to_set`,
/// `*listen` takes a module and a listener out of the heap; `*run`,
/// `*prototype` and `*import` are handed back to the caller. A command of
/// another shape stops the program, so it is left out (`star_fault` tells).
pub fn insert_into_application(
    args: &Vec<String>,
    from: usize,
    line: &mut usize,
    to_set: &str,
    heap: &mut Heap,
    markers: &mut Dict<usize>,
    code: &Dict<LeadCode>,
    next_id: &mut u64,
) -> (r: Result<Step, RunError>)
    requires
        from <= args@.len(),
        old(heap).wf(),
        star_syntax_ok(views(args@).skip(from as int)),
    ensures
        final(heap).wf(),
        insert_rel(
            views(args@).skip(from as int),
            to_set@,
            code.view(),
            *old(line),
            *old(heap),
            old(markers).view(),
            *old(next_id),
            *final(line),
            *final(heap),
            final(markers).view(),
            *final(next_id),
            outcome_view(r),
        ),
{
    let ghost a = views(args@).skip(from as int);
    let n = args.len() - from;
    let listen = "*listen";
    proof {
        reveal_strlit("*listen");
        assert(listen@ =~= listen_word());
    }
    if n == 3 {
        proof {
            assert(a[0] == args@[from as int]@);
            assert(a[1] == args@[from + 1]@);
            assert(a[2] == args@[from + 2]@);
        }
        if str_eq(args[from].as_str(), listen) {
            return listen_parts(heap, args[from + 1].as_str(), args[from + 2].as_str());
        }
        return Err(RunError::InvalidSyntax);
    }
    if n != 2 {
        return Err(RunError::InvalidSyntax);
    }
    let cmd = args[from].as_str();
    let v = args[from + 1].as_str();
    proof {
        assert(a[0] == cmd@);
        assert(a[1] == v@);
    }
    let run = "*run";
    let mark = "*mark";
    let goto = "*goto";
    let prototype = "*prototype";
    let import = "*import";
    let module = "*mod";
    proof {
        reveal_strlit("*run");
        reveal_strlit("*mark");
        reveal_strlit("*goto");
        reveal_strlit("*prototype");
        reveal_strlit("*import");
        reveal_strlit("*mod");
        assert(run@ =~= run_word());
        assert(mark@ =~= mark_word());
        assert(goto@ =~= goto_word());
        assert(prototype@ =~= prototype_word());
        assert(import@ =~= import_word());
        assert(module@ =~= mod_word());
    }
    if str_eq(cmd, run) {
        Ok(Step::Run(String::from_str(v)))
    } else if str_eq(cmd, mark) {
        markers.insert(String::from_str(v), *line);
        Ok(Step::Done)
    } else if str_eq(cmd, goto) {
        match markers.get(v) {
            Some(l) => {
                *line = *l;
                Ok(Step::Done)
            },
            None => Err(RunError::NoMarker(String::from_str(v))),
        }
    } else if str_eq(cmd, prototype) {
        Ok(Step::Prototype(String::from_str(v)))
    } else if str_eq(cmd, import) {
        Ok(Step::Import { name: String::from_str(v), to_set: String::from_str(to_set) })
    } else if str_eq(cmd, module) {
        match code.get(v) {
            None => Err(RunError::ModuleNotFound(String::from_str(v))),
            Some(LeadCode::Code(_)) => Err(RunError::NotModuleCode),
            Some(LeadCode::LeadModule(ms)) => {
                let id = *next_id;
                let m = load_module(heap.def_extends.clone(), ms, id);
                *next_id = if id == u64::MAX {
                    0
                } else {
                    id + 1
                };
                let ghost h0 = *heap;
                set_runtime_val(heap, String::from_str(to_set), RawRTValue::RTCM(Box::new(m)));
                proof {
                    assert(heap.data.view() =~= h0.data.view().insert(to_set@, heap.data.view()[to_set@]));
                }
                Ok(Step::Done)
            },
        }
    } else {
        Err(RunError::UnknownCommand(String::from_str(cmd)))
    }
}

/// The tokens of a line that a package command receives, from the command on,
/// and what it stores; the command itself is looked up among the packages.
pub open spec fn native_view(
    pkgs: LanguagePackages,
    a: Seq<Seq<char>>,
    from: int,
    to_set: Seq<char>,
    val_type: bool,
) -> Result<StepView, RunFault> {
    let caller = a[from];
    if pkgs.commands().contains_key(caller) {
        Ok(
            StepView::Native {
                pkg_name: pkgs.commands()[caller].0,
                handle: pkgs.commands()[caller].1,
                args: a.skip(from),
                to_set,
                val_type,
            },
        )
    } else {
        Err(RunFault::Unexpected(caller))
    }
}

/// A literal line `@...` with target `to_set`: stores the value it denotes
/// when the line has a target.
pub open spec fn literal_rel(
    caller: Seq<char>,
    to_set: Seq<char>,
    val_type: bool,
    h0: Heap,
    h1: Heap,
    r: Result<StepView, RunFault>,
) -> bool {
    if !val_type {
        h1 == h0 && r == Ok::<StepView, RunFault>(StepView::Done)
    } else if caller.len() < 2 || (caller[1] as u32) >= 128 {
        h1 == h0 && r == Err::<StepView, RunFault>(RunFault::BadLiteral)
    } else {
        match mkbuf_spec(caller) {
            Ok(LiteralView::Value(v)) => (exists|ok: bool| set_rel(h0, to_set, v, h1, ok)) && r == Ok::<
                StepView,
                RunFault,
            >(StepView::Done),
            Ok(LiteralView::FloatText(t)) => h1 == h0 && r == Ok::<StepView, RunFault>(
                StepView::Float { to_set, text: t },
            ),
            Err(f) => h1 == h0 && r == Err::<StepView, RunFault>(RunFault::Literal(f)),
        }
    }
}

/// `*return name` in a module method: moves the variable out as the
/// method's result.
pub open spec fn return_rel(
    a: Seq<Seq<char>>,
    from: int,
    in_module: bool,
    h0: Heap,
    h1: Heap,
    r: Result<StepView, RunFault>,
) -> bool {
    if !in_module {
        h1 == h0 && r == Err::<StepView, RunFault>(RunFault::ReturnOutsideModule)
    } else if from + 1 >= a.len() {
        h1 == h0 && r == Err::<StepView, RunFault>(RunFault::MissingToken)
    } else {
        exists|g: Option<Option<BufValue>>|
            #[trigger] remove_rel(h0, a[from + 1], h1, g) && match g {
                Some(Some(v)) => r == Ok::<StepView, RunFault>(StepView::Return(v)),
                _ => r == Err::<StepView, RunFault>(RunFault::CannotFindVariable(a[from + 1])),
            }
    }
}

/// A `$name::method` line: the call that it makes, the heap unchanged.
pub open spec fn call_view(
    h: Heap,
    a: Seq<Seq<char>>,
    from: int,
    to_set: Seq<char>,
    val_type: bool,
) -> Result<StepView, RunFault> {
    let caller = a[from];
    match resolve_spec(h, caller) {
        Err(m) => Err(RunFault::UnexpectedMethod(m)),
        Ok(None) => Err(RunFault::Unexpected(caller)),
        Ok(Some(t)) => Ok(StepView::Call { target: t, args: a.skip(from), to_set, val_type }),
    }
}

/// Running the tokens `a[from..]` of a line, with the work counter going
/// from `t0` to `t1`, the heap from `h0` to `h1`, the line number, markers
/// and next module identity likewise, and the outcome `r`.
pub open spec fn run_rel(
    t0: int,
    t1: int,
    a: Seq<Seq<char>>,
    from: int,
    to_set: Seq<char>,
    val_type: bool,
    in_module: bool,
    h0: Heap,
    h1: Heap,
    line0: usize,
    line1: usize,
    m0: Map<Seq<char>, usize>,
    m1: Map<Seq<char>, usize>,
    code: Map<Seq<char>, LeadCode>,
    pkgs: LanguagePackages,
    id0: u64,
    id1: u64,
    r: Result<StepView, RunFault>,
) -> bool {
    let caller = a[from];
    let unchanged = line1 == line0 && m1 == m0 && id1 == id0;
    let costly = caller == return_word() || first_ascii(caller) == Some('@') || first_ascii(caller)
        == Some('*') || first_ascii(caller) == Some('$');
    if costly && t0 == -128 {
        unchanged && h1 == h0 && t1 == t0 && r == Err::<StepView, RunFault>(RunFault::Overflow)
    } else if caller == return_word() {
        unchanged && t1 == t0 - 1 && return_rel(a, from, in_module, h0, h1, r)
    } else if first_ascii(caller) is None {
        unchanged && h1 == h0 && t1 == t0 && r == Err::<StepView, RunFault>(RunFault::BadHead)
    } else if first_ascii(caller) == Some('@') {
        unchanged && t1 == t0 - 1 && literal_rel(caller, to_set, val_type, h0, h1, r)
    } else if first_ascii(caller) == Some('*') {
        t1 == t0 - 1 && insert_rel(
            a.skip(from),
            to_set,
            code,
            line0,
            h0,
            m0,
            id0,
            line1,
            h1,
            m1,
            id1,
            r,
        )
    } else if first_ascii(caller) == Some('$') {
        unchanged && h1 == h0 && t1 == t0 - 1 && r == call_view(h0, a, from, to_set, val_type)
    } else {
        unchanged && h1 == h0 && t1 == t0 && r == native_view(pkgs, a, from, to_set, val_type)
    }
}

/// Runs the tokens `args[from..]` of a line whose target is `to_set` (when
/// `val_type`): `*return` hands back a variable from a module method, `@`
/// stores a literal, `*` runs a command, `$name::method` resolves a call,
/// and any other caller names a package command. Each of the first four
/// costs a unit of work; what needs the world outside comes back as a `Step`.
pub fn tok_run(
    total: &mut i8,
    args: &Vec<String>,
    from: usize,
    to_set: &str,
    val_type: bool,
    in_module: bool,
    heap: &mut Heap,
    line: &mut usize,
    markers: &mut Dict<usize>,
    code: &Dict<LeadCode>,
    pkgs: &LanguagePackages,
    next_id: &mut u64,
) -> (r: Result<Step, RunError>)
    requires
        from < args@.len(),
        old(heap).wf(),
    ensures
        final(heap).wf(),
        run_rel(
            *old(total) as int,
            *final(total) as int,
            views(args@),
            from as int,
            to_set@,
            val_type,
            in_module,
            *old(heap),
            *final(heap),
            *old(line),
            *final(line),
            old(markers).view(),
            final(markers).view(),
            code.view(),
            *pkgs,
            *old(next_id),
            *final(next_id),
            outcome_view(r),
        ),
{
    let ghost a = views(args@);
    let caller = args[from].as_str();
    proof {
        assert(a[from as int] == caller@);
    }
    let ret = "*return";
    proof {
        reveal_strlit("*return");
        assert(ret@ =~= return_word());
    }
    let is_return = str_eq(caller, ret);
    let head = first_ascii_char(caller);
    let costly = is_return || head == Some('@') || head == Some('*') || head == Some('$');
    if costly && *total == -128 {
        return Err(RunError::Overflow);
    }
    if is_return {
        *total = *total - 1;
        if !in_module {
            return Err(RunError::ReturnOutsideModule);
        }
        if args.len() - from < 2 {
            return Err(RunError::MissingToken);
        }
        let var = args[from + 1].as_str();
        proof {
            assert(a[from + 1] == var@);
        }
        let ghost h0 = *heap;
        let g = heap.remove(var);
        let ghost gg = g;
        proof {
            assert(remove_rel(h0, a[from + 1], *heap, gg));
        }
        return match g {
            Some(Some(v)) => Ok(Step::Return(v)),
            _ => Err(RunError::CannotFindVariable(String::from_str(var))),
        };
    }
    let h = match head {
        None => return Err(RunError::BadHead),
        Some(h) => h,
    };
    if h == '@' {
        *total = *total - 1;
        if !val_type {
            return Ok(Step::Done);
        }
        if caller.unicode_len() < 2 || (caller.get_char(1) as u32) >= 128 {
            return Err(RunError::BadLiteral);
        }
        return match mkbuf(caller) {
            Ok(Literal::Value(v)) => {
                let ghost h0 = *heap;
                let ghost vv = v;
                let ok = heap.set(String::from_str(to_set), v);
                proof {
                    let b = ok is Some;
                    assert(set_rel(h0, to_set@, vv, *heap, b));
                }
                Ok(Step::Done)
            },
            Ok(Literal::FloatText(t)) => Ok(Step::Float { to_set: String::from_str(to_set), text: t }),
            Err(e) => Err(RunError::Literal(e)),
        };
    }
    if h == '*' {
        *total = *total - 1;
        if let Some(e) = star_fault(args, from) {
            return Err(e);
        }
        return insert_into_application(args, from, line, to_set, heap, markers, code, next_id);
    }
    if h == '$' {
        *total = *total - 1;
        return match call_runtime_val(heap, caller) {
            Err(m) => Err(RunError::UnexpectedMethod(m)),
            Ok(None) => Err(RunError::Unexpected(String::from_str(caller))),
            Ok(Some(target)) => {
                let rest = crate::parser::clone_strings(args, from, args.len());
                proof {
                    assert(views(rest@) =~= a.skip(from as int));
                }
                Ok(Step::Call { target, args: rest, to_set: String::from_str(to_set), val_type })
            },
        };
    }
    match pkgs.inner.get(caller) {
        Some(entry) => {
            let rest = crate::parser::clone_strings(args, from, args.len());
            proof {
                assert(views(rest@) =~= a.skip(from as int));
            }
            Ok(
                Step::Native {
                    pkg_name: entry.0.clone(),
                    handle: entry.1,
                    args: rest,
                    to_set: String::from_str(to_set),
                    val_type,
                },
            )
        },
        None => Err(RunError::Unexpected(String::from_str(caller))),
    }
}

/// Why a line of text cannot run.
pub enum ParseError {
    /// A target `$name:` with nothing after it.
    MissingToken,
    /// A condition on a variable that is not set.
    MissingValue(String),
    /// A condition on a variable that is not a boolean.
    NotBool(String),
    /// A condition whose remaining text cannot be sliced off.
    BadSlice,
    /// The command itself fails.
    Run(RunError),
}

/// `ParseError` with its texts as characters.
pub enum ParseFault {
    MissingToken,
    MissingValue(Seq<char>),
    NotBool(Seq<char>),
    BadSlice,
    Run(RunFault),
}

impl ParseError {
    pub open spec fn view(self) -> ParseFault {
        match self {
            ParseError::MissingToken => ParseFault::MissingToken,
            ParseError::MissingValue(n) => ParseFault::MissingValue(n@),
            ParseError::NotBool(n) => ParseFault::NotBool(n@),
            ParseError::BadSlice => ParseFault::BadSlice,
            ParseError::Run(e) => ParseFault::Run(e.view()),
        }
    }
}

/// The outcome of a line of text as characters.
pub open spec fn parse_outcome(r: Result<Step, ParseError>) -> Result<StepView, ParseFault> {
    match r {
        Ok(s) => Ok(s.view()),
        Err(e) => Err(e.view()),
    }
}

/// An outcome of running tokens, as an outcome of a line of text.
pub open spec fn lift_run(r: Result<StepView, RunFault>) -> Result<StepView, ParseFault> {
    match r {
        Ok(s) => Ok(s),
        Err(f) => Err(ParseFault::Run(f)),
    }
}

/// The line of text `piece` once its conditions are weighed: the text that
/// runs, or `None` when a condition turns the line off. A condition
/// `*if$name` (or `*else$name`) that holds drops as many bytes from the front
/// of the text as its token has, and one more.
pub open spec fn cond_spec(piece: Seq<char>, heap: Heap) -> Result<Option<Seq<char>>, ParseFault>
    decreases piece.len(),
{
    let t = split_pat(piece, space());
    let vt = is_target(t[0]);
    let start: int = if vt {
        1
    } else {
        0
    };
    if start >= t.len() {
        Err(ParseFault::MissingToken)
    } else {
        let caller = t[start];
        if has_prefix(caller, if_mark()) || has_prefix(caller, else_mark()) {
            let is_if = has_prefix(caller, if_mark());
            let name = if is_if {
                caller.skip(3)
            } else {
                caller.skip(5)
            };
            match get_spec(heap, name) {
                None => Err(ParseFault::MissingValue(name)),
                Some(BufValue::Bool(x)) => {
                    if (is_if && x) || (!is_if && !x) {
                        match byte_skip(piece, utf8_bytes(caller) + 1) {
                            None => Err(ParseFault::BadSlice),
                            Some(rest) => {
                                proof {
                                    lemma_byte_skip_shorter(piece, utf8_bytes(caller) + 1);
                                }
                                cond_spec(rest, heap)
                            },
                        }
                    } else {
                        Ok(None)
                    }
                },
                Some(_) => Err(ParseFault::NotBool(name)),
            }
        } else {
            Ok(Some(piece))
        }
    }
}

/// Where the caller of the tokens `t` stands: after a target `$name:`.
pub open spec fn line_start(t: Seq<Seq<char>>) -> int {
    if is_target(t[0]) {
        1
    } else {
        0
    }
}

/// The variable that the tokens `t` store their result under, if any.
pub open spec fn line_target(t: Seq<Seq<char>>) -> Seq<char> {
    if is_target(t[0]) {
        t[0].drop_last()
    } else {
        Seq::empty()
    }
}

/// Running the text `p`, whose conditions are weighed, split at spaces.
pub open spec fn text_rel(
    p: Seq<char>,
    in_module: bool,
    h0: Heap,
    h1: Heap,
    line0: usize,
    line1: usize,
    m0: Map<Seq<char>, usize>,
    m1: Map<Seq<char>, usize>,
    code: Map<Seq<char>, LeadCode>,
    pkgs: LanguagePackages,
    id0: u64,
    id1: u64,
    r: Result<StepView, ParseFault>,
) -> bool {
    let t = split_pat(p, space());
    let vt = is_target(t[0]);
    let start = line_start(t);
    let to_set = line_target(t);
    let caller = t[start];
    if first_ascii(caller) is None {
        &&& line1 == line0
        &&& m1 == m0
        &&& id1 == id0
        &&& h1 == h0
        &&& r == if caller.len() == 0 && !pkgs.commands().contains_key(caller) {
            Ok(StepView::Done)
        } else {
            lift_run(native_view(pkgs, t, start, to_set, vt))
        }
    } else {
        exists|t1: int, rr: Result<StepView, RunFault>|
            #[trigger] run_rel(
                0,
                t1,
                t,
                start,
                to_set,
                vt,
                in_module,
                h0,
                h1,
                line0,
                line1,
                m0,
                m1,
                code,
                pkgs,
                id0,
                id1,
                rr,
            ) && r == lift_run(rr)
    }
}

/// Runs a line of text: splits it at spaces, weighs its conditions, then runs
/// it as `tok_run` does, without a work counter; a caller that is empty or
/// begins with a character of more than one byte can only name a package
/// command, and an empty one that names none does nothing.
pub fn tok_parse(
    piece: &str,
    in_module: bool,
    heap: &mut Heap,
    line: &mut usize,
    markers: &mut Dict<usize>,
    code: &Dict<LeadCode>,
    pkgs: &LanguagePackages,
    next_id: &mut u64,
) -> (r: Result<Step, ParseError>)
    requires
        old(heap).wf(),
    ensures
        final(heap).wf(),
        match cond_spec(piece@, *old(heap)) {
            Err(f) => parse_outcome(r) == Err::<StepView, ParseFault>(f) && *final(heap) == *old(heap)
                && *final(line) == *old(line) && final(markers).view() == old(markers).view()
                && *final(next_id) == *old(next_id),
            Ok(None) => parse_outcome(r) == Ok::<StepView, ParseFault>(StepView::Done) && *final(heap)
                == *old(heap) && *final(line) == *old(line) && final(markers).view() == old(
                markers,
            ).view() && *final(next_id) == *old(next_id),
            Ok(Some(p)) => text_rel(
                p,
                in_module,
                *old(heap),
                *final(heap),
                *old(line),
                *final(line),
                old(markers).view(),
                final(markers).view(),
                code.view(),
                *pkgs,
                *old(next_id),
                *final(next_id),
                parse_outcome(r),
            ),
        },
    decreases piece@.len(),
{
    let sp = " ";
    proof {
        reveal_strlit(" ");
        assert(sp@ =~= space());
    }
    let tokens = split_str(piece, sp);
    let ghost t = views(tokens@);
    proof {
        lemma_split_nonempty(piece@, space());
        assert(t[0] == tokens@[0]@);
    }
    let first = tokens[0].as_str();
    let colon_lit = ":";
    let dollar_lit = "$";
    proof {
        reveal_strlit(":");
        reveal_strlit("$");
        assert(colon_lit@ =~= colon());
        assert(dollar_lit@ =~= dollar_sign());
    }
    let vt = ends_with(first, colon_lit) && starts_with(first, dollar_lit);
    let start: usize = if vt {
        1
    } else {
        0
    };
    if start >= tokens.len() {
        return Err(ParseError::MissingToken);
    }
    let caller = tokens[start].as_str();
    proof {
        assert(t[start as int] == caller@);
    }
    let if_lit = "*if$";
    let else_lit = "*else$";
    proof {
        reveal_strlit("*if$");
        reveal_strlit("*else$");
        assert(if_lit@ =~= if_mark());
        assert(else_lit@ =~= else_mark());
    }
    let is_if = starts_with(caller, if_lit);
    let is_else = starts_with(caller, else_lit);
    if is_if || is_else {
        let name = if is_if {
            skip_chars(caller, 3)
        } else {
            skip_chars(caller, 5)
        };
        let x = match heap.get(name) {
            None => return Err(ParseError::MissingValue(String::from_str(name))),
            Some(BufValue::Bool(x)) => *x,
            Some(_) => return Err(ParseError::NotBool(String::from_str(name))),
        };
        if (is_if && x) || (!is_if && !x) {
            let n = utf8_count(caller) + 1;
            return match skip_bytes(piece, n) {
                None => Err(ParseError::BadSlice),
                Some(rest) => {
                    proof {
                        lemma_byte_skip_shorter(piece@, n as nat);
                    }
                    tok_parse(rest, in_module, heap, line, markers, code, pkgs, next_id)
                },
            };
        }
        return Ok(Step::Done);
    }
    let to_set = if vt {
        let n = first.unicode_len();
        proof {
            assert(first@.subrange(0, n - 1) =~= first@.drop_last());
        }
        String::from_str(first.substring_char(0, n - 1))
    } else {
        proof {
            reveal_strlit("");
        }
        String::from_str("")
    };
    proof {
        assert(to_set@ =~= (if vt {
            t[0].drop_last()
        } else {
            Seq::<char>::empty()
        }));
    }
    proof {
        assert(!has_prefix(caller@, if_mark()) && !has_prefix(caller@, else_mark()));
        assert(cond_spec(piece@, *old(heap)) == Ok::<Option<Seq<char>>, ParseFault>(Some(piece@)));
    }
    if first_ascii_char(caller).is_none() {
        return match pkgs.inner.get(caller) {
            Some(entry) => {
                let rest = crate::parser::clone_strings(&tokens, start, tokens.len());
                proof {
                    assert(views(rest@) =~= t.skip(start as int));
                }
                Ok(
                    Step::Native {
                        pkg_name: entry.0.clone(),
                        handle: entry.1,
                        args: rest,
                        to_set,
                        val_type: vt,
                    },
                )
            },
            None => {
                if caller.unicode_len() == 0 {
                    Ok(Step::Done)
                } else {
                    Err(ParseError::Run(RunError::Unexpected(String::from_str(caller))))
                }
            },
        };
    }
    let mut total: i8 = 0;
    let ghost h0 = *heap;
    let ghost line0 = *line;
    let ghost m0 = markers.view();
    let ghost id0 = *next_id;
    let out = tok_run(
        &mut total,
        &tokens,
        start,
        to_set.as_str(),
        vt,
        in_module,
        heap,
        line,
        markers,
        code,
        pkgs,
        next_id,
    );
    let ghost ov = outcome_view(out);
    let ghost tt = total as int;
    let r = match out {
        Ok(s) => Ok(s),
        Err(e) => Err(ParseError::Run(e)),
    };
    proof {
        assert(parse_outcome(r) == lift_run(ov));
        assert(start as int == line_start(t));
        assert(to_set@ == line_target(t));
        assert(vt == is_target(t[0]));
        assert(run_rel(
            0,
            tt,
            t,
            line_start(t),
            line_target(t),
            is_target(t[0]),
            in_module,
            h0,
            *heap,
            line0,
            *line,
            m0,
            markers.view(),
            code.view(),
            *pkgs,
            id0,
            *next_id,
            ov,
        ));
        assert(text_rel(
            piece@,
            in_module,
            h0,
            *heap,
            line0,
            *line,
            m0,
            markers.view(),
            code.view(),
            *pkgs,
            id0,
            *next_id,
            parse_outcome(r),
        ));
    }
    r
}

/// `*goto` returns to the line at which `*mark` set the same marker: after
/// `*mark name` at line `line0`, `*goto name` with the markers that the
/// mark left jumps back to `line0`.
pub proof fn law_mark_then_goto(
    name: Seq<char>,
    to_set: Seq<char>,
    code: Map<Seq<char>, LeadCode>,
    line0: usize,
    h0: Heap,
    m0: Map<Seq<char>, usize>,
    id0: u64,
    line1: usize,
    h1: Heap,
    m1: Map<Seq<char>, usize>,
    id1: u64,
    r1: Result<StepView, RunFault>,
    line2: usize,
    h2: Heap,
    m2: Map<Seq<char>, usize>,
    id2: u64,
    r2: Result<StepView, RunFault>,
    line_at: usize,
)
    requires
        insert_rel(seq![mark_word(), name], to_set, code, line0, h0, m0, id0, line1, h1, m1, id1, r1),
        insert_rel(seq![goto_word(), name], to_set, code, line_at, h1, m1, id1, line2, h2, m2, id2, r2),
    ensures
        r1 == Ok::<StepView, RunFault>(StepView::Done),
        r2 == Ok::<StepView, RunFault>(StepView::Done),
        line2 == line0,
        h2 == h0,
{
    assert(seq![mark_word(), name][0] == mark_word());
    assert(seq![goto_word(), name][0] == goto_word());
    assert(mark_word() != run_word());
    assert(goto_word() != run_word());
    assert(goto_word() != mark_word());
}

/// The tokens `a[from..]` are `*mark name`.
pub open spec fn marks(a: Seq<Seq<char>>, from: int, name: Seq<char>) -> bool {
    a.len() - from == 2 && a[from] == mark_word() && a[from + 1] == name
}

/// Only `*mark name` changes the marker `name`: every other line that runs
/// leaves it as it was, set or not.
pub proof fn law_marker_kept(
    t0: int,
    t1: int,
    a: Seq<Seq<char>>,
    from: int,
    to_set: Seq<char>,
    val_type: bool,
    in_module: bool,
    h0: Heap,
    h1: Heap,
    line0: usize,
    line1: usize,
    m0: Map<Seq<char>, usize>,
    m1: Map<Seq<char>, usize>,
    code: Map<Seq<char>, LeadCode>,
    pkgs: LanguagePackages,
    id0: u64,
    id1: u64,
    r: Result<StepView, RunFault>,
    name: Seq<char>,
)
    requires
        0 <= from < a.len(),
        run_rel(t0, t1, a, from, to_set, val_type, in_module, h0, h1, line0, line1, m0, m1, code, pkgs, id0, id1, r),
        !marks(a, from, name),
    ensures
        m1.contains_key(name) == m0.contains_key(name),
        m0.contains_key(name) ==> m1[name] == m0[name],
{
    let b = a.skip(from);
    if b.len() == 2 {
        assert(b[0] == a[from]);
        assert(b[1] == a[from + 1]);
    }
}

/// The marker `name` stays as a run of steps left it: every step from one
/// marker map to the next runs a line that is not `*mark name`.
pub open spec fn marker_steps(ms: Seq<Map<Seq<char>, usize>>, name: Seq<char>) -> bool {
    forall|i: int|
        #![trigger ms[i]]
        0 <= i < ms.len() - 1 ==> exists|
            t0: int,
            t1: int,
            a: Seq<Seq<char>>,
            from: int,
            to_set: Seq<char>,
            val_type: bool,
            in_module: bool,
            h0: Heap,
            h1: Heap,
            line0: usize,
            line1: usize,
            code: Map<Seq<char>, LeadCode>,
            pkgs: LanguagePackages,
            id0: u64,
            id1: u64,
            r: Result<StepView, RunFault>,
        |
            0 <= from < a.len() && !marks(a, from, name) && #[trigger] run_rel(
                t0,
                t1,
                a,
                from,
                to_set,
                val_type,
                in_module,
                h0,
                h1,
                line0,
                line1,
                ms[i],
                ms[i + 1],
                code,
                pkgs,
                id0,
                id1,
                r,
            )
}

proof fn lemma_marker_steps(ms: Seq<Map<Seq<char>, usize>>, name: Seq<char>, k: int)
    requires
        ms.len() >= 1,
        0 <= k < ms.len(),
        marker_steps(ms, name),
        ms[0].contains_key(name),
    ensures
        ms[k].contains_key(name),
        ms[k][name] == ms[0][name],
    decreases k,
{
    if k > 0 {
        lemma_marker_steps(ms, name, k - 1);
        let (t0, t1, a, from, to_set, val_type, in_module, h0, h1, line0, line1, code, pkgs, id0, id1, r) = choose|
            t0: int,
            t1: int,
            a: Seq<Seq<char>>,
            from: int,
            to_set: Seq<char>,
            val_type: bool,
            in_module: bool,
            h0: Heap,
            h1: Heap,
            line0: usize,
            line1: usize,
            code: Map<Seq<char>, LeadCode>,
            pkgs: LanguagePackages,
            id0: u64,
            id1: u64,
            r: Result<StepView, RunFault>,
        |
            0 <= from < a.len() && !marks(a, from, name) && #[trigger] run_rel(
                t0,
                t1,
                a,
                from,
                to_set,
                val_type,
                in_module,
                h0,
                h1,
                line0,
                line1,
                ms[k - 1],
                ms[k],
                code,
                pkgs,
                id0,
                id1,
                r,
            );
        law_marker_kept(
            t0,
            t1,
            a,
            from,
            to_set,
            val_type,
            in_module,
            h0,
            h1,
            line0,
            line1,
            ms[k - 1],
            ms[k],
            code,
            pkgs,
            id0,
            id1,
            r,
            name,
        );
    }
}

/// `*goto` returns to the line of the last `*mark` of the same name, with
/// any lines run in between that do not mark that name again: after `*mark
/// name` at line `line0`, which leaves the markers `ms[0]`, and steps that
/// lead to `ms.last()`, `*goto name` jumps back to `line0`.
pub proof fn law_mark_then_goto_later(
    name: Seq<char>,
    to_set: Seq<char>,
    code: Map<Seq<char>, LeadCode>,
    line0: usize,
    h0: Heap,
    m0: Map<Seq<char>, usize>,
    id0: u64,
    line1: usize,
    h1: Heap,
    id1: u64,
    r1: Result<StepView, RunFault>,
    ms: Seq<Map<Seq<char>, usize>>,
    line_at: usize,
    ha: Heap,
    ida: u64,
    line2: usize,
    h2: Heap,
    m2: Map<Seq<char>, usize>,
    id2: u64,
    r2: Result<StepView, RunFault>,
)
    requires
        ms.len() >= 1,
        insert_rel(seq![mark_word(), name], to_set, code, line0, h0, m0, id0, line1, h1, ms[0], id1, r1),
        marker_steps(ms, name),
        insert_rel(seq![goto_word(), name], to_set, code, line_at, ha, ms.last(), ida, line2, h2, m2, id2, r2),
    ensures
        r2 == Ok::<StepView, RunFault>(StepView::Done),
        line2 == line0,
        h2 == ha,
{
    assert(seq![mark_word(), name][0] == mark_word());
    assert(seq![goto_word(), name][0] == goto_word());
    assert(mark_word() != run_word());
    assert(goto_word() != run_word());
    assert(goto_word() != mark_word());
    assert(ms[0] == m0.insert(name, line0));
    lemma_marker_steps(ms, name, ms.len() - 1);
}

/// A token that runs as it stands: an ASCII character first, which is not
/// `#`, and neither a condition nor a target.
pub open spec fn plain_caller(t: Seq<char>) -> bool {
    &&& t.len() > 0
    &&& (t[0] as u32) < 0x80
    &&& t[0] != '#'
    &&& t[0] != '*'
    &&& t[0] != '$'
}

/// A condition gates the rest of its line: `*if$name` lets the line run
/// exactly when `$name` holds `true`, and `*else$name` exactly when it
/// holds `false`. Either way reading the condition costs one unit of work;
/// a line that runs runs from the token after the condition, with no target.
pub proof fn law_condition_gates_line(
    is_if: bool,
    name: Seq<char>,
    x: bool,
    rest: Seq<Seq<char>>,
    heap: Heap,
    c: int,
)
    requires
        name.len() > 0,
        name[0] == '$',
        get_spec(heap, name) == Some(BufValue::Bool(x)),
        -127 <= c,
        rest.len() >= 1,
        plain_caller(rest[0]),
    ensures
        ({
            let cond = if is_if {
                seq!['*', 'i', 'f'] + name
            } else {
                seq!['*', 'e', 'l', 's', 'e'] + name
            };
            let args = seq![cond] + rest;
            let runs = if is_if {
                x
            } else {
                !x
            };
            &&& runs ==> state_spec(args, heap, 0, c) == (
                Ok::<LineStateView, StateFault>(
                    LineStateView::Run { from: 1, to_set: Seq::<char>::empty(), val_type: false },
                ),
                c - 1,
            )
            &&& !runs ==> state_spec(args, heap, 0, c) == (Ok::<LineStateView, StateFault>(LineStateView::Ignore), c - 1)
        }),
{
    let cond = if is_if {
        seq!['*', 'i', 'f'] + name
    } else {
        seq!['*', 'e', 'l', 's', 'e'] + name
    };
    let args = seq![cond] + rest;
    assert(args[0] == cond);
    assert(args[1] == rest[0]);
    assert(!has_prefix(cond, dollar_sign())) by {
        assert(cond.take(1)[0] == '*');
    }
    assert(!is_target(cond));
    assert(first_ascii(cond) == Some('*'));
    if is_if {
        assert(cond.take(4) =~= if_mark());
        assert(cond.skip(3) =~= name);
        assert(!has_prefix(cond, else_mark())) by {
            assert(cond.len() < 6 || cond.take(6)[1] == 'i');
        }
    } else {
        assert(cond.take(6) =~= else_mark());
        assert(cond.skip(5) =~= name);
        assert(!has_prefix(cond, if_mark())) by {
            assert(cond.take(4)[1] == 'e');
        }
    }
    let t = rest[0];
    assert(!has_prefix(t, dollar_sign())) by {
        assert(t.take(1)[0] == t[0]);
    }
    assert(!is_target(t));
    assert(!has_prefix(t, if_mark())) by {
        if t.len() >= 4 {
            assert(t.take(4)[0] == t[0]);
        }
    }
    assert(!has_prefix(t, else_mark())) by {
        if t.len() >= 6 {
            assert(t.take(6)[0] == t[0]);
        }
    }
    assert(state_spec(args, heap, 1, c - 1) == (
        Ok::<LineStateView, StateFault>(
            LineStateView::Run { from: 1, to_set: Seq::<char>::empty(), val_type: false },
        ),
        c - 1,
    ));
}

/// Weighing a line never adds work: the counter only goes down.
pub proof fn law_state_costs_work(args: Seq<Seq<char>>, heap: Heap, off: nat, c: int)
    ensures
        state_spec(args, heap, off, c).1 <= c,
    decreases args.len() - off,
{
    if off < args.len() {
        let first = args[off as int];
        let start: nat = if is_target(first) {
            1
        } else {
            0
        };
        if off + start < args.len() {
            law_state_costs_work(args, heap, off + start + 1, c - 1);
        }
    }
}

/// A comment line (`#` first) is skipped without cost.
pub proof fn law_comment_ignored(args: Seq<Seq<char>>, heap: Heap, c: int)
    requires
        args.len() > 0,
        !is_target(args[0]),
        args[0].len() > 0,
        args[0][0] == '#',
    ensures
        state_spec(args, heap, 0, c) == (Ok::<LineStateView, StateFault>(LineStateView::Ignore), c),
{
}

} // verus!

use vstd::prelude::*;
use crate::dict::Dict;
use crate::parser::{
    clone_strings, declare_word, end_word, first_not_move, fn_word, is_move_param, move_prefix,
    ref_prefix,
};
use crate::structure::{hash_mark, newline, space};
use crate::text::{has_prefix, split_pat, split_str, starts_with, str_eq, trim, trim_spec, views};

verus! {

/// The lines of a module's source: split at newlines, trimmed, without the
/// empty ones and those that begin with `#`.
pub open spec fn kept_text(raw: Seq<Seq<char>>) -> Seq<Seq<char>>
    decreases raw.len(),
{
    if raw.len() == 0 {
        Seq::empty()
    } else {
        let prev = kept_text(raw.drop_last());
        let t = trim_spec(raw.last());
        if t.len() > 0 && !has_prefix(t, hash_mark()) {
            prev.push(t)
        } else {
            prev
        }
    }
}

/// The kept lines of a module's source.
pub fn module_lines(code: &str) -> (r: Vec<String>)
    ensures
        views(r@) == kept_text(split_pat(code@, newline())),
{
    let nl = "\n";
    let hash = "#";
    proof {
        reveal_strlit("\n");
        reveal_strlit("#");
        assert(nl@ =~= newline());
        assert(hash@ =~= hash_mark());
    }
    let raw = split_str(code, nl);
    let ghost rv = views(raw@);
    let mut out: Vec<String> = Vec::new();
    let mut i: usize = 0;
    proof {
        assert(views(out@) =~= kept_text(rv.take(0)));
    }
    while i < raw.len()
        invariant
            i <= raw@.len(),
            rv == views(raw@),
            hash@ == hash_mark(),
            views(out@) == kept_text(rv.take(i as int)),
        decreases raw@.len() - i,
    {
        let t = trim(raw[i].as_str());
        proof {
            assert(rv.take(i + 1).drop_last() =~= rv.take(i as int));
            assert(rv.take(i + 1).last() == raw@[i as int]@);
        }
        if t.unicode_len() > 0 && !starts_with(t, hash) {
            let ghost prev = out@;
            out.push(String::from_str(t));
            proof {
                assert(views(out@) =~= views(prev).push(t@));
            }
        }
        i = i + 1;
    }
    proof {
        assert(rv.take(raw@.len() as int) =~= rv);
    }
    out
}

/// A Lead module read from its source text: the text itself, its kept
/// lines, its name, and its methods by name, each with its parameters and
/// the lines of its body.
pub struct TextModule {
    pub code: String,
    pub lines: Vec<String>,
    pub name: String,
    pub methods: Dict<(Vec<String>, Vec<String>)>,
}

/// A method's parameters and body lines, as characters.
pub open spec fn text_method_view(m: (Vec<String>, Vec<String>)) -> (Seq<Seq<char>>, Seq<Seq<char>>) {
    (views(m.0@), views(m.1@))
}

impl TextModule {
    /// The methods, as characters.
    pub open spec fn methods_view(self) -> Map<Seq<char>, (Seq<Seq<char>>, Seq<Seq<char>>)> {
        self.methods.view().map_values(|m: (Vec<String>, Vec<String>)| text_method_view(m))
    }
}

/// Why a module's source does not read.
pub enum TextModuleError {
    /// A second `declare`.
    DuplicateDeclaration,
    /// The kept line at this position lacks a token that the reader takes.
    MissingToken(usize),
    /// A parameter that is not a `->` move parameter.
    NotMove(String),
    /// A line outside any method that neither declares nor opens one.
    Unknown(String),
    /// A method that closes a second time under the same name.
    MethodOverlap(String),
}

/// `TextModuleError` as characters.
pub enum TextModuleFault {
    DuplicateDeclaration,
    MissingToken(int),
    NotMove(Seq<char>),
    Unknown(Seq<char>),
    MethodOverlap(Seq<char>),
}

impl TextModuleError {
    pub open spec fn view(self) -> TextModuleFault {
        match self {
            TextModuleError::DuplicateDeclaration => TextModuleFault::DuplicateDeclaration,
            TextModuleError::MissingToken(i) => TextModuleFault::MissingToken(i as int),
            TextModuleError::NotMove(t) => TextModuleFault::NotMove(t@),
            TextModuleError::Unknown(t) => TextModuleFault::Unknown(t@),
            TextModuleError::MethodOverlap(t) => TextModuleFault::MethodOverlap(t@),
        }
    }
}

/// The reader's state between lines: whether the module was declared, its
/// name, whether a method is open, the method's name, the line where its
/// body starts, its parameters, and the methods read so far.
pub struct TextState {
    pub declared: bool,
    pub name: Seq<char>,
    pub in_ctx: bool,
    pub ctx: Seq<char>,
    pub start: int,
    pub args: Seq<Seq<char>>,
    pub methods: Map<Seq<char>, (Seq<Seq<char>>, Seq<Seq<char>>)>,
}

/// The state before the first line.
pub open spec fn text_init() -> TextState {
    TextState {
        declared: false,
        name: Seq::empty(),
        in_ctx: false,
        ctx: Seq::empty(),
        start: 0,
        args: Seq::empty(),
        methods: Map::empty(),
    }
}

/// The reader at the kept line `i`, split at spaces. Outside a method, a
/// line declares the module (once) or opens a method, whose parameters must
/// all be move parameters; inside, `*end` closes the method and records its
/// body, and every other line belongs to the body.
pub open spec fn text_step(st: TextState, lines: Seq<Seq<char>>, i: int) -> Result<
    TextState,
    TextModuleFault,
> {
    let tok = split_pat(lines[i], space());
    if !st.in_ctx {
        let c = tok[0];
        if c == declare_word() {
            if st.declared {
                Err(TextModuleFault::DuplicateDeclaration)
            } else if tok.len() < 2 {
                Err(TextModuleFault::MissingToken(i))
            } else {
                Ok(TextState { declared: true, name: tok[1], ..st })
            }
        } else if c == fn_word() {
            if tok.len() < 2 {
                Err(TextModuleFault::MissingToken(i))
            } else {
                match first_not_move(tok.skip(2)) {
                    Some(a) => Err(TextModuleFault::NotMove(a)),
                    None => Ok(
                        TextState { in_ctx: true, ctx: tok[1], start: i + 1, args: tok.skip(2), ..st },
                    ),
                }
            }
        } else {
            Err(TextModuleFault::Unknown(c))
        }
    } else if tok[0] == end_word() {
        if st.methods.contains_key(st.ctx) {
            Err(TextModuleFault::MethodOverlap(st.ctx))
        } else {
            Ok(
                TextState {
                    in_ctx: false,
                    methods: st.methods.insert(st.ctx, (st.args, lines.subrange(st.start, i))),
                    ..st
                },
            )
        }
    } else {
        Ok(st)
    }
}

/// The reader after the first `n` kept lines.
pub open spec fn text_fold(lines: Seq<Seq<char>>, n: nat) -> Result<TextState, TextModuleFault>
    decreases n,
{
    if n == 0 {
        Ok(text_init())
    } else {
        match text_fold(lines, (n - 1) as nat) {
            Err(e) => Err(e),
            Ok(st) => text_step(st, lines, n - 1),
        }
    }
}

proof fn lemma_text_err_stays(lines: Seq<Seq<char>>, n: nat, m: nat)
    requires
        n <= m,
        text_fold(lines, n) is Err,
    ensures
        text_fold(lines, m) == text_fold(lines, n),
    decreases m - n,
{
    if n < m {
        lemma_text_err_stays(lines, n, (m - 1) as nat);
    }
}

/// What reading a module's source gives: nothing when it declares no module.
pub open spec fn module_text_spec(code: Seq<char>) -> Result<
    Option<(Seq<char>, Map<Seq<char>, (Seq<Seq<char>>, Seq<Seq<char>>)>)>,
    TextModuleFault,
> {
    let lines = kept_text(split_pat(code, newline()));
    match text_fold(lines, lines.len()) {
        Err(e) => Err(e),
        Ok(st) => if st.declared {
            Ok(Some((st.name, st.methods)))
        } else {
            Ok(None)
        },
    }
}

fn first_bad_param(t: &Vec<String>, from: usize) -> (r: Option<usize>)
    requires
        from <= t@.len(),
    ensures
        match first_not_move(views(t@).skip(from as int)) {
            Some(a) => r matches Some(i) && from <= i < t@.len() && t@[i as int]@ == a,
            None => r is None,
        },
    decreases t@.len() - from,
{
    if from == t.len() {
        return None;
    }
    let mv = "->";
    let rf = "->&";
    proof {
        reveal_strlit("->");
        reveal_strlit("->&");
        assert(mv@ =~= move_prefix());
        assert(rf@ =~= ref_prefix());
        assert(views(t@).skip(from as int)[0] == t@[from as int]@);
        assert(views(t@).skip(from as int).drop_first() =~= views(t@).skip(from + 1));
    }
    let s = t[from].as_str();
    if !starts_with(s, mv) || starts_with(s, rf) {
        return Some(from);
    }
    first_bad_param(t, from + 1)
}

/// The faults on which the reader stops the program: every fault but a
/// parameter that is not a move, which it reports as an error.
pub open spec fn text_fault_halts(f: TextModuleFault) -> bool {
    !(f is NotMove)
}

/// What reading a module's source yields, with the text and its kept lines.
pub open spec fn text_module_rel(code: Seq<char>, r: Result<Option<TextModule>, TextModuleError>) -> bool {
    match module_text_spec(code) {
        Ok(Some((name, ms))) => r matches Ok(Some(m)) && m.name@ == name && m.methods_view() == ms
            && m.methods.wf() && m.code@ == code && views(m.lines@) == kept_text(split_pat(code, newline())),
        Ok(None) => r matches Ok(None),
        Err(f) => r matches Err(e) && e.view() == f,
    }
}

fn read_module_text(code: &str) -> (r: Result<Option<TextModule>, TextModuleError>)
    ensures
        text_module_rel(code@, r),
{
    let lines = module_lines(code);
    let ghost lv = views(lines@);
    let declare = "declare";
    let fn_lit = "fn";
    let end = "*end";
    let sp = " ";
    proof {
        reveal_strlit("declare");
        reveal_strlit("fn");
        reveal_strlit("*end");
        reveal_strlit(" ");
        assert(declare@ =~= declare_word());
        assert(fn_lit@ =~= fn_word());
        assert(end@ =~= end_word());
        assert(sp@ =~= space());
    }
    let mut declared = false;
    let mut name = String::new();
    let mut in_ctx = false;
    let mut ctx = String::new();
    let mut start: usize = 0;
    let mut args: Vec<String> = Vec::new();
    let mut methods: Dict<(Vec<String>, Vec<String>)> = Dict::new();
    let mut index: usize = 0;
    proof {
        assert(methods.view().map_values(|m: (Vec<String>, Vec<String>)| text_method_view(m))
            =~= Map::empty());
        assert(views(args@) =~= Seq::<Seq<char>>::empty());
    }
    while index < lines.len()
        invariant
            index <= lines@.len(),
            lv == views(lines@),
            lv == kept_text(split_pat(code@, newline())),
            declare@ == declare_word(),
            fn_lit@ == fn_word(),
            end@ == end_word(),
            sp@ == space(),
            methods.wf(),
            text_fold(lv, index as nat) == Ok::<TextState, TextModuleFault>(
                TextState {
                    declared,
                    name: name@,
                    in_ctx,
                    ctx: ctx@,
                    start: start as int,
                    args: views(args@),
                    methods: methods.view().map_values(
                        |m: (Vec<String>, Vec<String>)| text_method_view(m),
                    ),
                },
            ),
            in_ctx ==> start <= index,
        decreases lines@.len() - index,
    {
        let ghost st = TextState {
            declared,
            name: name@,
            in_ctx,
            ctx: ctx@,
            start: start as int,
            args: views(args@),
            methods: methods.view().map_values(|m: (Vec<String>, Vec<String>)| text_method_view(m)),
        };
        let tokens = split_str(lines[index].as_str(), sp);
        proof {
            assert(lv[index as int] == lines@[index as int]@);
            assert(text_fold(lv, (index + 1) as nat) == text_step(st, lv, index as int));
            crate::text::lemma_split_nonempty(lv[index as int], space());
            assert(views(tokens@)[0] == tokens@[0]@);
            if tokens@.len() >= 2 {
                assert(views(tokens@)[1] == tokens@[1]@);
            }
        }
        let caller = tokens[0].as_str();
        if !in_ctx {
            if str_eq(caller, declare) {
                if declared {
                    proof {
                        lemma_text_err_stays(lv, (index + 1) as nat, lines@.len());
                    }
                    return Err(TextModuleError::DuplicateDeclaration);
                }
                if tokens.len() < 2 {
                    proof {
                        lemma_text_err_stays(lv, (index + 1) as nat, lines@.len());
                    }
                    return Err(TextModuleError::MissingToken(index));
                }
                declared = true;
                name = tokens[1].clone();
            } else if str_eq(caller, fn_lit) {
                if tokens.len() < 2 {
                    proof {
                        lemma_text_err_stays(lv, (index + 1) as nat, lines@.len());
                    }
                    return Err(TextModuleError::MissingToken(index));
                }
                match first_bad_param(&tokens, 2) {
                    Some(i) => {
                        proof {
                            lemma_text_err_stays(lv, (index + 1) as nat, lines@.len());
                        }
                        return Err(TextModuleError::NotMove(tokens[i].clone()));
                    },
                    None => {},
                }
                in_ctx = true;
                ctx = tokens[1].clone();
                start = index + 1;
                args = clone_strings(&tokens, 2, tokens.len());
                proof {
                    assert(views(args@) =~= views(tokens@).skip(2));
                }
            } else {
                proof {
                    lemma_text_err_stays(lv, (index + 1) as nat, lines@.len());
                }
                return Err(TextModuleError::Unknown(tokens[0].clone()));
            }
        } else if str_eq(caller, end) {
            if methods.contains_key(ctx.as_str()) {
                proof {
                    assert(st.methods.contains_key(ctx@));
                    lemma_text_err_stays(lv, (index + 1) as nat, lines@.len());
                }
                return Err(TextModuleError::MethodOverlap(ctx.clone()));
            }
            let body = clone_strings(&lines, start, index);
            let params = clone_strings(&args, 0, args.len());
            proof {
                assert(params@ =~= args@);
                assert(views(body@) =~= lv.subrange(start as int, index as int));
            }
            let ghost prev = methods.view();
            methods.insert(ctx.clone(), (params, body));
            proof {
                assert(methods.view().map_values(|m: (Vec<String>, Vec<String>)| text_method_view(m))
                    =~= prev.map_values(|m: (Vec<String>, Vec<String>)| text_method_view(m)).insert(
                    ctx@,
                    (views(args@), views(body@)),
                ));
            }
            in_ctx = false;
        }
        index = index + 1;
    }
    if declared {
        let kept = clone_strings(&lines, 0, lines.len());
        proof {
            assert(kept@ =~= lines@);
        }
        Ok(Some(TextModule { code: String::from_str(code), lines: kept, name, methods }))
    } else {
        Ok(None)
    }
}

/// Reads a Lead module from its source text: `declare name` names it, `fn
/// name ->$a ->$b` opens a method whose body runs until `*end`. A source
/// without `declare` holds no module. The module keeps the text and its
/// kept lines. A parameter that is not a move is reported as an error; a
/// source on which the reader stops the program (a second `declare`, a
/// missing name, an unknown line outside a method, two methods of one name)
/// is left out.
pub fn parse_into_modules(code: &str) -> (r: Result<Option<TextModule>, TextModuleError>)
    requires
        !(module_text_spec(code@) matches Err(f) && text_fault_halts(f)),
    ensures
        text_module_rel(code@, r),
        r matches Err(e) ==> e is NotMove,
{
    read_module_text(code)
}

/// The fault that reading the source `code` meets first, if any; a caller
/// tests it before `parse_into_modules`.
pub fn module_text_fault(code: &str) -> (r: Option<TextModuleError>)
    ensures
        match module_text_spec(code@) {
            Err(f) => r matches Some(e) && e.view() == f,
            Ok(_) => r is None,
        },
{
    match read_module_text(code) {
        Err(e) => Some(e),
        Ok(_) => None,
    }
}

proof fn lemma_no_bad_param(ps: Seq<Seq<char>>)
    requires
        first_not_move(ps) is None,
    ensures
        forall|i: int| 0 <= i < ps.len() ==> is_move_param(#[trigger] ps[i]),
    decreases ps.len(),
{
    if ps.len() > 0 {
        lemma_no_bad_param(ps.drop_first());
        assert forall|i: int| 0 <= i < ps.len() implies is_move_param(#[trigger] ps[i]) by {
            if i > 0 {
                assert(ps[i] == ps.drop_first()[i - 1]);
            }
        }
    }
}

/// Every parameter of every method that the reader accepts is a move
/// parameter (`->` but not `->&`), as is every parameter of a method still
/// open.
pub proof fn law_module_params_are_moves(lines: Seq<Seq<char>>, n: nat)
    requires
        n <= lines.len(),
        text_fold(lines, n) is Ok,
    ensures
        ({
            let st = text_fold(lines, n)->Ok_0;
            &&& forall|m: Seq<char>, i: int|
                #![trigger st.methods[m].0[i]]
                st.methods.contains_key(m) && 0 <= i < st.methods[m].0.len() ==> is_move_param(
                    st.methods[m].0[i],
                )
            &&& forall|i: int| 0 <= i < st.args.len() ==> is_move_param(#[trigger] st.args[i])
        }),
    decreases n,
{
    if n > 0 {
        law_module_params_are_moves(lines, (n - 1) as nat);
        let prev = text_fold(lines, (n - 1) as nat)->Ok_0;
        let tok = split_pat(lines[n - 1], space());
        if !prev.in_ctx && tok[0] == fn_word() && tok.len() >= 2 {
            if first_not_move(tok.skip(2)) is None {
                lemma_no_bad_param(tok.skip(2));
            }
        }
    }
}

} // verus!

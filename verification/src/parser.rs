use vstd::prelude::*;
use crate::dict::{entries_map, keys_distinct, Dict};
use crate::text::{has_prefix, starts_with, str_eq, views};

verus! {

/// The token lines of a source, as character sequences.
pub open spec fn lines_view(ls: Seq<Vec<String>>) -> Seq<Seq<Seq<char>>> {
    ls.map_values(|l: Vec<String>| views(l@))
}

/// A method of a Lead module: its parameters and the token lines of its body.
#[derive(Debug)]
pub struct ModuleMethod {
    pub args: Vec<String>,
    pub code: Vec<Vec<String>>,
}

impl ModuleMethod {
    /// The parameters and body as character sequences.
    pub open spec fn view(self) -> (Seq<Seq<char>>, Seq<Seq<Seq<char>>>) {
        (views(self.args@), lines_view(self.code@))
    }
}

/// A Lead module, parsed: its declared name and its methods by name.
#[derive(Debug)]
pub struct ParsedTokenTree {
    pub name: String,
    pub data: Dict<ModuleMethod>,
}

/// Why a Lead module does not parse.
#[derive(Debug)]
pub enum ModuleError {
    /// A second `declare` after a module name was already declared.
    DuplicateDeclaration,
    /// A parameter that is not a `->` move parameter.
    NotMove(String),
    /// A line outside any method that neither declares nor opens one.
    Unknown(String),
    /// The line at this index lacks a token that the parser reads.
    MissingToken(usize),
}

/// What `ModuleError` holds, as character sequences.
pub enum ModuleFault {
    DuplicateDeclaration,
    NotMove(Seq<char>),
    Unknown(Seq<char>),
    MissingToken(int),
}

impl ModuleError {
    pub open spec fn view(self) -> ModuleFault {
        match self {
            ModuleError::DuplicateDeclaration => ModuleFault::DuplicateDeclaration,
            ModuleError::NotMove(t) => ModuleFault::NotMove(t@),
            ModuleError::Unknown(t) => ModuleFault::Unknown(t@),
            ModuleError::MissingToken(i) => ModuleFault::MissingToken(i as int),
        }
    }
}

/// `declare`
pub open spec fn declare_word() -> Seq<char> {
    seq!['d', 'e', 'c', 'l', 'a', 'r', 'e']
}

/// `fn`
pub open spec fn fn_word() -> Seq<char> {
    seq!['f', 'n']
}

/// `*end`
pub open spec fn end_word() -> Seq<char> {
    seq!['*', 'e', 'n', 'd']
}

/// `->`
pub open spec fn move_prefix() -> Seq<char> {
    seq!['-', '>']
}

/// `->&`
pub open spec fn ref_prefix() -> Seq<char> {
    seq!['-', '>', '&']
}

/// A parameter that is moved into the method: it begins with `->` but not `->&`.
pub open spec fn is_move_param(t: Seq<char>) -> bool {
    has_prefix(t, move_prefix()) && !has_prefix(t, ref_prefix())
}

/// The first parameter that is not a move parameter.
pub open spec fn first_not_move(ps: Seq<Seq<char>>) -> Option<Seq<char>>
    decreases ps.len(),
{
    if ps.len() == 0 {
        None
    } else if !is_move_param(ps[0]) {
        Some(ps[0])
    } else {
        first_not_move(ps.drop_first())
    }
}

/// The parser's state between lines: the module name so far, the method
/// being read (empty outside one), where its body starts, its parameters, and
/// the methods read so far.
pub type ModState = (
    Seq<char>,
    Seq<char>,
    int,
    Seq<Seq<char>>,
    Map<Seq<char>, (Seq<Seq<char>>, Seq<Seq<Seq<char>>>)>,
);

/// The state before the first line.
pub open spec fn mod_init() -> ModState {
    (Seq::empty(), Seq::empty(), 0, Seq::empty(), Map::empty())
}

/// The parser reading line `i`. Outside a method, a line declares the module
/// (once) or opens a method, whose parameters must all be move parameters;
/// inside a method, `*end` closes it and records its body, and every other
/// line belongs to the body.
pub open spec fn mod_step(st: ModState, lines: Seq<Seq<Seq<char>>>, i: int) -> Result<ModState, ModuleFault> {
    let t = lines[i];
    let (name, ctx, start, args, data) = st;
    if t.len() == 0 {
        Err(ModuleFault::MissingToken(i))
    } else if ctx.len() == 0 {
        if t[0] == declare_word() {
            if name.len() != 0 {
                Err(ModuleFault::DuplicateDeclaration)
            } else if t.len() < 2 {
                Err(ModuleFault::MissingToken(i))
            } else {
                Ok((t[1], ctx, start, args, data))
            }
        } else if t[0] == fn_word() {
            if t.len() < 2 {
                Err(ModuleFault::MissingToken(i))
            } else {
                match first_not_move(t.skip(2)) {
                    Some(a) => Err(ModuleFault::NotMove(a)),
                    None => Ok((name, t[1], i + 1, t.skip(2), data)),
                }
            }
        } else {
            Err(ModuleFault::Unknown(t[0]))
        }
    } else if t[0] == end_word() {
        Ok((name, Seq::empty(), start, args, data.insert(ctx, (args, lines.subrange(start, i)))))
    } else {
        Ok(st)
    }
}

/// The parser after the first `n` lines.
pub open spec fn mod_fold(lines: Seq<Seq<Seq<char>>>, n: nat) -> Result<ModState, ModuleFault>
    decreases n,
{
    if n == 0 {
        Ok(mod_init())
    } else {
        match mod_fold(lines, (n - 1) as nat) {
            Err(e) => Err(e),
            Ok(st) => mod_step(st, lines, n - 1),
        }
    }
}

pub proof fn lemma_mod_fold_start(lines: Seq<Seq<Seq<char>>>, n: nat)
    requires
        n <= lines.len(),
    ensures
        mod_fold(lines, n) matches Ok(st) ==> (st.1.len() > 0 ==> 0 <= st.2 <= n),
    decreases n,
{
    if n > 0 {
        lemma_mod_fold_start(lines, (n - 1) as nat);
    }
}

/// Copies `v[from..to]`.
pub fn clone_strings(v: &Vec<String>, from: usize, to: usize) -> (r: Vec<String>)
    requires
        from <= to <= v@.len(),
    ensures
        r@ == v@.subrange(from as int, to as int),
{
    let mut out: Vec<String> = Vec::new();
    let mut i = from;
    while i < to
        invariant
            from <= i <= to,
            to <= v@.len(),
            out@ == v@.subrange(from as int, i as int),
        decreases to - i,
    {
        let s = v[i].clone();
        out.push(s);
        proof {
            assert(out@ =~= v@.subrange(from as int, i + 1));
        }
        i = i + 1;
    }
    out
}

/// Copies the lines `v[from..to]`.
pub fn clone_lines(v: &Vec<Vec<String>>, from: usize, to: usize) -> (r: Vec<Vec<String>>)
    requires
        from <= to <= v@.len(),
    ensures
        lines_view(r@) == lines_view(v@).subrange(from as int, to as int),
{
    let mut out: Vec<Vec<String>> = Vec::new();
    let mut i = from;
    while i < to
        invariant
            from <= i <= to,
            to <= v@.len(),
            lines_view(out@) == lines_view(v@).subrange(from as int, i as int),
        decreases to - i,
    {
        let l = clone_strings(&v[i], 0, v[i].len());
        proof {
            assert(l@ =~= v@[i as int]@);
        }
        let ghost prev = out@;
        out.push(l);
        proof {
            assert(lines_view(out@) =~= lines_view(prev).push(views(l@)));
            assert(lines_view(out@) =~= lines_view(v@).subrange(from as int, i + 1));
        }
        i = i + 1;
    }
    out
}

/// The first parameter of `ps[from..]` that is not a move parameter.
fn find_not_move(ps: &Vec<String>, from: usize) -> (r: Option<usize>)
    requires
        from <= ps@.len(),
    ensures
        match r {
            Some(i) => from <= i < ps@.len() && first_not_move(views(ps@).skip(from as int)) == Some(
                ps@[i as int]@,
            ),
            None => first_not_move(views(ps@).skip(from as int)) is None,
        },
{
    let arrow = "->";
    let arrow_ref = "->&";
    proof {
        reveal_strlit("->");
        reveal_strlit("->&");
        assert(arrow@ =~= move_prefix());
        assert(arrow_ref@ =~= ref_prefix());
    }
    let mut i = from;
    while i < ps.len()
        invariant
            from <= i <= ps@.len(),
            arrow@ == move_prefix(),
            arrow_ref@ == ref_prefix(),
            first_not_move(views(ps@).skip(from as int)) == first_not_move(
                views(ps@).skip(i as int),
            ),
        decreases ps@.len() - i,
    {
        let t = ps[i].as_str();
        proof {
            assert(views(ps@).skip(i as int)[0] == t@);
            assert(views(ps@).skip(i as int).drop_first() =~= views(ps@).skip(i + 1));
        }
        if !starts_with(t, arrow) || starts_with(t, arrow_ref) {
            return Some(i);
        }
        i = i + 1;
    }
    proof {
        assert(views(ps@).skip(i as int).len() == 0);
    }
    None
}

/// Parses the token lines of a Lead module: `declare name` names it, and
/// `fn name ->$a ->$b` opens a method whose body runs until `*end`.
pub fn parse_lead_module(lines: &Vec<Vec<String>>) -> (r: Result<ParsedTokenTree, ModuleError>)
    ensures
        match mod_fold(lines_view(lines@), lines@.len()) {
            Ok(st) => r matches Ok(tree) && tree.data.wf() && tree.name@ == st.0
                && tree.data.view().map_values(|m: ModuleMethod| m.view()) == st.4,
            Err(f) => r matches Err(e) && e.view() == f,
        },
{
    let ghost lv = lines_view(lines@);
    let declare = "declare";
    let fn_lit = "fn";
    let end = "*end";
    proof {
        reveal_strlit("declare");
        reveal_strlit("fn");
        reveal_strlit("*end");
        assert(declare@ =~= declare_word());
        assert(fn_lit@ =~= fn_word());
        assert(end@ =~= end_word());
    }
    let mut name = String::new();
    let mut ctx = String::new();
    let mut start: usize = 0;
    let mut args: Vec<String> = Vec::new();
    let mut data: Dict<ModuleMethod> = Dict::new();
    let mut index: usize = 0;
    proof {
        assert(data.view().map_values(|m: ModuleMethod| m.view()) =~= Map::empty());
        assert(views(args@) =~= Seq::<Seq<char>>::empty());
    }
    while index < lines.len()
        invariant
            index <= lines@.len(),
            lv == lines_view(lines@),
            declare@ == declare_word(),
            fn_lit@ == fn_word(),
            end@ == end_word(),
            data.wf(),
            mod_fold(lv, index as nat) == Ok::<ModState, ModuleFault>(
                (name@, ctx@, start as int, views(args@), data.view().map_values(|m: ModuleMethod| m.view())),
            ),
            ctx@.len() > 0 ==> start <= index,
        decreases lines@.len() - index,
    {
        let tokens = &lines[index];
        let ghost st: ModState = (
            name@,
            ctx@,
            start as int,
            views(args@),
            data.view().map_values(|m: ModuleMethod| m.view()),
        );
        proof {
            assert(lv[index as int] == views(tokens@));
            assert(mod_fold(lv, (index + 1) as nat) == mod_step(st, lv, index as int));
        }
        if tokens.len() == 0 {
            proof {
                assert(mod_fold(lv, (index + 1) as nat) == Err::<ModState, ModuleFault>(ModuleFault::MissingToken(index as int)));
                lemma_fold_err_stays(lv, (index + 1) as nat, lines@.len());
            }
            return Err(ModuleError::MissingToken(index));
        }
        let caller = tokens[0].as_str();
        proof {
            assert(views(tokens@)[0] == caller@);
            if tokens@.len() >= 2 {
                assert(views(tokens@)[1] == tokens@[1]@);
            }
        }
        if ctx.unicode_len() == 0 {
            if str_eq(caller, declare) {
                if name.unicode_len() != 0 {
                    proof {
                        lemma_fold_err_stays(lv, (index + 1) as nat, lines@.len());
                    }
                    return Err(ModuleError::DuplicateDeclaration);
                }
                if tokens.len() < 2 {
                    proof {
                        lemma_fold_err_stays(lv, (index + 1) as nat, lines@.len());
                    }
                    return Err(ModuleError::MissingToken(index));
                }
                name = tokens[1].clone();
                proof {
                    assert(mod_fold(lv, (index + 1) as nat) == Ok::<ModState, ModuleFault>(
                        (name@, ctx@, start as int, views(args@), data.view().map_values(|m: ModuleMethod| m.view())),
                    ));
                }
            } else if str_eq(caller, fn_lit) {
                if tokens.len() < 2 {
                    proof {
                        lemma_fold_err_stays(lv, (index + 1) as nat, lines@.len());
                    }
                    return Err(ModuleError::MissingToken(index));
                }
                match find_not_move(tokens, 2) {
                    Some(i) => {
                        proof {
                            assert(views(tokens@).skip(2) == views(tokens@.skip(2)));
                            lemma_fold_err_stays(lv, (index + 1) as nat, lines@.len());
                        }
                        return Err(ModuleError::NotMove(tokens[i].clone()));
                    },
                    None => {},
                }
                ctx = tokens[1].clone();
                start = index + 1;
                args = clone_strings(tokens, 2, tokens.len());
                proof {
                    assert(views(args@) =~= views(tokens@).skip(2));
                }
                proof {
                    assert(mod_fold(lv, (index + 1) as nat) == Ok::<ModState, ModuleFault>(
                        (name@, ctx@, start as int, views(args@), data.view().map_values(|m: ModuleMethod| m.view())),
                    ));
                }
            } else {
                proof {
                    lemma_fold_err_stays(lv, (index + 1) as nat, lines@.len());
                }
                return Err(ModuleError::Unknown(tokens[0].clone()));
            }
        } else {
            if str_eq(caller, end) {
                let code = clone_lines(lines, start, index);
                let method = ModuleMethod { args: clone_strings(&args, 0, args.len()), code };
                proof {
                    assert(args@.subrange(0, args@.len() as int) =~= args@);
                }
                let ghost prev = data.view();
                data.insert(ctx, method);
                proof {
                    assert(data.view().map_values(|m: ModuleMethod| m.view()) =~= prev.map_values(
                        |m: ModuleMethod| m.view(),
                    ).insert(ctx@, method.view()));
                }
                ctx = String::new();
                proof {
                    assert(lv.subrange(start as int, index as int) == lines_view(method.code@));
                }
                proof {
                    assert(mod_fold(lv, (index + 1) as nat) == Ok::<ModState, ModuleFault>(
                        (name@, ctx@, start as int, views(args@), data.view().map_values(|m: ModuleMethod| m.view())),
                    ));
                }
            } else {
                proof {
                    assert(mod_fold(lv, (index + 1) as nat) == Ok::<ModState, ModuleFault>(
                        (name@, ctx@, start as int, views(args@), data.view().map_values(|m: ModuleMethod| m.view())),
                    ));
                }
            }
        }
        index = index + 1;
    }
    Ok(ParsedTokenTree { name, data })
}

pub proof fn lemma_fold_err_stays(lines: Seq<Seq<Seq<char>>>, n: nat, m: nat)
    requires
        n <= m,
        mod_fold(lines, n) is Err,
    ensures
        mod_fold(lines, m) == mod_fold(lines, n),
    decreases m - n,
{
    if n < m {
        lemma_fold_err_stays(lines, n, (m - 1) as nat);
    }
}

/// The methods of a module, each as its parameters and body.
pub open spec fn methods_view(d: Dict<ModuleMethod>) -> Map<Seq<char>, (Seq<Seq<char>>, Seq<Seq<Seq<char>>>)> {
    d.view().map_values(|m: ModuleMethod| m.view())
}

proof fn lemma_methods_entries(a: Seq<(String, ModuleMethod)>, b: Seq<(String, ModuleMethod)>)
    requires
        a.len() == b.len(),
        forall|i: int| 0 <= i < a.len() ==> (#[trigger] a[i]).0@ == b[i].0@ && a[i].1.view() == b[i].1.view(),
    ensures
        entries_map(a).map_values(|m: ModuleMethod| m.view()) == entries_map(b).map_values(
            |m: ModuleMethod| m.view(),
        ),
        keys_distinct(a) == keys_distinct(b),
    decreases a.len(),
{
    if a.len() > 0 {
        let ta = a.drop_first();
        let tb = b.drop_first();
        assert forall|i: int| 0 <= i < ta.len() implies (#[trigger] ta[i]).0@ == tb[i].0@ && ta[i].1.view()
            == tb[i].1.view() by {
            assert(ta[i] == a[i + 1]);
            assert(tb[i] == b[i + 1]);
        }
        lemma_methods_entries(ta, tb);
        assert(a[0].0@ == b[0].0@);
        let ma = entries_map(ta);
        let mb = entries_map(tb);
        let k = a[0].0@;
        assert(entries_map(a) == ma.insert(k, a[0].1));
        assert(entries_map(b) == mb.insert(k, b[0].1));
        assert(ma.insert(k, a[0].1).map_values(|m: ModuleMethod| m.view()) =~= ma.map_values(
            |m: ModuleMethod| m.view(),
        ).insert(k, a[0].1.view()));
        assert(mb.insert(k, b[0].1).map_values(|m: ModuleMethod| m.view()) =~= mb.map_values(
            |m: ModuleMethod| m.view(),
        ).insert(k, b[0].1.view()));
    }
    assert(keys_distinct(a) == keys_distinct(b)) by {
        if keys_distinct(a) {
            assert forall|i: int, j: int| 0 <= i < j < b.len() implies b[i].0@ != b[j].0@ by {
                assert(a[i].0@ == b[i].0@);
                assert(a[j].0@ == b[j].0@);
            }
        }
        if keys_distinct(b) {
            assert forall|i: int, j: int| 0 <= i < j < a.len() implies a[i].0@ != a[j].0@ by {
                assert(a[i].0@ == b[i].0@);
                assert(a[j].0@ == b[j].0@);
            }
        }
    }
}

/// Copies a method.
pub fn clone_method(m: &ModuleMethod) -> (r: ModuleMethod)
    ensures
        r.view() == m.view(),
{
    let args = clone_strings(&m.args, 0, m.args.len());
    let code = clone_lines(&m.code, 0, m.code.len());
    proof {
        assert(args@ =~= m.args@);
        assert(lines_view(code@) =~= lines_view(m.code@));
    }
    ModuleMethod { args, code }
}

/// Copies the methods of a module.
pub fn clone_methods(d: &Dict<ModuleMethod>) -> (r: Dict<ModuleMethod>)
    ensures
        methods_view(r) == methods_view(*d),
        r.wf() == d.wf(),
{
    let entries = d.entries();
    let mut out: Vec<(String, ModuleMethod)> = Vec::new();
    let mut i: usize = 0;
    while i < entries.len()
        invariant
            i <= entries@.len(),
            out@.len() == i,
            forall|j: int|
                0 <= j < i ==> (#[trigger] out@[j]).0@ == entries@[j].0@ && out@[j].1.view()
                    == entries@[j].1.view(),
        decreases entries@.len() - i,
    {
        let k = entries[i].0.clone();
        let m = clone_method(&entries[i].1);
        out.push((k, m));
        i = i + 1;
    }
    proof {
        lemma_methods_entries(out@, entries@);
    }
    Dict::from_entries(out)
}

} // verus!

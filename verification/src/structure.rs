use vstd::prelude::*;
use crate::dict::Dict;
use crate::parser::{
    lines_view, mod_fold, parse_lead_module, ModState, ModuleError, ModuleFault, ModuleMethod,
};
use crate::text::{
    ends_with, has_prefix, has_suffix, split_pat, split_str, starts_with, trim, trim_spec, views,
};

verus! {

/// The code of one source file of a Lead program.
pub enum LeadCode {
    /// A Lead module: its methods by name.
    LeadModule(Dict<ModuleMethod>),
    /// Lead code: its lines, each split into tokens.
    Code(Vec<Vec<String>>),
}

/// `LeadCode` as character sequences.
pub enum CodeView {
    LeadModule(Map<Seq<char>, (Seq<Seq<char>>, Seq<Seq<Seq<char>>>)>),
    Code(Seq<Seq<Seq<char>>>),
}

impl LeadCode {
    pub open spec fn wf(self) -> bool {
        match self {
            LeadCode::LeadModule(d) => d.wf(),
            LeadCode::Code(_) => true,
        }
    }

    pub open spec fn view(self) -> CodeView {
        match self {
            LeadCode::LeadModule(d) => CodeView::LeadModule(
                d.view().map_values(|m: ModuleMethod| m.view()),
            ),
            LeadCode::Code(l) => CodeView::Code(lines_view(l@)),
        }
    }
}

/// A newline.
pub open spec fn newline() -> Seq<char> {
    seq!['\n']
}

/// A space.
pub open spec fn space() -> Seq<char> {
    seq![' ']
}

/// `#`
pub open spec fn hash_mark() -> Seq<char> {
    seq!['#']
}

/// `.mod.pb`
pub open spec fn module_suffix() -> Seq<char> {
    seq!['.', 'm', 'o', 'd', '.', 'p', 'b']
}

/// `:entry`
pub open spec fn entry_key() -> Seq<char> {
    seq![':', 'e', 'n', 't', 'r', 'y']
}

/// The lines of `raw`, trimmed, without the empty ones (and, when
/// `skip_comments`, without those that begin with `#`), each split at spaces.
pub open spec fn kept_lines(raw: Seq<Seq<char>>, skip_comments: bool) -> Seq<Seq<Seq<char>>>
    decreases raw.len(),
{
    if raw.len() == 0 {
        Seq::empty()
    } else {
        let prev = kept_lines(raw.drop_last(), skip_comments);
        let t = trim_spec(raw.last());
        if t.len() > 0 && !(skip_comments && has_prefix(t, hash_mark())) {
            prev.push(split_pat(t, space()))
        } else {
            prev
        }
    }
}

/// The token lines of a source text: what `lines()`, `trim` and `split(" ")`
/// give, without empty lines and, for code, without comment lines. (`lines`
/// differs from splitting at `\n` only in a trailing `\r` and a last empty
/// line, which trimming and dropping empty lines remove either way.)
pub open spec fn source_lines_spec(code: Seq<char>, skip_comments: bool) -> Seq<Seq<Seq<char>>> {
    kept_lines(split_pat(code, newline()), skip_comments)
}

/// Splits a source text into its token lines.
pub fn source_lines(code: &str, skip_comments: bool) -> (r: Vec<Vec<String>>)
    ensures
        lines_view(r@) == source_lines_spec(code@, skip_comments),
{
    let nl = "\n";
    let sp = " ";
    let hash = "#";
    proof {
        reveal_strlit("\n");
        reveal_strlit(" ");
        reveal_strlit("#");
        assert(nl@ =~= newline());
        assert(sp@ =~= space());
        assert(hash@ =~= hash_mark());
    }
    let raw = split_str(code, nl);
    let ghost rv = views(raw@);
    let mut out: Vec<Vec<String>> = Vec::new();
    let mut i: usize = 0;
    proof {
        assert(rv.take(0) =~= Seq::<Seq<char>>::empty());
        assert(lines_view(out@) =~= Seq::<Seq<Seq<char>>>::empty());
    }
    while i < raw.len()
        invariant
            i <= raw@.len(),
            rv == views(raw@),
            rv == split_pat(code@, newline()),
            sp@ == space(),
            hash@ == hash_mark(),
            lines_view(out@) == kept_lines(rv.take(i as int), skip_comments),
        decreases raw@.len() - i,
    {
        let t = trim(raw[i].as_str());
        proof {
            assert(rv.take(i + 1).drop_last() =~= rv.take(i as int));
            assert(rv.take(i + 1).last() == raw@[i as int]@);
        }
        if t.unicode_len() > 0 && !(skip_comments && starts_with(t, hash)) {
            let toks = split_str(t, sp);
            let ghost prev = out@;
            out.push(toks);
            proof {
                assert(lines_view(out@) =~= lines_view(prev).push(views(toks@)));
            }
        }
        i = i + 1;
    }
    proof {
        assert(rv.take(raw@.len() as int) =~= rv);
    }
    out
}

/// The structure of a program after its first `n` files: each file's code
/// by name, the entry file under `:entry`; a file whose name ends in
/// `.mod.pb` is a Lead module.
pub open spec fn structure_fold(
    entry: Seq<char>,
    files: Seq<(Seq<char>, Seq<char>)>,
    n: nat,
) -> Result<Map<Seq<char>, CodeView>, ModuleFault>
    decreases n,
{
    if n == 0 {
        Ok(Map::empty())
    } else {
        match structure_fold(entry, files, (n - 1) as nat) {
            Err(e) => Err(e),
            Ok(m) => {
                let (file, code) = files[n - 1];
                if has_suffix(file, module_suffix()) {
                    let lines = source_lines_spec(code, false);
                    match mod_fold(lines, lines.len()) {
                        Err(e) => Err(e),
                        Ok(st) => Ok(m.insert(file, CodeView::LeadModule(st.4))),
                    }
                } else {
                    Ok(
                        m.insert(
                            if file == entry {
                                entry_key()
                            } else {
                                file
                            },
                            CodeView::Code(source_lines_spec(code, true)),
                        ),
                    )
                }
            },
        }
    }
}

/// The names and texts of files as character sequences.
pub open spec fn files_view(files: Seq<(String, String)>) -> Seq<(Seq<char>, Seq<char>)> {
    files.map_values(|f: (String, String)| (f.0@, f.1@))
}

/// The code of every file of a program, by file name, with the entry file
/// under `:entry`. Fails where a Lead module does not parse.
pub fn parse(entry_file: &str, files: &Vec<(String, String)>) -> (r: Result<Dict<LeadCode>, ModuleError>)
    ensures
        match structure_fold(entry_file@, files_view(files@), files@.len()) {
            Ok(m) => r matches Ok(d) && d.wf() && (forall|k| #[trigger] d.view().contains_key(k) ==> d.view()[k].wf())
                && d.view().map_values(|c: LeadCode| c.view()) == m,
            Err(f) => r matches Err(e) && e.view() == f,
        },
{
    let ghost fv = files_view(files@);
    let suffix = ".mod.pb";
    let entry_lit = ":entry";
    proof {
        reveal_strlit(".mod.pb");
        reveal_strlit(":entry");
        assert(suffix@ =~= module_suffix());
        assert(entry_lit@ =~= entry_key());
    }
    let mut res: Dict<LeadCode> = Dict::new();
    let mut i: usize = 0;
    proof {
        assert(res.view().map_values(|c: LeadCode| c.view()) =~= Map::empty());
    }
    while i < files.len()
        invariant
            i <= files@.len(),
            fv == files_view(files@),
            suffix@ == module_suffix(),
            entry_lit@ == entry_key(),
            res.wf(),
            forall|k| #[trigger] res.view().contains_key(k) ==> res.view()[k].wf(),
            structure_fold(entry_file@, fv, i as nat) == Ok::<Map<Seq<char>, CodeView>, ModuleFault>(
                res.view().map_values(|c: LeadCode| c.view()),
            ),
        decreases files@.len() - i,
    {
        let file = &files[i].0;
        let code = &files[i].1;
        let ghost prev = res.view();
        proof {
            assert(fv[i as int] == (file@, code@));
        }
        if ends_with(file.as_str(), suffix) {
            let lines = source_lines(code.as_str(), false);
            match parse_lead_module(&lines) {
                Ok(tree) => {
                    let key = file.clone();
                    let ghost methods = tree.data;
                    res.insert(key, LeadCode::LeadModule(tree.data));
                    proof {
                        assert(res.view().map_values(|c: LeadCode| c.view()) =~= prev.map_values(
                            |c: LeadCode| c.view(),
                        ).insert(file@, CodeView::LeadModule(methods.view().map_values(|m: ModuleMethod| m.view()))));
                    }
                },
                Err(e) => {
                    proof {
                        lemma_structure_err_stays(entry_file@, fv, (i + 1) as nat, files@.len());
                    }
                    return Err(e);
                },
            }
        } else {
            let key = if str_eq_string(file, entry_file) {
                String::from_str(entry_lit)
            } else {
                file.clone()
            };
            let lines = source_lines(code.as_str(), true);
            let ghost lv = lines_view(lines@);
            res.insert(key, LeadCode::Code(lines));
            proof {
                assert(res.view().map_values(|c: LeadCode| c.view()) =~= prev.map_values(
                    |c: LeadCode| c.view(),
                ).insert(key@, CodeView::Code(lv)));
            }
        }
        i = i + 1;
    }
    Ok(res)
}

fn str_eq_string(a: &String, b: &str) -> (r: bool)
    ensures
        r == (a@ == b@),
{
    crate::text::str_eq(a.as_str(), b)
}

pub proof fn lemma_structure_err_stays(
    entry: Seq<char>,
    files: Seq<(Seq<char>, Seq<char>)>,
    n: nat,
    m: nat,
)
    requires
        n <= m,
        structure_fold(entry, files, n) is Err,
    ensures
        structure_fold(entry, files, m) == structure_fold(entry, files, n),
    decreases m - n,
{
    if n < m {
        lemma_structure_err_stays(entry, files, n, (m - 1) as nat);
    }
}

} // verus!

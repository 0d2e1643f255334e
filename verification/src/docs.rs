use vstd::prelude::*;
use crate::dict::Dict;
use crate::packages::{lossy_string, utf8_lossy};
use crate::text::{ends_with, has_suffix, split_pat, split_str, str_eq, views};

verus! {

/// `📦 `
pub open spec fn box_mark() -> Seq<char> {
    seq!['\u{1F4E6}', ' ']
}

pub open spec fn core_files() -> Set<Seq<char>> {
    set![
        seq!['l', 'i', 'b', 'l', 'e', 'a', 'd', '_', 'c', 'o', 'r', 'e', '.', 's', 'o'],
        seq!['l', 'e', 'a', 'd', '_', 'c', 'o', 'r', 'e', '.', 'd', 'l', 'l'],
        seq!['l', 'i', 'b', 'l', 'e', 'a', 'd', '_', 'c', 'o', 'r', 'e', '.', 'd', 'y', 'l', 'i', 'b'],
    ]
}

pub open spec fn std_files() -> Set<Seq<char>> {
    set![
        seq!['l', 'i', 'b', 'l', 'e', 'a', 'd', '_', 's', 't', 'd', '.', 's', 'o'],
        seq!['l', 'e', 'a', 'd', '_', 's', 't', 'd', '.', 'd', 'l', 'l'],
        seq!['l', 'i', 'b', 'l', 'e', 'a', 'd', '_', 's', 't', 'd', '.', 'd', 'y', 'l', 'i', 'b'],
    ]
}

/// How a library file is shown: the two bundled libraries by name, any
/// other file as itself, each behind a package mark.
pub open spec fn display_spec(a: Seq<char>) -> Seq<char> {
    if core_files().contains(a) {
        box_mark() + seq!['L', 'e', 'a', 'd', ' ', 'C', 'o', 'r', 'e']
    } else if std_files().contains(a) {
        box_mark() + seq!['L', 'e', 'a', 'd', ' ', 'S', 't', 'd']
    } else {
        box_mark() + a
    }
}

/// Every library is shown behind the package mark.
pub proof fn law_display_marked(a: Seq<char>)
    ensures
        display_spec(a).take(2) == box_mark(),
{
    assert((box_mark() + seq!['L', 'e', 'a', 'd', ' ', 'C', 'o', 'r', 'e']).take(2) =~= box_mark());
    assert((box_mark() + seq!['L', 'e', 'a', 'd', ' ', 'S', 't', 'd']).take(2) =~= box_mark());
    assert((box_mark() + a).take(2) =~= box_mark());
}

/// How the library file `a` is shown in the documentation browser.
pub fn get_display(a: &str) -> (r: String)
    ensures
        r@ == display_spec(a@),
{
    let c1 = "liblead_core.so";
    let c2 = "lead_core.dll";
    let c3 = "liblead_core.dylib";
    let s1 = "liblead_std.so";
    let s2 = "lead_std.dll";
    let s3 = "liblead_std.dylib";
    let mark = "\u{1F4E6} ";
    proof {
        reveal_strlit("liblead_core.so");
        reveal_strlit("lead_core.dll");
        reveal_strlit("liblead_core.dylib");
        reveal_strlit("liblead_std.so");
        reveal_strlit("lead_std.dll");
        reveal_strlit("liblead_std.dylib");
        reveal_strlit("\u{1F4E6} ");
        assert(mark@ =~= box_mark());
        assert(c1@ =~= seq!['l', 'i', 'b', 'l', 'e', 'a', 'd', '_', 'c', 'o', 'r', 'e', '.', 's', 'o']);
        assert(c2@ =~= seq!['l', 'e', 'a', 'd', '_', 'c', 'o', 'r', 'e', '.', 'd', 'l', 'l']);
        assert(c3@ =~= seq!['l', 'i', 'b', 'l', 'e', 'a', 'd', '_', 'c', 'o', 'r', 'e', '.', 'd', 'y', 'l', 'i', 'b']);
        assert(s1@ =~= seq!['l', 'i', 'b', 'l', 'e', 'a', 'd', '_', 's', 't', 'd', '.', 's', 'o']);
        assert(s2@ =~= seq!['l', 'e', 'a', 'd', '_', 's', 't', 'd', '.', 'd', 'l', 'l']);
        assert(s3@ =~= seq!['l', 'i', 'b', 'l', 'e', 'a', 'd', '_', 's', 't', 'd', '.', 'd', 'y', 'l', 'i', 'b']);
    }
    if str_eq(a, c1) || str_eq(a, c2) || str_eq(a, c3) {
        let core = "\u{1F4E6} Lead Core";
        proof {
            reveal_strlit("\u{1F4E6} Lead Core");
            assert(core@ =~= box_mark() + seq!['L', 'e', 'a', 'd', ' ', 'C', 'o', 'r', 'e']);
        }
        String::from_str(core)
    } else if str_eq(a, s1) || str_eq(a, s2) || str_eq(a, s3) {
        let std_name = "\u{1F4E6} Lead Std";
        proof {
            reveal_strlit("\u{1F4E6} Lead Std");
            assert(std_name@ =~= box_mark() + seq!['L', 'e', 'a', 'd', ' ', 'S', 't', 'd']);
            assert(!core_files().contains(a@));
        }
        String::from_str(std_name)
    } else {
        proof {
            assert(!core_files().contains(a@));
            assert(!std_files().contains(a@));
        }
        String::from_str(mark).concat(a)
    }
}

/// A library that the documentation browser offers: how it is shown, and
/// the file it is loaded from.
pub struct PackageEntry {
    pub display: String,
    pub file: String,
}

/// The entry of a library `file` bundled with the Lead version `version`
/// installed in `home`.
pub fn lib_entry(home: &str, version: &str, file: &str) -> (r: PackageEntry)
    ensures
        r.display@ == display_spec(file@),
        r.file@ == home@ + seq!['/', 'v', 'e', 'r', 's', 'i', 'o', 'n', 's', '/'] + version@ + seq![
            '/',
            'l',
            'i',
            'b',
            '/',
        ] + file@,
{
    let versions = "/versions/";
    let lib = "/lib/";
    proof {
        reveal_strlit("/versions/");
        reveal_strlit("/lib/");
        assert(versions@ =~= seq!['/', 'v', 'e', 'r', 's', 'i', 'o', 'n', 's', '/']);
        assert(lib@ =~= seq!['/', 'l', 'i', 'b', '/']);
    }
    let path = String::from_str(home).concat(versions).concat(version).concat(lib).concat(file);
    PackageEntry { display: get_display(file), file: path }
}

/// `./.lead_libs/`
pub open spec fn ws_root() -> Seq<char> {
    seq!['.', '/', '.', 'l', 'e', 'a', 'd', '_', 'l', 'i', 'b', 's', '/']
}

/// The file that names the library of the workspace package in `dir`.
pub fn lookup_path(dir: &str) -> (r: String)
    ensures
        r@ == ws_root() + dir@ + seq![
            '/',
            'l',
            'e',
            'a',
            'd',
            '.',
            'l',
            'o',
            'o',
            'k',
            'u',
            'p',
            '.',
            'l',
            'k',
            'p',
        ],
{
    let root = "./.lead_libs/";
    let tail = "/lead.lookup.lkp";
    proof {
        reveal_strlit("./.lead_libs/");
        reveal_strlit("/lead.lookup.lkp");
        assert(root@ =~= ws_root());
        assert(tail@ =~= seq!['/', 'l', 'e', 'a', 'd', '.', 'l', 'o', 'o', 'k', 'u', 'p', '.', 'l', 'k', 'p']);
    }
    String::from_str(root).concat(dir).concat(tail)
}

/// The entry of the workspace package in `dir`, whose library is named
/// `lookup`, with the platform's library prefix and suffix.
pub fn ws_entry(dir: &str, lookup: &str, prefix: &str, suffix: &str) -> (r: PackageEntry)
    ensures
        r.display@ == display_spec(dir@),
        r.file@ == ws_root() + dir@ + seq!['/'] + prefix@ + lookup@ + suffix@,
{
    let root = "./.lead_libs/";
    let slash = "/";
    proof {
        reveal_strlit("./.lead_libs/");
        reveal_strlit("/");
        assert(root@ =~= ws_root());
        assert(slash@ =~= seq!['/']);
    }
    let path = String::from_str(root).concat(dir).concat(slash).concat(prefix).concat(lookup).concat(
        suffix,
    );
    PackageEntry { display: get_display(dir), file: path }
}

/// The libraries that the browser can show.
pub enum Category {
    LeadDefault,
    Workspace,
}

/// The category that the menu entry `sel` selects; `None` for any other
/// entry, which stops the program.
pub fn category_of(sel: &str) -> (r: Option<Category>)
    ensures
        sel@ == seq!['\u{1F4DA}', ' ', 'L', 'e', 'a', 'd', ' ', 'D', 'e', 'f', 'a', 'u', 'l', 't']
            ==> r matches Some(Category::LeadDefault),
        sel@ == seq!['\u{2692}', '\u{FE0F}', ' ', ' ', 'W', 'o', 'r', 'k', 's', 'p', 'a', 'c', 'e']
            ==> r matches Some(Category::Workspace),
        sel@ != seq!['\u{1F4DA}', ' ', 'L', 'e', 'a', 'd', ' ', 'D', 'e', 'f', 'a', 'u', 'l', 't']
            && sel@ != seq!['\u{2692}', '\u{FE0F}', ' ', ' ', 'W', 'o', 'r', 'k', 's', 'p', 'a', 'c', 'e']
            ==> r is None,
{
    let d = "\u{1F4DA} Lead Default";
    let w = "\u{2692}\u{FE0F}  Workspace";
    proof {
        reveal_strlit("\u{1F4DA} Lead Default");
        reveal_strlit("\u{2692}\u{FE0F}  Workspace");
        assert(d@ =~= seq!['\u{1F4DA}', ' ', 'L', 'e', 'a', 'd', ' ', 'D', 'e', 'f', 'a', 'u', 'l', 't']);
        assert(w@ =~= seq!['\u{2692}', '\u{FE0F}', ' ', ' ', 'W', 'o', 'r', 'k', 's', 'p', 'a', 'c', 'e']);
    }
    if str_eq(sel, d) {
        Some(Category::LeadDefault)
    } else if str_eq(sel, w) {
        Some(Category::Workspace)
    } else {
        None
    }
}

/// Where the browser stands: at the list of packages (level 0) or inside
/// the package `root` (level 1).
pub struct NavState {
    pub level: u8,
    pub root: Option<String>,
}

/// `..`
pub open spec fn up_entry() -> Seq<char> {
    seq!['.', '.']
}

/// `❌ Quit`
pub open spec fn quit_entry() -> Seq<char> {
    seq!['\u{274C}', ' ', 'Q', 'u', 'i', 't']
}

/// The keys of a dictionary, in its order.
pub open spec fn keys_of<V>(d: Dict<V>) -> Seq<Seq<char>> {
    d.entries_seq().map_values(|e: (String, V)| e.0@)
}

fn key_list<V>(d: &Dict<V>) -> (r: Vec<String>)
    ensures
        views(r@) == keys_of(*d),
{
    let es = d.entries();
    let mut out: Vec<String> = Vec::new();
    let mut i: usize = 0;
    while i < es.len()
        invariant
            i <= es@.len(),
            es@ == d.entries_seq(),
            views(out@) == keys_of(*d).take(i as int),
        decreases es@.len() - i,
    {
        let ghost prev = out@;
        out.push(es[i].0.clone());
        proof {
            assert(views(out@) =~= views(prev).push(es@[i as int].0@));
            assert(keys_of(*d)[i as int] == es@[i as int].0@);
            assert(keys_of(*d).take(i + 1) =~= keys_of(*d).take(i as int).push(keys_of(*d)[i as int]));
        }
        i = i + 1;
    }
    proof {
        assert(keys_of(*d).take(i as int) =~= keys_of(*d));
    }
    out
}

/// The entries that the browser offers in the state `st`: the packages at
/// level 0, `..` and the documented items of the package at level 1, and
/// `❌ Quit` last. `None` where the browser stops: at another level, or
/// for a package that the documentation lacks.
pub fn nav_choices(doc: &Dict<Dict<String>>, st: &NavState) -> (r: Option<Vec<String>>)
    ensures
        st.level == 0 ==> (r matches Some(c) && views(c@) == keys_of(*doc).push(quit_entry())),
        st.level == 1 ==> match st.root {
            Some(root) => if doc.view().contains_key(root@) {
                r matches Some(c) && views(c@) == seq![up_entry()] + keys_of(doc.view()[root@]).push(
                    quit_entry(),
                )
            } else {
                r is None
            },
            None => r is None,
        },
        st.level > 1 ==> r is None,
{
    let up = "..";
    let quit = "\u{274C} Quit";
    proof {
        reveal_strlit("..");
        reveal_strlit("\u{274C} Quit");
        assert(up@ =~= up_entry());
        assert(quit@ =~= quit_entry());
    }
    if st.level == 0 {
        let mut c = key_list(doc);
        let ghost prev = c@;
        c.push(String::from_str(quit));
        proof {
            assert(views(c@) =~= views(prev).push(quit_entry()));
        }
        Some(c)
    } else if st.level == 1 {
        let root = match &st.root {
            Some(r) => r,
            None => return None,
        };
        let inner = match doc.get(root.as_str()) {
            Some(d) => d,
            None => return None,
        };
        let keys = key_list(inner);
        let mut c: Vec<String> = Vec::new();
        c.push(String::from_str(up));
        let mut i: usize = 0;
        while i < keys.len()
            invariant
                i <= keys@.len(),
                views(c@) == seq![up_entry()] + views(keys@).take(i as int),
            decreases keys@.len() - i,
        {
            let ghost prev = c@;
            c.push(keys[i].clone());
            proof {
                assert(views(c@) =~= views(prev).push(keys@[i as int]@));
                assert(views(keys@).take(i + 1) =~= views(keys@).take(i as int).push(keys@[i as int]@));
                assert(views(c@) =~= seq![up_entry()] + views(keys@).take(i + 1));
            }
            i = i + 1;
        }
        let ghost before = c@;
        c.push(String::from_str(quit));
        proof {
            assert(views(keys@).take(i as int) =~= views(keys@));
            assert(views(c@) =~= views(before).push(quit_entry()));
            assert(views(c@) =~= seq![up_entry()] + keys_of(*inner).push(quit_entry()));
        }
        Some(c)
    } else {
        None
    }
}

/// What a selection in the browser leads to.
pub enum NavOutcome {
    /// Browse on, in this state.
    Continue(NavState),
    /// Leave the browser.
    Quit,
    /// The documented item was chosen.
    Chosen(String),
}

/// The browser after the entry `sel` was selected in the state `st`: `..`
/// goes up a level, `❌ Quit` leaves, any other entry goes down into it.
/// `None` where the browser stops: going up from the top, or down past
/// the second level.
pub fn nav_select(st: NavState, sel: &str) -> (r: Option<NavOutcome>)
    ensures
        sel@ == up_entry() ==> if st.level == 0 {
            r is None
        } else {
            r matches Some(NavOutcome::Continue(n)) && n.level == st.level - 1 && n.root == st.root
        },
        sel@ != up_entry() && sel@ == quit_entry() ==> r matches Some(NavOutcome::Quit),
        sel@ != up_entry() && sel@ != quit_entry() ==> if st.level == 0 {
            r matches Some(NavOutcome::Continue(n)) && n.level == 1 && (n.root matches Some(x) && x@
                == sel@)
        } else if st.level == 1 {
            r matches Some(NavOutcome::Chosen(x)) && x@ == sel@
        } else {
            r is None
        },
{
    let up = "..";
    let quit = "\u{274C} Quit";
    proof {
        reveal_strlit("..");
        reveal_strlit("\u{274C} Quit");
        assert(up@ =~= up_entry());
        assert(quit@ =~= quit_entry());
    }
    if str_eq(sel, up) {
        if st.level == 0 {
            None
        } else {
            Some(NavOutcome::Continue(NavState { level: st.level - 1, root: st.root }))
        }
    } else if str_eq(sel, quit) {
        Some(NavOutcome::Quit)
    } else if st.level == 0 {
        Some(NavOutcome::Continue(NavState { level: 1, root: Some(String::from_str(sel)) }))
    } else if st.level == 1 {
        Some(NavOutcome::Chosen(String::from_str(sel)))
    } else {
        None
    }
}

/// A package's documentation: each documented item with its three lines.
pub type ItemDocs = Vec<(String, (String, String, String))>;

/// The documentation of the packages of a library, by package name: each
/// item with the third line of its documentation.
pub open spec fn docs_fold(pkgs: Seq<(Vec<u8>, ItemDocs)>) -> Map<Seq<char>, Map<Seq<char>, Seq<char>>>
    decreases pkgs.len(),
{
    if pkgs.len() == 0 {
        Map::empty()
    } else {
        docs_fold(pkgs.drop_last()).insert(
            utf8_lossy(pkgs.last().0@),
            item_docs(pkgs.last().1@),
        )
    }
}

/// Each item with the third line of its documentation; a later item of the
/// same name replaces an earlier one.
pub open spec fn item_docs(items: Seq<(String, (String, String, String))>) -> Map<Seq<char>, Seq<char>>
    decreases items.len(),
{
    if items.len() == 0 {
        Map::empty()
    } else {
        item_docs(items.drop_last()).insert(items.last().0@, items.last().1.2@)
    }
}

/// The documentation as maps of characters.
pub open spec fn docs_view(d: Dict<Dict<String>>) -> Map<Seq<char>, Map<Seq<char>, Seq<char>>> {
    d.view().map_values(|inner: Dict<String>| inner.view().map_values(|s: String| s@))
}

fn item_dict(items: &ItemDocs) -> (r: Dict<String>)
    ensures
        r.view().map_values(|s: String| s@) == item_docs(items@),
{
    let mut d: Dict<String> = Dict::new();
    let mut i: usize = 0;
    proof {
        assert(d.view().map_values(|s: String| s@) =~= item_docs(items@.take(0)));
    }
    while i < items.len()
        invariant
            i <= items@.len(),
            d.view().map_values(|s: String| s@) == item_docs(items@.take(i as int)),
        decreases items@.len() - i,
    {
        let ghost prev = d.view();
        d.insert(items[i].0.clone(), items[i].1.2.clone());
        proof {
            assert(items@.take(i + 1).drop_last() =~= items@.take(i as int));
            assert(d.view().map_values(|s: String| s@) =~= prev.map_values(|s: String| s@).insert(
                items@[i as int].0@,
                items@[i as int].1.2@,
            ));
        }
        i = i + 1;
    }
    proof {
        assert(items@.take(i as int) =~= items@);
    }
    d
}

/// Gathers the documentation of the packages of a library: by package
/// name (its bytes, decoded), each item with the third line of its
/// documentation.
pub fn package_docs(pkgs: &Vec<(Vec<u8>, ItemDocs)>) -> (r: Dict<Dict<String>>)
    ensures
        docs_view(r) == docs_fold(pkgs@),
{
    let mut d: Dict<Dict<String>> = Dict::new();
    let mut i: usize = 0;
    proof {
        assert(docs_view(d) =~= docs_fold(pkgs@.take(0)));
    }
    while i < pkgs.len()
        invariant
            i <= pkgs@.len(),
            docs_view(d) == docs_fold(pkgs@.take(i as int)),
        decreases pkgs@.len() - i,
    {
        let name = lossy_string(pkgs[i].0.as_slice());
        let inner = item_dict(&pkgs[i].1);
        let ghost prev = d.view();
        let ghost iv = inner.view().map_values(|s: String| s@);
        d.insert(name, inner);
        proof {
            assert(pkgs@.take(i + 1).drop_last() =~= pkgs@.take(i as int));
            assert(docs_view(d) =~= prev.map_values(
                |inner: Dict<String>| inner.view().map_values(|s: String| s@),
            ).insert(utf8_lossy(pkgs@[i as int].0@), iv));
        }
        i = i + 1;
    }
    proof {
        assert(pkgs@.take(i as int) =~= pkgs@);
    }
    d
}

/// `.md`
pub open spec fn md_suffix() -> Seq<char> {
    seq!['.', 'm', 'd']
}

/// What `str::replace(from, to)` gives: `s` with every occurrence of the
/// non-empty `from` replaced by `to`.
pub open spec fn replace_spec(s: Seq<char>, from: Seq<char>, to: Seq<char>) -> Seq<char> {
    join_spec(split_pat(s, from), to)
}

/// The pieces `p` joined by `sep`.
pub open spec fn join_spec(p: Seq<Seq<char>>, sep: Seq<char>) -> Seq<char>
    decreases p.len(),
{
    if p.len() == 0 {
        Seq::empty()
    } else if p.len() == 1 {
        p[0]
    } else {
        join_spec(p.drop_last(), sep) + sep + p.last()
    }
}

/// `s.replace(from, to)` for a non-empty `from`.
pub fn replace(s: &str, from: &str, to: &str) -> (r: String)
    requires
        from@.len() > 0,
    ensures
        r@ == replace_spec(s@, from@, to@),
{
    let parts = split_str(s, from);
    let ghost pv = views(parts@);
    let mut out = String::new();
    let mut i: usize = 0;
    proof {
        assert(out@ =~= join_spec(pv.take(0), to@));
    }
    while i < parts.len()
        invariant
            i <= parts@.len(),
            pv == views(parts@),
            out@ == join_spec(pv.take(i as int), to@),
        decreases parts@.len() - i,
    {
        proof {
            assert(pv.take(i + 1).drop_last() =~= pv.take(i as int));
            assert(pv.take(i + 1).last() == parts@[i as int]@);
        }
        if i > 0 {
            out.append(to);
        }
        out.append(parts[i].as_str());
        proof {
            if i == 0 {
                assert(out@ =~= join_spec(pv.take(1), to@));
            }
        }
        i = i + 1;
    }
    proof {
        assert(pv.take(i as int) =~= pv);
    }
    out
}

/// The path elements, below the Lead home, of the documentation file `file`
/// of the package `own`.
pub open spec fn file_parts(own: Seq<char>, file: Seq<char>, is_base: bool) -> Seq<Seq<char>> {
    let f = if is_base {
        replace_spec(file, seq!['.', '/', 'd', 'o', 'c', 's'], seq!['.', '/'])
    } else {
        file
    };
    let last = if has_suffix(f, md_suffix()) {
        f
    } else {
        f + md_suffix()
    };
    if is_base {
        seq![seq!['d', 'o', 'c', 's'], own, last]
    } else {
        seq![last]
    }
}

/// The path, below the Lead home, of the documentation file `file` of the
/// package `own`: under `docs/own` for the bundled documentation (with
/// `./docs` replaced by `./` in the file's name), and with `.md` added
/// where the name lacks it. Each element is pushed onto the home path in turn.
pub fn get_file(own: &str, file: &str, is_base: bool) -> (r: Vec<String>)
    ensures
        views(r@) == file_parts(own@, file@, is_base),
{
    let docs_dir = "./docs";
    let dot_slash = "./";
    let docs = "docs";
    let md = ".md";
    proof {
        reveal_strlit("./docs");
        reveal_strlit("./");
        reveal_strlit("docs");
        reveal_strlit(".md");
        assert(docs_dir@ =~= seq!['.', '/', 'd', 'o', 'c', 's']);
        assert(dot_slash@ =~= seq!['.', '/']);
        assert(docs@ =~= seq!['d', 'o', 'c', 's']);
        assert(md@ =~= md_suffix());
    }
    let mut out: Vec<String> = Vec::new();
    let f = if is_base {
        out.push(String::from_str(docs));
        out.push(String::from_str(own));
        replace(file, docs_dir, dot_slash)
    } else {
        String::from_str(file)
    };
    let last = if ends_with(f.as_str(), md) {
        f
    } else {
        f.concat(md)
    };
    let ghost prev = out@;
    out.push(last);
    proof {
        assert(views(out@) =~= views(prev).push(last@));
    }
    out
}

/// Where the documentation browser looks for libraries.
#[derive(Clone, Copy)]
pub enum ApplicationRoot {
    LeadHome,
    Workspace,
}

/// A documented method.
pub struct Method {
    pub name: String,
    pub desc: String,
}

/// The documentation of a module.
pub struct LeadModule {
    pub name: String,
    pub own: String,
    pub methods: Vec<Method>,
}

/// Why references to documentation are refused; each one stops the program.
pub enum ModuleRefError {
    /// A package reference that is not `module->file`.
    BadPackage(String),
    /// A method reference that is not `key->module->file`.
    BadMethod(String),
}

/// `->`
pub open spec fn arrow() -> Seq<char> {
    seq!['-', '>']
}

impl LeadModule {
    /// Reads the references to documentation of the package `own`: each
    /// package reference `module->file` names a documentation file, whose
    /// path elements below the Lead home are given in order; each method
    /// reference must read `key->module->file`. No module is assembled yet.
    pub fn new(own: &str, refs: &Vec<String>, pkgs: &Vec<String>, base: bool) -> (r: Result<
        (Vec<LeadModule>, Vec<Vec<String>>),
        ModuleRefError,
    >)
        ensures
            match r {
                Ok((mods, files)) => {
                    &&& mods@.len() == 0
                    &&& files@.len() == pkgs@.len()
                    &&& forall|i: int| 0 <= i < pkgs@.len() ==> views(#[trigger] files@[i]@) == file_parts(
                        own@,
                        split_pat(pkgs@[i]@, arrow())[1],
                        base,
                    )
                    &&& forall|i: int| 0 <= i < pkgs@.len() ==> split_pat(#[trigger] pkgs@[i]@, arrow()).len() == 2
                    &&& forall|i: int| 0 <= i < refs@.len() ==> split_pat(#[trigger] refs@[i]@, arrow()).len() == 3
                },
                Err(ModuleRefError::BadPackage(p)) => exists|i: int|
                    0 <= i < pkgs@.len() && pkgs@[i]@ == p@ && split_pat(#[trigger] pkgs@[i]@, arrow()).len() != 2
                        && forall|j: int| 0 <= j < i ==> split_pat(#[trigger] pkgs@[j]@, arrow()).len() == 2,
                Err(ModuleRefError::BadMethod(m)) => (forall|i: int|
                    0 <= i < pkgs@.len() ==> split_pat(#[trigger] pkgs@[i]@, arrow()).len() == 2)
                    && exists|i: int|
                    0 <= i < refs@.len() && refs@[i]@ == m@ && split_pat(#[trigger] refs@[i]@, arrow()).len() != 3
                        && forall|j: int| 0 <= j < i ==> split_pat(#[trigger] refs@[j]@, arrow()).len() == 3,
            },
    {
        let arrow_lit = "->";
        proof {
            reveal_strlit("->");
            assert(arrow_lit@ =~= arrow());
        }
        let mut files: Vec<Vec<String>> = Vec::new();
        let mut i: usize = 0;
        while i < pkgs.len()
            invariant
                i <= pkgs@.len(),
                arrow_lit@ == arrow(),
                files@.len() == i,
                forall|j: int| 0 <= j < i ==> split_pat(#[trigger] pkgs@[j]@, arrow()).len() == 2,
                forall|j: int| 0 <= j < i ==> views(#[trigger] files@[j]@) == file_parts(
                    own@,
                    split_pat(pkgs@[j]@, arrow())[1],
                    base,
                ),
            decreases pkgs@.len() - i,
        {
            let parts = split_str(pkgs[i].as_str(), arrow_lit);
            if parts.len() != 2 {
                proof {
                    assert(split_pat(pkgs@[i as int]@, arrow()).len() != 2);
                }
                return Err(ModuleRefError::BadPackage(pkgs[i].clone()));
            }
            proof {
                assert(views(parts@)[1] == parts@[1]@);
            }
            files.push(get_file(own, parts[1].as_str(), base));
            i = i + 1;
        }
        let mut k: usize = 0;
        while k < refs.len()
            invariant
                k <= refs@.len(),
                arrow_lit@ == arrow(),
                forall|j: int| 0 <= j < pkgs@.len() ==> split_pat(#[trigger] pkgs@[j]@, arrow()).len() == 2,
                files@.len() == pkgs@.len(),
                forall|j: int| 0 <= j < pkgs@.len() ==> views(#[trigger] files@[j]@) == file_parts(
                    own@,
                    split_pat(pkgs@[j]@, arrow())[1],
                    base,
                ),
                forall|j: int| 0 <= j < k ==> split_pat(#[trigger] refs@[j]@, arrow()).len() == 3,
            decreases refs@.len() - k,
        {
            let parts = split_str(refs[k].as_str(), arrow_lit);
            if parts.len() != 3 {
                proof {
                    assert(split_pat(refs@[k as int]@, arrow()).len() != 3);
                }
                return Err(ModuleRefError::BadMethod(refs[k].clone()));
            }
            k = k + 1;
        }
        Ok((Vec::new(), files))
    }
}

/// The pages of the documentation browser, in the order in which they are
/// reached.
#[derive(Clone, Copy, Debug)]
pub enum Page {
    Home,
    SelectPackage,
    OpenPackage,
    SelectMethod,
    ShowDoc,
}

/// The page that `Back` opens from the page at step `step`: none from the
/// first page, which cannot go back (`Err`); `Ok(None)` past the last step,
/// where `Back` does nothing.
pub fn back_page(step: u8) -> (r: Result<Option<Page>, ()>)
    ensures
        step == 0 ==> r is Err,
        step == 1 ==> r == Ok::<Option<Page>, ()>(Some(Page::Home)),
        step == 2 ==> r == Ok::<Option<Page>, ()>(Some(Page::SelectPackage)),
        step == 3 ==> r == Ok::<Option<Page>, ()>(Some(Page::OpenPackage)),
        step == 4 ==> r == Ok::<Option<Page>, ()>(Some(Page::SelectMethod)),
        step == 5 ==> r == Ok::<Option<Page>, ()>(Some(Page::ShowDoc)),
        step > 5 ==> r == Ok::<Option<Page>, ()>(None),
{
    match step {
        0 => Err(()),
        1 => Ok(Some(Page::Home)),
        2 => Ok(Some(Page::SelectPackage)),
        3 => Ok(Some(Page::OpenPackage)),
        4 => Ok(Some(Page::SelectMethod)),
        5 => Ok(Some(Page::ShowDoc)),
        _ => Ok(None),
    }
}

} // verus!

use vstd::prelude::*;
use crate::text::{
    byte_skip, decimal, ends_with, has_suffix, parse_u64, parse_u64_spec, skip_bytes, split_pat, split_str,
    str_eq, u64_to_string, views,
};

verus! {

/// What to do when a package asks for access to the whole heap without
/// being listed as allowed.
#[derive(Clone, Copy, PartialEq, Eq, Structural)]
pub enum FullAccessLevel {
    SilentlyAllow,
    Warn,
    Deny,
}

/// The options of `lead run`.
pub struct LeadOptions {
    pub sysinfo: bool,
    pub monochrome: bool,
    pub full_access: FullAccessLevel,
    pub log: bool,
    pub time: bool,
    pub prod: bool,
}

/// The options before any argument.
pub open spec fn default_options() -> LeadOptions {
    LeadOptions {
        sysinfo: true,
        monochrome: false,
        full_access: FullAccessLevel::Warn,
        log: false,
        time: true,
        prod: false,
    }
}

pub open spec fn lit_prod() -> Seq<char> {
    seq!['-', '-', 'p', 'r', 'o', 'd']
}

pub open spec fn lit_monochrome() -> Seq<char> {
    seq!['-', '-', 'm', 'o', 'n', 'o', 'c', 'h', 'r', 'o', 'm', 'e', '-', 'l', 'o', 'g', 'o']
}

pub open spec fn lit_no_sysinfo() -> Seq<char> {
    seq!['-', '-', 'n', 'o', '-', 's', 'y', 's', 'i', 'n', 'f', 'o']
}

pub open spec fn lit_log() -> Seq<char> {
    seq!['-', '-', 'l', 'o', 'g']
}

pub open spec fn lit_warn() -> Seq<char> {
    seq!['-', '-', 'w', 'a', 'r', 'n', '-', 'f', 'u', 'l', 'l', '-', 'a', 'c', 'c', 'e', 's', 's']
}

pub open spec fn lit_allow() -> Seq<char> {
    seq!['-', '-', 'a', 'l', 'l', 'o', 'w', '-', 'f', 'u', 'l', 'l', '-', 'a', 'c', 'c', 'e', 's', 's']
}

pub open spec fn lit_deny() -> Seq<char> {
    seq!['-', '-', 'd', 'e', 'n', 'y', '-', 'f', 'u', 'l', 'l', '-', 'a', 'c', 'c', 'e', 's', 's']
}

pub open spec fn lit_no_time() -> Seq<char> {
    seq!['-', '-', 'n', 'o', '-', 't', 'i', 'm', 'e']
}

/// The argument `a` is one that `lead run` knows.
pub open spec fn known_option(a: Seq<char>) -> bool {
    a == lit_prod() || a == lit_monochrome() || a == lit_no_sysinfo() || a == lit_log() || a
        == lit_warn() || a == lit_allow() || a == lit_deny() || a == lit_no_time()
}

/// The options after the argument `a`.
pub open spec fn option_step(o: LeadOptions, a: Seq<char>) -> LeadOptions {
    if a == lit_prod() {
        LeadOptions { prod: true, sysinfo: false, log: true, full_access: FullAccessLevel::Deny, ..o }
    } else if a == lit_monochrome() {
        LeadOptions { monochrome: true, ..o }
    } else if a == lit_no_sysinfo() {
        LeadOptions { sysinfo: false, ..o }
    } else if a == lit_log() {
        LeadOptions { log: true, ..o }
    } else if a == lit_warn() {
        LeadOptions { full_access: FullAccessLevel::Warn, ..o }
    } else if a == lit_allow() {
        LeadOptions { full_access: FullAccessLevel::SilentlyAllow, ..o }
    } else if a == lit_deny() {
        LeadOptions { full_access: FullAccessLevel::Deny, ..o }
    } else if a == lit_no_time() {
        LeadOptions { time: false, ..o }
    } else {
        o
    }
}

/// The options after the arguments `args`, in order.
pub open spec fn options_fold(args: Seq<Seq<char>>) -> LeadOptions
    decreases args.len(),
{
    if args.len() == 0 {
        default_options()
    } else {
        option_step(options_fold(args.drop_last()), args.last())
    }
}

/// The arguments that `lead run` does not know, in order.
pub open spec fn unknown_options(args: Seq<Seq<char>>) -> Seq<Seq<char>>
    decreases args.len(),
{
    if args.len() == 0 {
        Seq::empty()
    } else if known_option(args.last()) {
        unknown_options(args.drop_last())
    } else {
        unknown_options(args.drop_last()).push(args.last())
    }
}

/// Reads the arguments of `lead run`: the options they set, and the
/// arguments that are not options, which are reported as unknown.
pub fn parse(args: &Vec<String>) -> (r: (LeadOptions, Vec<String>))
    ensures
        r.0 == options_fold(views(args@)),
        views(r.1@) == unknown_options(views(args@)),
{
    let prod = "--prod";
    let mono = "--monochrome-logo";
    let nosys = "--no-sysinfo";
    let log = "--log";
    let warn = "--warn-full-access";
    let allow = "--allow-full-access";
    let deny = "--deny-full-access";
    let notime = "--no-time";
    proof {
        reveal_strlit("--prod");
        reveal_strlit("--monochrome-logo");
        reveal_strlit("--no-sysinfo");
        reveal_strlit("--log");
        reveal_strlit("--warn-full-access");
        reveal_strlit("--allow-full-access");
        reveal_strlit("--deny-full-access");
        reveal_strlit("--no-time");
        assert(prod@ =~= lit_prod());
        assert(mono@ =~= lit_monochrome());
        assert(nosys@ =~= lit_no_sysinfo());
        assert(log@ =~= lit_log());
        assert(warn@ =~= lit_warn());
        assert(allow@ =~= lit_allow());
        assert(deny@ =~= lit_deny());
        assert(notime@ =~= lit_no_time());
    }
    let mut opt = LeadOptions {
        sysinfo: true,
        monochrome: false,
        full_access: FullAccessLevel::Warn,
        log: false,
        time: true,
        prod: false,
    };
    let mut unknown: Vec<String> = Vec::new();
    let ghost av = views(args@);
    let mut i: usize = 0;
    proof {
        assert(av.take(0) =~= Seq::<Seq<char>>::empty());
    }
    while i < args.len()
        invariant
            i <= args@.len(),
            av == views(args@),
            prod@ == lit_prod(),
            mono@ == lit_monochrome(),
            nosys@ == lit_no_sysinfo(),
            log@ == lit_log(),
            warn@ == lit_warn(),
            allow@ == lit_allow(),
            deny@ == lit_deny(),
            notime@ == lit_no_time(),
            opt == options_fold(av.take(i as int)),
            views(unknown@) == unknown_options(av.take(i as int)),
        decreases args@.len() - i,
    {
        let a = args[i].as_str();
        proof {
            assert(av.take(i + 1).drop_last() =~= av.take(i as int));
            assert(av.take(i + 1).last() == a@);
        }
        if str_eq(a, prod) {
            opt.prod = true;
            opt.sysinfo = false;
            opt.log = true;
            opt.full_access = FullAccessLevel::Deny;
        } else if str_eq(a, mono) {
            opt.monochrome = true;
        } else if str_eq(a, nosys) {
            opt.sysinfo = false;
        } else if str_eq(a, log) {
            opt.log = true;
        } else if str_eq(a, warn) {
            opt.full_access = FullAccessLevel::Warn;
        } else if str_eq(a, allow) {
            opt.full_access = FullAccessLevel::SilentlyAllow;
        } else if str_eq(a, deny) {
            opt.full_access = FullAccessLevel::Deny;
        } else if str_eq(a, notime) {
            opt.time = false;
        } else {
            let ghost prev = unknown@;
            unknown.push(String::from_str(a));
            proof {
                assert(views(unknown@) =~= views(prev).push(a@));
            }
        }
        i = i + 1;
    }
    proof {
        assert(av.take(i as int) =~= av);
    }
    (opt, unknown)
}

/// What a request for access to the whole heap calls for: a notice that an
/// allowed package was granted it (when logging), a warning, or a denial,
/// which ends the program.
pub struct AccessNotice {
    pub info: bool,
    pub warn: bool,
    pub deny: bool,
}

/// Decides on a request of the package `pkg_name` for access to the whole
/// heap, given the packages that the metadata allows.
pub fn full_access_notice(pkg_name: &str, allowed: &Vec<String>, opt: &LeadOptions) -> (r: AccessNotice)
    ensures
        r.info == (views(allowed@).contains(pkg_name@) && opt.log),
        r.warn == (!views(allowed@).contains(pkg_name@) && opt.full_access == FullAccessLevel::Warn),
        r.deny == (!views(allowed@).contains(pkg_name@) && opt.full_access == FullAccessLevel::Deny),
{
    let mut found = false;
    let mut i: usize = 0;
    while i < allowed.len()
        invariant
            i <= allowed@.len(),
            found == exists|j: int| 0 <= j < i && allowed@[j]@ == pkg_name@,
        decreases allowed@.len() - i,
    {
        if str_eq(allowed[i].as_str(), pkg_name) {
            found = true;
        }
        i = i + 1;
    }
    proof {
        if found {
            let j = choose|j: int| 0 <= j < i && allowed@[j]@ == pkg_name@;
            assert(views(allowed@)[j] == pkg_name@);
        }
        if views(allowed@).contains(pkg_name@) {
            let j = choose|j: int| 0 <= j < views(allowed@).len() && views(allowed@)[j] == pkg_name@;
            assert(allowed@[j]@ == pkg_name@);
        }
    }
    let level = opt.full_access;
    AccessNotice {
        info: found && opt.log,
        warn: !found && level == FullAccessLevel::Warn,
        deny: !found && level == FullAccessLevel::Deny,
    }
}

/// A command of the `lead` program.
pub enum LeadCommand {
    /// Run the program in the current directory with these arguments.
    Run(Vec<String>),
    /// Show the documentation, with these arguments.
    Docs(Vec<String>),
    /// Print the help, after reporting an unknown command if there is one.
    Help(Option<String>),
}

pub open spec fn lit_run() -> Seq<char> {
    seq!['r', 'u', 'n']
}

pub open spec fn lit_docs() -> Seq<char> {
    seq!['d', 'o', 'c', 's']
}

pub open spec fn lit_help() -> Seq<char> {
    seq!['h', 'e', 'l', 'p']
}

/// The command that the arguments of `lead` (the program's own path first)
/// ask for; `None` when there is no command, which stops the program.
pub fn lead_command(args: &Vec<String>) -> (r: Option<LeadCommand>)
    ensures
        args@.len() < 2 ==> r is None,
        args@.len() >= 2 ==> {
            let c = args@[1]@;
            let av = views(args@);
            if c == lit_prod() {
                r matches Some(LeadCommand::Run(a)) && views(a@) == av.skip(1)
            } else if c == lit_run() {
                r matches Some(LeadCommand::Run(a)) && views(a@) == av.skip(2)
            } else if c == lit_docs() {
                r matches Some(LeadCommand::Docs(a)) && views(a@) == av.skip(2)
            } else if c == lit_help() {
                r matches Some(LeadCommand::Help(None))
            } else {
                r matches Some(LeadCommand::Help(Some(u))) && u@ == c
            }
        },
{
    if args.len() < 2 {
        return None;
    }
    let c = args[1].as_str();
    let prod = "--prod";
    let run = "run";
    let docs = "docs";
    let help = "help";
    proof {
        reveal_strlit("--prod");
        reveal_strlit("run");
        reveal_strlit("docs");
        reveal_strlit("help");
        assert(prod@ =~= lit_prod());
        assert(run@ =~= lit_run());
        assert(docs@ =~= lit_docs());
        assert(help@ =~= lit_help());
    }
    if str_eq(c, prod) {
        let a = crate::parser::clone_strings(args, 1, args.len());
        proof {
            assert(views(a@) =~= views(args@).skip(1));
        }
        Some(LeadCommand::Run(a))
    } else if str_eq(c, run) {
        let a = crate::parser::clone_strings(args, 2, args.len());
        proof {
            assert(views(a@) =~= views(args@).skip(2));
        }
        Some(LeadCommand::Run(a))
    } else if str_eq(c, docs) {
        let a = crate::parser::clone_strings(args, 2, args.len());
        proof {
            assert(views(a@) =~= views(args@).skip(2));
        }
        Some(LeadCommand::Docs(a))
    } else if str_eq(c, help) {
        Some(LeadCommand::Help(None))
    } else {
        Some(LeadCommand::Help(Some(String::from_str(c))))
    }
}

/// A command of the `leadc` program.
pub enum LeadcCommand {
    Help,
    Unknown(String),
}

/// The command that the arguments of `leadc` ask for: `help` when none.
pub fn leadc_command(args: &Vec<String>) -> (r: LeadcCommand)
    ensures
        if args@.len() > 1 && args@[1]@ != lit_help() {
            r matches LeadcCommand::Unknown(u) && u@ == args@[1]@
        } else {
            r is Help
        },
{
    let help = "help";
    proof {
        reveal_strlit("help");
        assert(help@ =~= lit_help());
    }
    if args.len() > 1 && !str_eq(args[1].as_str(), help) {
        LeadcCommand::Unknown(args[1].clone())
    } else {
        LeadcCommand::Help
    }
}

/// The escape sequences that open an `INFO: ` line.
pub open spec fn info_prefix() -> Seq<char> {
    seq![
        '\u{1b}', '[', '3', '4', 'm', '\u{1b}', '[', '1', 'm', 'I', 'N', 'F', 'O', ':', ' ', '\u{1b}',
        '[', 'm',
    ]
}

/// The escape sequences that open a `WARN: ` line.
pub open spec fn warn_prefix() -> Seq<char> {
    seq![
        '\u{1b}', '[', '3', '3', 'm', '\u{1b}', '[', '1', 'm', 'W', 'A', 'R', 'N', ':', ' ', '\u{1b}',
        '[', 'm',
    ]
}

/// The escape sequences that open an `ERR: ` line.
pub open spec fn error_prefix() -> Seq<char> {
    seq![
        '\u{1b}', '[', '3', '1', 'm', '\u{1b}', '[', '1', 'm', 'E', 'R', 'R', ':', ' ', '\u{1b}', '[',
        'm',
    ]
}

/// The line that reports `msg` as information.
pub fn info(msg: &str) -> (r: String)
    ensures
        r@ == info_prefix() + msg@,
{
    let p = "\u{1b}[34m\u{1b}[1mINFO: \u{1b}[m";
    proof {
        reveal_strlit("\u{1b}[34m\u{1b}[1mINFO: \u{1b}[m");
        assert(p@ =~= info_prefix());
    }
    String::from_str(p).concat(msg)
}

/// The line that reports `msg` as a warning.
pub fn warn(msg: &str) -> (r: String)
    ensures
        r@ == warn_prefix() + msg@,
{
    let p = "\u{1b}[33m\u{1b}[1mWARN: \u{1b}[m";
    proof {
        reveal_strlit("\u{1b}[33m\u{1b}[1mWARN: \u{1b}[m");
        assert(p@ =~= warn_prefix());
    }
    String::from_str(p).concat(msg)
}

/// The two lines that report the error `msg` in `file` before the program ends.
pub fn error(msg: &str, file: &str) -> (r: (String, String))
    ensures
        r.0@ == error_prefix() + msg@,
        r.1@ == error_prefix() + file@,
{
    let p = "\u{1b}[31m\u{1b}[1mERR: \u{1b}[m";
    proof {
        reveal_strlit("\u{1b}[31m\u{1b}[1mERR: \u{1b}[m");
        assert(p@ =~= error_prefix());
    }
    (String::from_str(p).concat(msg), String::from_str(p).concat(file))
}

/// A part of a version number, read as `str::parse` reads it, 0 when it
/// does not read.
pub open spec fn version_part(s: Seq<char>) -> nat {
    match parse_u64_spec(s) {
        Some(v) => v as nat,
        None => 0,
    }
}

/// The build number of a version `major.minor.patch`: major × 1000 +
/// minor × 100 + patch, 0 when the version has another number of parts.
pub open spec fn build_number(version: Seq<char>) -> nat {
    let parts = split_pat(version, seq!['.']);
    if parts.len() != 3 {
        0
    } else {
        version_part(parts[0]) * 1000 + version_part(parts[1]) * 100 + version_part(parts[2])
    }
}

/// The build number of a version; `None` where it exceeds 64 bits.
pub fn gen_build(version: &str) -> (r: Option<u64>)
    ensures
        match r {
            Some(n) => n == build_number(version@),
            None => build_number(version@) > u64::MAX,
        },
{
    let dot = ".";
    proof {
        reveal_strlit(".");
        assert(dot@ =~= seq!['.']);
    }
    let parts = split_str(version, dot);
    if parts.len() != 3 {
        return Some(0);
    }
    proof {
        assert(views(parts@)[0] == parts@[0]@);
        assert(views(parts@)[1] == parts@[1]@);
        assert(views(parts@)[2] == parts@[2]@);
    }
    let major = match parse_u64(parts[0].as_str()) {
        Some(v) => v,
        None => 0,
    };
    let minor = match parse_u64(parts[1].as_str()) {
        Some(v) => v,
        None => 0,
    };
    let patch = match parse_u64(parts[2].as_str()) {
        Some(v) => v,
        None => 0,
    };
    let a = match major.checked_mul(1000) {
        Some(a) => a,
        None => return None,
    };
    let b = match minor.checked_mul(100) {
        Some(b) => b,
        None => return None,
    };
    let c = match a.checked_add(b) {
        Some(c) => c,
        None => return None,
    };
    c.checked_add(patch)
}

/// `n` copies of the character `c`.
pub open spec fn repeat_char(c: char, n: nat) -> Seq<char> {
    Seq::new(n, |i: int| c)
}

/// The title line of an error's trace.
pub open spec fn trace_title() -> Seq<char> {
    repeat_char('-', 8) + repeat_char(' ', 4) + seq!['T', 'R', 'A', 'C', 'E'] + repeat_char(' ', 4)
        + repeat_char('-', 8)
}

/// The lines that report the error `msg` in `file`, with a trace that
/// names the Lead version `version`.
pub open spec fn error_report_spec(msg: Seq<char>, file: Seq<char>, version: Seq<char>) -> Seq<Seq<char>> {
    seq![
        error_prefix() + msg,
        error_prefix() + trace_title(),
        error_prefix() + seq![' ', 'F', 'i', 'l', 'e', ':', ' '] + file,
        error_prefix() + seq![' ', 'E', 'd', 'i', 't', 'i', 'o', 'n', ' '] + version.take(1),
        error_prefix() + seq![' ', 'L', 'e', 'a', 'd', ' ', 'v'] + version,
        error_prefix() + seq![' ', 'B', 'u', 'i', 'l', 'd', ' ', '#'] + decimal(build_number(version)),
        error_prefix() + seq![
            ' ', 'C', 'o', 'm', 'p', 'i', 'l', 'e', 'd', ' ', 'w', 'i', 't', 'h', ' ', 'R', 'u', 's', 't',
            ' ', 'N', 'i', 'g', 'h', 't', 'l', 'y',
        ],
        error_prefix() + repeat_char('-', 29),
    ]
}

/// The lines that report the error `msg` in `file` before the program
/// ends, with a trace of the Lead version `version`: its edition (the first
/// character), the version and its build number. The version must begin
/// with a one-byte character, which is cut off as the edition, and its
/// build number must fit in 64 bits.
pub fn error_report(msg: &str, file: &str, version: &str) -> (r: Vec<String>)
    requires
        version@.len() >= 1,
        crate::text::utf8_len(version@[0]) == 1,
        build_number(version@) <= u64::MAX,
    ensures
        views(r@) == error_report_spec(msg@, file@, version@),
{
    let p = "\u{1b}[31m\u{1b}[1mERR: \u{1b}[m";
    let title = "--------    TRACE    --------";
    let file_label = " File: ";
    let edition = " Edition ";
    let lead = " Lead v";
    let build = " Build #";
    let nightly = " Compiled with Rust Nightly";
    let rule = "-----------------------------";
    proof {
        reveal_strlit("\u{1b}[31m\u{1b}[1mERR: \u{1b}[m");
        reveal_strlit("--------    TRACE    --------");
        reveal_strlit(" File: ");
        reveal_strlit(" Edition ");
        reveal_strlit(" Lead v");
        reveal_strlit(" Build #");
        reveal_strlit(" Compiled with Rust Nightly");
        reveal_strlit("-----------------------------");
        assert(p@ =~= error_prefix());
        assert(title@ =~= trace_title());
        assert(file_label@ =~= seq![' ', 'F', 'i', 'l', 'e', ':', ' ']);
        assert(edition@ =~= seq![' ', 'E', 'd', 'i', 't', 'i', 'o', 'n', ' ']);
        assert(lead@ =~= seq![' ', 'L', 'e', 'a', 'd', ' ', 'v']);
        assert(build@ =~= seq![' ', 'B', 'u', 'i', 'l', 'd', ' ', '#']);
        assert(nightly@ =~= seq![
            ' ', 'C', 'o', 'm', 'p', 'i', 'l', 'e', 'd', ' ', 'w', 'i', 't', 'h', ' ', 'R', 'u', 's', 't',
            ' ', 'N', 'i', 'g', 'h', 't', 'l', 'y',
        ]);
        assert(rule@ =~= repeat_char('-', 29));
    }
    let number = match gen_build(version) {
        Some(n) => n,
        None => 0,
    };
    let first = version.substring_char(0, 1);
    proof {
        assert(first@ =~= version@.take(1));
    }
    let mut out: Vec<String> = Vec::new();
    out.push(String::from_str(p).concat(msg));
    out.push(String::from_str(p).concat(title));
    out.push(String::from_str(p).concat(file_label).concat(file));
    out.push(String::from_str(p).concat(edition).concat(first));
    out.push(String::from_str(p).concat(lead).concat(version));
    out.push(String::from_str(p).concat(build).concat(u64_to_string(number).as_str()));
    out.push(String::from_str(p).concat(nightly));
    out.push(String::from_str(p).concat(rule));
    proof {
        assert(views(out@) =~= error_report_spec(msg@, file@, version@));
    }
    out
}

/// `s` padded with spaces at the end to `width` characters, as the
/// formatting `{:<width}` does.
pub open spec fn pad_spec(s: Seq<char>, width: nat) -> Seq<char> {
    if s.len() >= width {
        s
    } else {
        s + Seq::new((width - s.len()) as nat, |i: int| ' ')
    }
}

/// Padding keeps the text in front and fills to the width, never cutting.
pub proof fn law_pad_keeps_text(s: Seq<char>, width: nat)
    ensures
        pad_spec(s, width).take(s.len() as int) == s,
        pad_spec(s, width).len() == if s.len() >= width {
            s.len()
        } else {
            width
        },
{
    if s.len() < width {
        assert((s + Seq::new((width - s.len()) as nat, |i: int| ' ')).take(s.len() as int) =~= s);
    } else {
        assert(s.take(s.len() as int) =~= s);
    }
}

/// `s` padded with spaces at the end to `width` characters.
pub fn pad_right(s: &str, width: usize) -> (r: String)
    ensures
        r@ == pad_spec(s@, width as nat),
{
    let mut out = String::from_str(s);
    let n = s.unicode_len();
    if n >= width {
        return out;
    }
    let mut k: usize = n;
    proof {
        assert(out@ =~= s@ + Seq::new((k - n) as nat, |i: int| ' '));
    }
    while k < width
        invariant
            n == s@.len(),
            n <= k <= width,
            out@ == s@ + Seq::new((k - n) as nat, |i: int| ' '),
        decreases width - k,
    {
        out.append(" ");
        proof {
            reveal_strlit(" ");
            assert(out@ =~= s@ + Seq::new((k + 1 - n) as nat, |i: int| ' '));
        }
        k = k + 1;
    }
    out
}

/// A line of a help text: two spaces, the option padded to `width`, a
/// space, and its description.
pub fn help_line(option: &str, description: &str, width: usize) -> (r: String)
    ensures
        r@ == seq![' ', ' '] + pad_spec(option@, width as nat) + seq![' '] + description@,
{
    let head = "  ";
    let sp = " ";
    proof {
        reveal_strlit("  ");
        reveal_strlit(" ");
        assert(head@ =~= seq![' ', ' ']);
        assert(sp@ =~= seq![' ']);
    }
    let padded = pad_right(option, width);
    let out = String::from_str(head).concat(padded.as_str()).concat(sp).concat(description);
    proof {
        assert(out@ =~= seq![' ', ' '] + pad_spec(option@, width as nat) + seq![' '] + description@);
    }
    out
}

/// A row of the system information: the label padded to eight characters,
/// `: `, and the value.
pub fn info_row(label: &str, value: &str) -> (r: String)
    ensures
        r@ == pad_spec(label@, 8) + seq![':', ' '] + value@,
{
    let sep = ": ";
    proof {
        reveal_strlit(": ");
        assert(sep@ =~= seq![':', ' ']);
    }
    let padded = pad_right(label, 8);
    let out = padded.concat(sep).concat(value);
    proof {
        assert(out@ =~= pad_spec(label@, 8) + seq![':', ' '] + value@);
    }
    out
}

/// How a program is started: a command and its arguments.
pub struct PbExec {
    pub cmd: String,
    pub args: Vec<String>,
}

/// The `pb.json` of a program: how to start it in development and in
/// production.
pub struct PbJSON {
    pub dev: PbExec,
    pub prod: PbExec,
}

/// What starting a program amounts to.
pub enum PbAction {
    /// Interpret the Lead file with the interpreter itself.
    Native(String),
    /// Run the command with its arguments.
    Spawn(String, Vec<String>),
}

/// `%native`
pub open spec fn native_cmd() -> Seq<char> {
    seq!['%', 'n', 'a', 't', 'i', 'v', 'e']
}

/// How to start the program that `pb` describes, in production or not:
/// `%native` interprets the file given as the first argument; `None` when
/// there is none, which stops the program.
pub fn pb_action(pb: &PbJSON, prod: bool) -> (r: Option<PbAction>)
    ensures
        ({
            let e = if prod {
                pb.prod
            } else {
                pb.dev
            };
            if e.cmd@ == native_cmd() {
                if e.args@.len() == 0 {
                    r is None
                } else {
                    r matches Some(PbAction::Native(f)) && f@ == e.args@[0]@
                }
            } else {
                r matches Some(PbAction::Spawn(c, a)) && c@ == e.cmd@ && views(a@) == views(e.args@)
            }
        }),
{
    let e = if prod {
        &pb.prod
    } else {
        &pb.dev
    };
    let native = "%native";
    proof {
        reveal_strlit("%native");
        assert(native@ =~= native_cmd());
    }
    if str_eq(e.cmd.as_str(), native) {
        if e.args.len() == 0 {
            None
        } else {
            Some(PbAction::Native(e.args[0].clone()))
        }
    } else {
        let a = crate::parser::clone_strings(&e.args, 0, e.args.len());
        proof {
            assert(a@ =~= e.args@);
        }
        Some(PbAction::Spawn(e.cmd.clone(), a))
    }
}

/// Whether a library that reports the interpreter version `ver` may be
/// loaded by interpreter version `expected`: in production versions are
/// not checked.
pub fn version_ok(ver: u16, expected: u16, prod: bool) -> (r: bool)
    ensures
        r == (prod || ver == expected),
{
    prod || ver == expected
}

/// The name of the library in a workspace package directory named
/// `dir`: what follows its first 65 bytes (a hash and a separator), and
/// the library's file name with the platform's prefix and extension.
/// `None` where the directory name is too short or byte 65 falls inside a
/// character, which stops the program.
pub fn pkg_lookup(dir: &str, dll_prefix: &str, dll_ext: &str) -> (r: Option<(String, String)>)
    ensures
        match byte_skip(dir@, 65) {
            Some(l) => r matches Some(x) && x.0@ == l && x.1@ == dll_prefix@ + l + seq!['.'] + dll_ext@,
            None => r is None,
        },
{
    let dot = ".";
    proof {
        reveal_strlit(".");
        assert(dot@ =~= seq!['.']);
    }
    match skip_bytes(dir, 65) {
        Some(l) => {
            let file = String::from_str(dll_prefix).concat(l).concat(dot).concat(dll_ext);
            Some((String::from_str(l), file))
        },
        None => None,
    }
}

/// `.pb`
pub open spec fn pb_suffix() -> Seq<char> {
    seq!['.', 'p', 'b']
}

/// Whether a file takes part in a program: its name ends in `.pb`.
pub fn is_source_file(file: &str) -> (r: bool)
    ensures
        r == has_suffix(file@, pb_suffix()),
{
    let pb = ".pb";
    proof {
        reveal_strlit(".pb");
        assert(pb@ =~= pb_suffix());
    }
    ends_with(file, pb)
}

/// The name under which a file `file` found in the directory `root` of
/// the sources (`""` for the top, else `/` and the path) is known: the
/// path without its leading `/`.
pub fn file_key(root: &str, file: &str) -> (r: String)
    ensures
        r@ == (root@ + seq!['/'] + file@).drop_first(),
{
    let slash = "/";
    proof {
        reveal_strlit("/");
        assert(slash@ =~= seq!['/']);
    }
    let path = String::from_str(root).concat(slash).concat(file);
    let n = path.as_str().unicode_len();
    proof {
        assert(path@.len() >= 1);
        assert(path@.subrange(1, n as int) =~= path@.drop_first());
    }
    String::from_str(path.as_str().substring_char(1, n))
}

} // verus!

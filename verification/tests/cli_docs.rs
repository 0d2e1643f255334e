use leadlang::cli::{
    error, error_report, file_key, full_access_notice, gen_build, help_line, info, info_row, is_source_file,
    lead_command, leadc_command, pad_right, parse, pb_action, pkg_lookup, version_ok, warn,
    FullAccessLevel, LeadCommand, LeadcCommand, PbAction, PbExec, PbJSON,
};
use leadlang::dict::Dict;
use leadlang::docs::{
    category_of, get_display, get_file, lib_entry, lookup_path, nav_choices, nav_select,
    package_docs, replace, ws_entry, Category, LeadModule, ModuleRefError, NavOutcome, NavState,
};
use leadlang::init::{select_asset, Asset, Release};
use leadlang::packages::{ImplPackage, LanguagePackages};
use leadlang::sysinfo::{get_sys_info, logo_text, MachineInfo, System};
use leadlang::wrappers::{make_unsafe_send_future, AppliesEq, AnyWrapper};

fn strs(v: &[&str]) -> Vec<String> {
    v.iter().map(|x| x.to_string()).collect()
}

#[test]
fn run_options_default() {
    let (o, unknown) = parse(&vec![]);
    assert!(o.sysinfo && o.time && !o.log && !o.prod && !o.monochrome);
    assert!(o.full_access == FullAccessLevel::Warn);
    assert!(unknown.is_empty());
}

#[test]
fn prod_denies_and_logs() {
    let (o, unknown) = parse(&strs(&["--prod", "--weird", "--no-time"]));
    assert!(o.prod && o.log && !o.sysinfo && !o.time);
    assert!(o.full_access == FullAccessLevel::Deny);
    assert_eq!(unknown, vec!["--weird"]);
    let (o, _) = parse(&strs(&["--prod", "--allow-full-access", "--monochrome-logo"]));
    assert!(o.full_access == FullAccessLevel::SilentlyAllow && o.monochrome);
}

#[test]
fn full_access_requests() {
    let (warn_opts, _) = parse(&strs(&["--log"]));
    let allowed = strs(&["net"]);
    let n = full_access_notice("net", &allowed, &warn_opts);
    assert!(n.info && !n.warn && !n.deny);
    let n = full_access_notice("fs", &allowed, &warn_opts);
    assert!(!n.info && n.warn && !n.deny);
    let (deny_opts, _) = parse(&strs(&["--deny-full-access"]));
    let n = full_access_notice("fs", &allowed, &deny_opts);
    assert!(n.deny && !n.warn);
}

#[test]
fn lead_commands_route() {
    assert!(lead_command(&strs(&["lead"])).is_none());
    assert!(matches!(lead_command(&strs(&["lead", "run", "--log"])), Some(LeadCommand::Run(a)) if a == vec!["--log"]));
    assert!(matches!(lead_command(&strs(&["lead", "--prod", "x"])), Some(LeadCommand::Run(a)) if a == vec!["--prod", "x"]));
    assert!(matches!(lead_command(&strs(&["lead", "docs", "--cli"])), Some(LeadCommand::Docs(a)) if a == vec!["--cli"]));
    assert!(matches!(lead_command(&strs(&["lead", "help"])), Some(LeadCommand::Help(None))));
    assert!(matches!(lead_command(&strs(&["lead", "fly"])), Some(LeadCommand::Help(Some(u))) if u == "fly"));
    assert!(matches!(leadc_command(&strs(&["leadc"])), LeadcCommand::Help));
    assert!(matches!(leadc_command(&strs(&["leadc", "verify"])), LeadcCommand::Unknown(u) if u == "verify"));
}

#[test]
fn message_lines() {
    assert_eq!(info("ready"), "\u{1b}[34m\u{1b}[1mINFO: \u{1b}[mready");
    assert_eq!(warn("hm"), "\u{1b}[33m\u{1b}[1mWARN: \u{1b}[mhm");
    let (a, b) = error("bad", "main.pb:3");
    assert_eq!(a, "\u{1b}[31m\u{1b}[1mERR: \u{1b}[mbad");
    assert_eq!(b, "\u{1b}[31m\u{1b}[1mERR: \u{1b}[mmain.pb:3");
}

#[test]
fn error_reports_carry_a_trace() {
    let e = "\u{1b}[31m\u{1b}[1mERR: \u{1b}[m";
    let lines = error_report("bad", "main.pb:3", "1.2.3");
    let expected: Vec<String> = vec![
        format!("{e}bad"),
        format!("{e}--------    TRACE    --------"),
        format!("{e} File: main.pb:3"),
        format!("{e} Edition 1"),
        format!("{e} Lead v1.2.3"),
        format!("{e} Build #1203"),
        format!("{e} Compiled with Rust Nightly"),
        format!("{e}-----------------------------"),
    ];
    assert_eq!(lines, expected);
    assert_eq!(error_report("x", "f", "0.0.0-dev-lead-lang")[5], format!("{e} Build #0"));
}

#[test]
fn build_numbers() {
    assert_eq!(gen_build("1.2.3"), Some(1203));
    assert_eq!(gen_build("0.0.0-dev-lead-lang"), Some(0));
    assert_eq!(gen_build("2.x.5"), Some(2005));
    assert_eq!(gen_build("1.2"), Some(0));
    assert_eq!(gen_build("18446744073709551615.0.0"), None);
}

#[test]
fn padding() {
    assert_eq!(pad_right("ab", 5), "ab   ");
    assert_eq!(pad_right("abcdef", 3), "abcdef");
    assert_eq!(pad_right("é", 3), "é  ");
    assert_eq!(help_line("help", "Prints this help message", 6), "  help   Prints this help message");
    assert_eq!(info_row("OS", "linux"), "OS      : linux");
}

#[test]
fn displays_of_libraries() {
    assert_eq!(get_display("liblead_core.so"), "📦 Lead Core");
    assert_eq!(get_display("lead_std.dll"), "📦 Lead Std");
    assert_eq!(get_display("libfoo.so"), "📦 libfoo.so");
    let e = lib_entry("/home/u/lead", "1.0.0", "liblead_std.dylib");
    assert_eq!(e.display, "📦 Lead Std");
    assert_eq!(e.file, "/home/u/lead/versions/1.0.0/lib/liblead_std.dylib");
    let w = ws_entry("abc", "mylib", "lib", ".so");
    assert_eq!(w.file, "./.lead_libs/abc/libmylib.so");
    assert_eq!(lookup_path("abc"), "./.lead_libs/abc/lead.lookup.lkp");
}

#[test]
fn browser_navigation() {
    let mut doc: Dict<Dict<String>> = Dict::new();
    let mut inner = Dict::new();
    inner.insert("print".to_string(), "prints".to_string());
    doc.insert("core".to_string(), inner);
    let top = NavState { level: 0, root: None };
    assert_eq!(nav_choices(&doc, &top).unwrap(), vec!["core", "❌ Quit"]);
    let next = match nav_select(top, "core") {
        Some(NavOutcome::Continue(s)) => s,
        _ => panic!("expected to go down"),
    };
    assert_eq!(next.level, 1);
    assert_eq!(nav_choices(&doc, &next).unwrap(), vec!["..", "print", "❌ Quit"]);
    assert!(matches!(nav_select(NavState { level: 1, root: Some("core".to_string()) }, "print"), Some(NavOutcome::Chosen(x)) if x == "print"));
    assert!(matches!(nav_select(NavState { level: 1, root: None }, ".."), Some(NavOutcome::Continue(s)) if s.level == 0));
    assert!(matches!(nav_select(NavState { level: 0, root: None }, ".."), None));
    assert!(matches!(nav_select(NavState { level: 0, root: None }, "❌ Quit"), Some(NavOutcome::Quit)));
    assert!(nav_choices(&doc, &NavState { level: 1, root: Some("gone".to_string()) }).is_none());
    assert!(nav_choices(&doc, &NavState { level: 2, root: None }).is_none());
    assert!(matches!(category_of("📚 Lead Default"), Some(Category::LeadDefault)));
    assert!(matches!(category_of("⚒️  Workspace"), Some(Category::Workspace)));
    assert!(category_of("other").is_none());
}

#[test]
fn package_documentation_is_gathered() {
    let pkgs = vec![(
        b"core".to_vec(),
        vec![("print".to_string(), ("a".to_string(), "b".to_string(), "prints text".to_string()))],
    ), (vec![0xffu8, b'x'], vec![])];
    let d = package_docs(&pkgs);
    assert_eq!(d.get("core").unwrap().get("print"), Some(&"prints text".to_string()));
    assert!(d.contains_key("\u{FFFD}x"));
}

#[test]
fn package_names_are_decoded() {
    let mut p = LanguagePackages::new();
    p.import_dyn(b"io", &vec![("read".to_string(), 1)], &vec![]);
    assert_eq!(p.inner.get("read").map(|e| e.0.clone()), Some("io".to_string()));
    let pkg = ImplPackage::new();
    assert_eq!(pkg.name(), &b"ImplPackage [struct]".to_vec());
    let mut q = LanguagePackages::new();
    q.import(&pkg.add_method("go".to_string(), "doc".to_string(), 4));
    assert_eq!(q.list(), vec![("go".to_string(), "ImplPackage [struct]".to_string())]);
}

#[test]
fn documentation_paths() {
    assert_eq!(get_file("std", "./docs/io", true), vec!["docs", "std", ".//io.md"]);
    assert_eq!(get_file("std", "guide.md", false), vec!["guide.md"]);
    assert_eq!(replace("a-b-c", "-", "+"), "a+b+c");
    let (mods, files) = LeadModule::new("std", &strs(&["k->m->f"]), &strs(&["m->io"]), false).ok().unwrap();
    assert!(mods.is_empty());
    assert_eq!(files, vec![vec!["io.md".to_string()]]);
    assert!(matches!(LeadModule::new("std", &vec![], &strs(&["bad"]), false), Err(ModuleRefError::BadPackage(p)) if p == "bad"));
    assert!(matches!(LeadModule::new("std", &strs(&["a->b"]), &vec![], false), Err(ModuleRefError::BadMethod(m)) if m == "a->b"));
}

#[test]
fn installer_picks_the_matching_asset() {
    let rel = Release {
        tag_name: "v1".to_string(),
        assets: vec![
            Asset { name: "source.zip".to_string(), browser_download_url: "u0".to_string() },
            Asset { name: "binaries_darwin_aarch64.zip".to_string(), browser_download_url: "u1".to_string() },
            Asset { name: "binaries_linux_x86_64.zip".to_string(), browser_download_url: "u2".to_string() },
        ],
    };
    assert_eq!(select_asset(&rel, "macos", "aarch64"), Some(1));
    assert_eq!(select_asset(&rel, "linux", "x86_64"), Some(2));
    assert_eq!(select_asset(&rel, "windows", "x86_64"), None);
}

#[test]
fn program_start() {
    let pb = PbJSON {
        dev: PbExec { cmd: "%native".to_string(), args: strs(&["main.pb"]) },
        prod: PbExec { cmd: "node".to_string(), args: strs(&["x.js"]) },
    };
    assert!(matches!(pb_action(&pb, false), Some(PbAction::Native(f)) if f == "main.pb"));
    assert!(matches!(pb_action(&pb, true), Some(PbAction::Spawn(c, a)) if c == "node" && a == vec!["x.js"]));
    let empty = PbJSON {
        dev: PbExec { cmd: "%native".to_string(), args: vec![] },
        prod: PbExec { cmd: "%native".to_string(), args: vec![] },
    };
    assert!(pb_action(&empty, false).is_none());
    assert!(version_ok(9, 9, false));
    assert!(!version_ok(7, 9, false));
    assert!(version_ok(7, 9, true));
}

#[test]
fn workspace_files() {
    let hash = "a".repeat(64);
    let dir = format!("{hash}_mylib");
    assert_eq!(pkg_lookup(&dir, "lib", "so"), Some(("mylib".to_string(), "libmylib.so".to_string())));
    assert_eq!(pkg_lookup("short", "lib", "so"), None);
    assert!(is_source_file("main.pb"));
    assert!(!is_source_file("main.rs"));
    assert_eq!(file_key("", "main.pb"), "main.pb");
    assert_eq!(file_key("/src", "a.pb"), "src/a.pb");
}

#[test]
fn system_information() {
    let mut sys = System { total: 8_000_000_000, avail: 3_000_000_000 };
    assert_eq!(sys.refresh_all().total_memory(), 8_000_000_000);
    assert_eq!(sys.used_memory(), 5_000_000_000);
    assert_eq!(sys.cpus().len(), 1);
    let machine = Some(MachineInfo { cpu_brand: "  Fast CPU ".to_string(), used_memory: 5_000_000_000, total_memory: 8_000_000_000 });
    let lines = get_sys_info("windows", "x86_64", "windows", &machine, "1.0.0", "x86_64-pc-windows-msvc");
    assert_eq!(lines.len(), 10);
    assert_eq!(lines[0], "System Specifications");
    assert_eq!(lines[1], "OS      : windows");
    assert_eq!(lines[4], "CPU     : Fast CPU");
    assert_eq!(lines[5], "Memory  : 5000/8000 MB");
    assert_eq!(lines[6], "");
    assert_eq!(lines[9], "Target  : x86_64-pc-windows-msvc");
    let short = get_sys_info("linux", "arm", "unix", &None, "1", "t");
    assert_eq!(short.len(), 8);
    let rows = logo_text(&strs(&["ab"]), 2);
    assert_eq!(rows[0].len(), 60);
    assert!(rows[0].starts_with("ab"));
    assert_eq!(rows[1], " ".repeat(60));
}

#[test]
fn wrappers_hold_their_contents() {
    let w = make_unsafe_send_future(5u8);
    assert_eq!(w.0, 5);
    assert!(AppliesEq(1) != AppliesEq(1));
    assert!(AnyWrapper(3) != AnyWrapper(3));
}

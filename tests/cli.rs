use localdex::bench::{parse_bench_args, BenchArgError};
use localdex::config::{is_flag_available, FlagDef, LdxConfig, Platform};
use localdex::display::{fmt_num, get_all_drives};
use localdex::flags::{
    flag_matches, get_flag_names, parse_args, parse_bool_flags, parse_management, parse_pattern,
    parse_value_flags, FlagError,
};

fn def(short: &str, long: &str, target: &str) -> FlagDef {
    FlagDef {
        short: short.into(),
        long: long.into(),
        description: String::new(),
        os: "all".into(),
        action: Some("set_boolean".into()),
        target: Some(target.into()),
        value: None,
    }
}

fn full_config() -> LdxConfig {
    let mut c = LdxConfig::new();
    for (s, l, t) in [
        ("a", "all-files", "all"),
        ("d", "dir", "dir"),
        ("e", "extension", "extension"),
        ("1", "first", "first"),
        ("h", "help", "help"),
        ("L", "limit", "limit"),
        ("o", "open", "open"),
        ("q", "quiet", "quiet"),
        ("s", "case-sensitive", "case_sensitive"),
        ("S", "stats", "stats"),
        ("t", "threads", "threads"),
        ("v", "verbose", "verbose"),
        ("D", "dirs", "dirs_only"),
        ("w", "where", "where_mode"),
        ("A", "all-drives", "all_drives"),
    ] {
        c.insert_flag(l.to_string(), def(s, l, t));
    }
    c
}

fn args(v: &[&str]) -> Vec<String> {
    v.iter().map(|s| s.to_string()).collect()
}

#[test]
fn flag_names_by_target() {
    let c = full_config();
    assert_eq!(get_flag_names(&c, "extension"), ("-e".to_string(), "--extension".to_string()));
    assert_eq!(get_flag_names(&c, "missing"), (String::new(), String::new()));
    assert!(flag_matches(&"-e".to_string(), &"-e".to_string(), &"--extension".to_string()));
    assert!(!flag_matches(&"-x".to_string(), &"-e".to_string(), &"--extension".to_string()));
}

#[test]
fn value_flags_are_read() {
    let c = full_config();
    let raw = args(&["-e", ".PDF", "-d", "/tmp", "-t", "64", "-L", "5", "--exclude", " target , .git"]);
    let v = parse_value_flags(&raw, &c, 8);
    assert_eq!(v.extension, Some("pdf".to_string()));
    assert_eq!(v.dir, "/tmp");
    assert_eq!(v.threads, 8);
    assert_eq!(v.limit, Some(5));
    assert_eq!(v.exclude, vec!["target".to_string(), ".git".to_string()]);
    let none = parse_value_flags(&args(&["-t", "x", "-L"]), &c, 6);
    assert_eq!(none.extension, None);
    assert_eq!(none.dir, ".");
    assert_eq!(none.threads, 6);
    assert_eq!(none.limit, None);
    assert!(none.exclude.is_empty());
    let few = parse_value_flags(&args(&["--threads", "+3"]), &c, 6);
    assert_eq!(few.threads, 3);
}

#[test]
fn bool_flags_are_read() {
    let c = full_config();
    let raw = args(&["-q", "--stats", "-A", "-W"]);
    let b = parse_bool_flags(&raw, &c, Platform::Linux);
    assert!(b.quiet && b.stats && b.warn);
    assert!(!b.all && !b.first && !b.all_drives);
    let w = parse_bool_flags(&raw, &c, Platform::Windows);
    assert!(w.all_drives);
}

#[test]
fn pattern_is_first_free_argument() {
    let c = full_config();
    assert_eq!(parse_pattern(&args(&["-e", "rs", "main", "other"]), &c).unwrap(), Some("main".to_string()));
    assert_eq!(parse_pattern(&args(&["-q"]), &c).unwrap(), None);
    match parse_pattern(&args(&["--bogus", "x"]), &c) {
        Err(FlagError::UnknownFlag(a)) => assert_eq!(a, "--bogus"),
        _ => panic!("expected a refusal"),
    }
}

#[test]
fn management_requests_short_circuit() {
    let c = full_config();
    let m = parse_management(&args(&["x", "--version"]), &c, 12).unwrap();
    assert!(m.show_version && !m.show_help);
    assert_eq!(m.threads, 12);
    assert_eq!(m.dir, ".");
    assert!(parse_management(&args(&["-h"]), &c, 2).unwrap().show_help);
    assert!(parse_management(&args(&["invoice"]), &c, 2).is_none());
    let r = parse_args(args(&["--bogus", "--sync"]), &c, 4, Platform::Linux).unwrap();
    assert!(r.sync_config);
}

#[test]
fn parse_args_builds_a_search() {
    let mut c = full_config();
    c.insert_alias("pdfs".into(), "-e pdf -q".into());
    let r = parse_args(args(&["pdfs", "-1", "-d", "/home"]), &c, 4, Platform::Linux).unwrap();
    assert_eq!(r.extension, Some("pdf".to_string()));
    assert_eq!(r.pattern, None);
    assert!(r.quiet);
    assert_eq!(r.limit, Some(1));
    assert_eq!(r.dir, "/home");
    assert_eq!(r.threads, 4);
    let w = parse_args(args(&["invoice", "-w", "-L", "9"]), &c, 4, Platform::Linux).unwrap();
    assert_eq!(w.limit, Some(1));
    assert_eq!(w.pattern, Some("invoice".to_string()));
    assert!(matches!(parse_args(args(&["-1", "-L", "3", "x"]), &c, 4, Platform::Linux), Err(FlagError::FirstWithLimit)));
    assert!(matches!(parse_args(args(&["-q"]), &c, 4, Platform::Linux), Err(FlagError::NoCriteria)));
    assert!(matches!(parse_args(args(&["-a", "-o"]), &c, 4, Platform::Linux), Err(FlagError::OpenWithAll)));
    assert!(matches!(parse_args(args(&["-D", "-a"]), &c, 4, Platform::Linux), Err(FlagError::DirsWithAll)));
    assert!(matches!(parse_args(args(&["-D", "-e", "x"]), &c, 4, Platform::Linux), Err(FlagError::DirsWithExtension)));
    assert!(matches!(parse_args(args(&["p", "-e", "x"]), &c, 4, Platform::Linux), Err(FlagError::PatternWithExtension)));
    assert!(matches!(parse_args(args(&["p", "-a"]), &c, 4, Platform::Linux), Err(FlagError::AllWithFilter)));
}

#[test]
fn custom_boolean_and_unknown_actions() {
    let mut c = full_config();
    c.insert_custom("silent".into(), FlagDef { short: "z".into(), long: "zz".into(), description: String::new(), os: "all".into(), action: Some("set_boolean".into()), target: Some("quiet".into()), value: None });
    c.insert_custom("odd".into(), FlagDef { short: "y".into(), long: "yy".into(), description: String::new(), os: "all".into(), action: Some("launch".into()), target: Some("quiet".into()), value: None });
    c.insert_custom("half".into(), FlagDef { short: "x".into(), long: "xx".into(), description: String::new(), os: "all".into(), action: None, target: Some("quiet".into()), value: None });
    let r = localdex::flags::resolve_custom(args(&["--zz", "-y", "-x", "k"]), &c);
    assert_eq!(r, vec!["-q", "-y", "k"]);
}

#[test]
fn alias_redefinition_replaces_expansion() {
    let mut c = full_config();
    c.insert_alias("a1".into(), "-q".into());
    c.insert_alias("a1".into(), "  -S\t-v ".into());
    assert_eq!(c.aliases.len(), 1);
    assert_eq!(localdex::flags::expand_aliases(args(&["a1"]), &c), vec!["-S", "-v"]);
}

#[test]
fn numbers_are_grouped_by_thousands() {
    assert_eq!(fmt_num(0), "0");
    assert_eq!(fmt_num(999), "999");
    assert_eq!(fmt_num(1000), "1,000");
    assert_eq!(fmt_num(1234567), "1,234,567");
    assert_eq!(fmt_num(usize::MAX), "18,446,744,073,709,551,615");
}

#[test]
fn drives_follow_presence_flags() {
    let mut present = vec![false; 26];
    present[2] = true;
    present[25] = true;
    assert_eq!(get_all_drives(&present), vec!["C:\\".to_string(), "Z:\\".to_string()]);
    assert!(get_all_drives(&vec![]).is_empty());
}

#[test]
fn flag_availability_by_platform() {
    let mut f = def("A", "all-drives", "all_drives");
    f.os = "windows".into();
    assert!(is_flag_available(&f, Platform::Windows));
    assert!(!is_flag_available(&f, Platform::Linux));
    f.os = "all".into();
    assert!(is_flag_available(&f, Platform::Other));
    f.os = "macos".into();
    assert!(is_flag_available(&f, Platform::MacOs));
}

#[test]
fn bench_args_are_read() {
    let c = full_config();
    let b = parse_bench_args(&args(&["--runs", "3", "--dirs", "/a", "/b", "--csv", "-t", "99", "--out", "r.md"]), &c, 16, Some("/home/u".into()))
        .unwrap_or_else(|_| panic!("expected options"));
    assert_eq!(b.runs, 3);
    assert_eq!(b.threads, 16);
    assert_eq!(b.dirs, vec!["/home/u", "/usr", "/", "/a", "/b"]);
    assert_eq!(b.out, Some("r.md".to_string()));
    assert!(b.csv && !b.live && !b.edit);
    let d = parse_bench_args(&args(&["--threads", "2", "--runs", "x"]), &c, 16, None).unwrap_or_else(|_| panic!("expected options"));
    assert_eq!(d.threads, 2);
    assert_eq!(d.runs, 10);
    assert_eq!(d.dirs, vec!["/usr", "/"]);
    match parse_bench_args(&args(&["--live", "--nope"]), &c, 16, None) {
        Err(BenchArgError::UnknownFlag(a)) => assert_eq!(a, "--nope"),
        Ok(_) => panic!("expected a refusal"),
    }
}

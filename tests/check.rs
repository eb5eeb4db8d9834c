use localdex::check::{custom_problems, flag_findings, missing_targets, sync_candidates, targets_of, Finding};
use localdex::config::{FlagDef, LdxConfig, Platform};

fn flag(short: &str, long: &str, os: &str, action: Option<&str>, target: Option<&str>) -> FlagDef {
    FlagDef {
        short: short.into(),
        long: long.into(),
        description: String::new(),
        os: os.into(),
        action: action.map(|a| a.to_string()),
        target: target.map(|t| t.to_string()),
        value: None,
    }
}

fn known() -> Vec<String> {
    vec!["all".into(), "quiet".into(), "help".into(), "stats".into()]
}

#[test]
fn duplicate_names_name_the_first_owner() {
    let mut c = LdxConfig::new();
    c.insert_flag("a".into(), flag("q", "quiet", "all", None, Some("quiet")));
    c.insert_flag("b".into(), flag("q", "stats", "all", None, Some("stats")));
    c.insert_flag("c".into(), flag("q", "quiet", "all", None, Some("all")));
    assert!(flag_findings(&c, 0, &known(), Platform::Linux).is_empty());
    let b = flag_findings(&c, 1, &known(), Platform::Linux);
    assert!(matches!(&b[..], [Finding::DuplicateShort { prior }] if prior == "a"));
    let third = flag_findings(&c, 2, &known(), Platform::Linux);
    assert_eq!(third.len(), 2);
    assert!(matches!(&third[0], Finding::DuplicateShort { prior } if prior == "a"));
    assert!(matches!(&third[1], Finding::DuplicateLong { prior } if prior == "a"));
}

#[test]
fn targets_and_platforms_are_checked() {
    let mut c = LdxConfig::new();
    c.insert_flag("h".into(), flag("h", "help", "all", Some("show_help"), None));
    c.insert_flag("x".into(), flag("x", "xx", "all", None, None));
    c.insert_flag("y".into(), flag("y", "yy", "windows", None, Some("warp")));
    c.insert_flag("z".into(), flag("z", "zz", "all", None, Some("help")));
    assert!(flag_findings(&c, 0, &known(), Platform::Linux).is_empty());
    assert!(matches!(&flag_findings(&c, 1, &known(), Platform::Linux)[..], [Finding::NoTarget]));
    let y = flag_findings(&c, 2, &known(), Platform::Linux);
    assert!(matches!(&y[..], [Finding::UnknownTarget { target }, Finding::Unavailable] if target == "warp"));
    assert_eq!(flag_findings(&c, 2, &known(), Platform::Windows).len(), 1);
    assert!(flag_findings(&c, 3, &known(), Platform::Linux).is_empty());
}

#[test]
fn custom_flag_problems() {
    let mut c = LdxConfig::new();
    c.insert_custom("k".into(), flag("k", "kk", "all", None, Some("quiet")));
    c.insert_custom("m".into(), flag("m", "mm", "all", Some("set_boolean"), None));
    assert_eq!(custom_problems(&c, 0), (true, false));
    assert_eq!(custom_problems(&c, 1), (false, true));
}

#[test]
fn missing_targets_follow_known_order() {
    let mut c = LdxConfig::new();
    c.insert_flag("s".into(), flag("S", "stats", "all", None, Some("stats")));
    assert_eq!(missing_targets(&c, &known()), vec!["all".to_string(), "quiet".to_string()]);
    let mut d = LdxConfig::new();
    d.insert_flag("a".into(), flag("a", "all-files", "all", None, Some("all")));
    d.insert_flag("h".into(), flag("h", "help", "all", None, None));
    d.insert_flag("q".into(), flag("q", "quiet", "all", None, Some("quiet")));
    assert_eq!(targets_of(&d), vec!["all".to_string(), "quiet".to_string()]);
}

#[test]
fn sync_adds_only_uncovered_defaults() {
    let mut user = LdxConfig::new();
    user.insert_flag("quiet".into(), flag("q", "quiet", "all", None, Some("quiet")));
    user.insert_flag("silence".into(), flag("z", "zz", "all", None, Some("stats")));
    let mut defaults = LdxConfig::new();
    defaults.insert_flag("all-files".into(), flag("a", "all-files", "all", None, Some("all")));
    defaults.insert_flag("help".into(), flag("h", "help", "all", None, None));
    defaults.insert_flag("quiet".into(), flag("q", "quiet", "all", None, Some("quiet")));
    defaults.insert_flag("stats".into(), flag("S", "stats", "all", None, Some("stats")));
    defaults.insert_flag("verbose".into(), flag("v", "verbose", "all", None, Some("verbose")));
    assert_eq!(sync_candidates(&user, &defaults), vec![0, 4]);
}

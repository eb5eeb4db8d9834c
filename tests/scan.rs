use localdex::entry::{Entry, EntryKind, ScanError, ScanItem};
use localdex::matcher::{AllMatcher, DirMatcher, ExtMatcher, Matcher, NameMatcher};
use localdex::search::{scan_items, select_matcher, settings_for, source_for, Config, Scan, ScanSettings};
use localdex::source::{
    map_walk_failure, Batch, DirectorySource, IoFailure, IoFailureKind, RawEntry, Visit,
    WalkFailure, BATCH_SIZE,
};

/// A node of a synthetic tree: name, whether it is a directory, whether it
/// can be opened, and its children.
struct Node {
    name: &'static str,
    dir: bool,
    readable: bool,
    children: Vec<Node>,
}

fn file(name: &'static str) -> Node {
    Node { name, dir: false, readable: true, children: vec![] }
}

fn dir(name: &'static str, children: Vec<Node>) -> Node {
    Node { name, dir: true, readable: true, children }
}

/// Walks a synthetic tree the way the walker drives the library: each node
/// goes through `visit`, directories are probed first, and pruned or failed
/// directories are not descended into. Returns the stream and how many
/// directories were opened.
fn walk(src: &DirectorySource, nodes: &[Node], parent: &str, depth: usize, out: &mut Vec<ScanItem>) -> usize {
    let mut opened = 0;
    for n in nodes {
        let path = format!("{}/{}", parent, n.name);
        let raw = RawEntry {
            path: path.clone(),
            name: n.name.to_string(),
            depth,
            is_dir: n.dir,
            is_file: !n.dir,
            is_symlink: false,
        };
        let failure = if src.must_probe(&raw) {
            opened += 1;
            if n.readable {
                None
            } else {
                Some(IoFailure { kind: IoFailureKind::PermissionDenied, message: "denied".into() })
            }
        } else {
            None
        };
        match src.visit(raw, failure) {
            Visit::Continue | Visit::Skip => {}
            Visit::Fail(e) => out.push(Err(e)),
            Visit::Emit(e) => {
                let descend = e.kind == EntryKind::Dir;
                out.push(Ok(e));
                if descend {
                    opened += walk(src, &n.children, &path, depth + 1, out);
                }
            }
        }
    }
    opened
}

fn sample_tree() -> Vec<Node> {
    vec![
        file("a.txt"),
        file("b.LOG"),
        dir("sub", vec![file("c.log"), file("d.txt")]),
    ]
}

fn config(ext: Option<&str>, exclude: Vec<&str>) -> Config {
    Config {
        case_sensitive: false,
        quiet: true,
        all: false,
        dirs_only: false,
        extension: ext.map(|e| e.to_string()),
        pattern: None,
        limit: None,
        threads: 4,
        collect_paths: true,
        collect_errors: true,
        exclude: exclude.into_iter().map(|s| s.to_string()).collect(),
    }
}

fn entry(name: &str, kind: EntryKind) -> Entry {
    Entry { path: format!("/r/{}", name), name: name.to_string(), kind, depth: 1 }
}

fn all_settings(limit: Option<usize>) -> ScanSettings {
    ScanSettings { matcher: Matcher::All(AllMatcher), limit, collect_paths: true, collect_errors: true }
}

#[test]
fn extension_scan_of_sample_tree() {
    let cfg = config(Some("log"), vec![]);
    let src = source_for("/r".to_string(), &cfg);
    let mut items = Vec::new();
    walk(&src, &sample_tree(), "/r", 1, &mut items);
    let r = scan_items(settings_for(&cfg), items, 0);
    assert_eq!(r.matches, 2);
    assert_eq!(r.files, 4);
    assert_eq!(r.dirs, 1);
}

#[test]
fn excluded_sub_is_pruned_in_sample_tree() {
    let cfg = config(Some("log"), vec!["sub"]);
    let src = source_for("/r".to_string(), &cfg);
    let mut items = Vec::new();
    let opened = walk(&src, &sample_tree(), "/r", 1, &mut items);
    let r = scan_items(settings_for(&cfg), items, 0);
    assert_eq!(r.matches, 1);
    assert_eq!(r.paths, vec!["/r/b.LOG".to_string()]);
    assert_eq!(r.files, 2);
    assert_eq!(r.dirs, 0);
    assert_eq!(opened, 0);
    assert!(r.errors.is_empty());
}

#[test]
fn excluded_subtree_is_never_opened() {
    let mut locked = dir("deep", vec![file("x")]);
    locked.readable = false;
    let tree = vec![dir("keep", vec![file("k")]), dir("skip", vec![locked, file("y")])];
    let src = DirectorySource::new("/r".into()).exclude(vec!["skip".into()]);
    let mut items = Vec::new();
    let opened = walk(&src, &tree, "/r", 1, &mut items);
    let r = scan_items(all_settings(None), items, 0);
    assert_eq!(opened, 1);
    assert_eq!(r.files, 1);
    assert_eq!(r.dirs, 1);
    assert!(r.errors.is_empty());
}

#[test]
fn all_files_count_every_node_of_a_tree() {
    let tree = vec![
        dir("a", vec![file("1"), dir("b", vec![file("2"), file("3")]), dir("e", vec![])]),
        file("4"),
        dir("c", vec![dir("d", vec![file("5")])]),
    ];
    let src = DirectorySource::new("/r".into());
    let mut items = Vec::new();
    walk(&src, &tree, "/r", 1, &mut items);
    let r = scan_items(all_settings(None), items, 0);
    assert_eq!(r.files, 5);
    assert_eq!(r.dirs, 5);
    assert_eq!(r.matches, 5);
}

#[test]
fn unreadable_directory_gives_one_error_and_siblings_are_scanned() {
    let mut locked = dir("locked", vec![file("hidden")]);
    locked.readable = false;
    let tree = vec![dir("left", vec![file("l1"), file("l2")]), locked, dir("right", vec![file("r1")])];
    let src = DirectorySource::new("/r".into());
    let mut items = Vec::new();
    walk(&src, &tree, "/r", 1, &mut items);
    let r = scan_items(all_settings(None), items, 0);
    assert_eq!(r.errors.len(), 1);
    assert_eq!(r.errors[0].path(), "/r/locked");
    assert!(matches!(r.errors[0], ScanError::PermissionDenied(_)));
    assert_eq!(r.files, 3);
    assert_eq!(r.dirs, 2);
}

#[test]
fn quota_clamps_reported_matches() {
    let items: Vec<ScanItem> = (0..10).map(|i| Ok(entry(&format!("f{}", i), EntryKind::File))).collect();
    let r = scan_items(all_settings(Some(3)), items, 0);
    assert_eq!(r.matches, 3);
    assert_eq!(r.paths.len(), 3);
}

#[test]
fn zero_quota_takes_nothing() {
    let items: Vec<ScanItem> = vec![Ok(entry("f", EntryKind::File))];
    let r = scan_items(all_settings(Some(0)), items, 0);
    assert_eq!(r.matches, 0);
    assert_eq!(r.files, 0);
}

#[test]
fn quota_above_total_reports_all_matches() {
    let items: Vec<ScanItem> = (0..4).map(|i| Ok(entry(&format!("f{}", i), EntryKind::File))).collect();
    let r = scan_items(all_settings(Some(10)), items, 0);
    assert_eq!(r.matches, 4);
}

#[test]
fn aggregates_do_not_depend_on_order() {
    let mk = || -> Vec<ScanItem> {
        vec![
            Ok(entry("a", EntryKind::File)),
            Ok(entry("d", EntryKind::Dir)),
            Err(ScanError::PermissionDenied("/r/x".into())),
            Ok(entry("b", EntryKind::File)),
            Ok(entry("s", EntryKind::Symlink)),
        ]
    };
    let first = scan_items(all_settings(None), mk(), 0);
    for _ in 0..100 {
        let mut shuffled = mk();
        shuffled.reverse();
        shuffled.rotate_left(2);
        let r = scan_items(all_settings(None), shuffled, 0);
        assert_eq!((r.files, r.dirs, r.matches), (first.files, first.dirs, first.matches));
        let again = scan_items(all_settings(Some(1)), mk(), 0);
        assert_eq!(again.matches, 1);
    }
    assert_eq!((first.files, first.dirs, first.matches), (2, 1, 2));
}

#[test]
fn errors_change_no_counts() {
    let with_error: Vec<ScanItem> = vec![
        Ok(entry("a", EntryKind::File)),
        Err(ScanError::Io { path: "/r/bad".into(), cause: "gone".into() }),
        Ok(entry("d", EntryKind::Dir)),
    ];
    let r = scan_items(all_settings(None), with_error, 0);
    assert_eq!((r.files, r.dirs, r.matches), (1, 1, 1));
    assert_eq!(r.errors.len(), 1);
    let quiet = ScanSettings { matcher: Matcher::All(AllMatcher), limit: None, collect_paths: false, collect_errors: false };
    let r = scan_items(quiet, vec![Err(ScanError::SymlinkLoop("/r/l".into()))], 0);
    assert!(r.errors.is_empty());
    assert!(r.paths.is_empty());
}

#[test]
fn scan_consumes_one_item_at_a_time() {
    let mut scan = Scan::new(all_settings(Some(2)));
    assert!(scan.has_room());
    assert!(scan.consume(Ok(entry("d", EntryKind::Dir))));
    assert!(scan.consume(Ok(entry("a", EntryKind::File))));
    assert!(!scan.consume(Ok(entry("b", EntryKind::File))));
    assert!(scan.is_stopped());
    assert!(!scan.consume(Ok(entry("c", EntryKind::File))));
    let r = scan.finish(1500);
    assert_eq!((r.files, r.dirs, r.matches, r.duration_micros), (2, 1, 2, 1500));
}

#[test]
fn name_matcher_case_rules() {
    let e = entry("server.log", EntryKind::File);
    let insensitive = NameMatcher { pattern: "LOG".into(), case_sensitive: false };
    let sensitive = NameMatcher { pattern: "LOG".into(), case_sensitive: true };
    assert!(insensitive.is_match(&e));
    assert!(!sensitive.is_match(&e));
    assert!(NameMatcher { pattern: "ver.l".into(), case_sensitive: true }.is_match(&e));
    assert!(NameMatcher { pattern: "".into(), case_sensitive: true }.is_match(&e));
    assert!(!NameMatcher { pattern: "server.logs".into(), case_sensitive: false }.is_match(&e));
    let unicode = entry("ÄRGER.TXT", EntryKind::File);
    assert!(NameMatcher { pattern: "ärger".into(), case_sensitive: false }.is_match(&unicode));
}

#[test]
fn extension_matcher_rules() {
    let m = ExtMatcher { ext: "log".into(), case_sensitive: false };
    assert!(m.is_match(&entry("b.LOG", EntryKind::File)));
    assert!(m.is_match(&entry("x.tar.log", EntryKind::File)));
    assert!(!m.is_match(&entry(".log", EntryKind::File)));
    assert!(!m.is_match(&entry("log", EntryKind::File)));
    assert!(!m.is_match(&entry("a.logs", EntryKind::File)));
    let cs = ExtMatcher { ext: "log".into(), case_sensitive: true };
    assert!(!cs.is_match(&entry("b.LOG", EntryKind::File)));
    assert!(cs.is_match(&entry("b.log", EntryKind::File)));
    let empty = ExtMatcher { ext: "".into(), case_sensitive: true };
    assert!(empty.is_match(&entry("trailing.", EntryKind::File)));
}

#[test]
fn all_and_dir_matchers() {
    let f = entry("f", EntryKind::File);
    let d = entry("Photos", EntryKind::Dir);
    let l = entry("link", EntryKind::Symlink);
    assert!(AllMatcher.is_match(&f));
    assert!(!AllMatcher.is_match(&d));
    assert!(!AllMatcher.is_match(&l));
    let any_dir = DirMatcher { pattern: None, case_sensitive: false };
    assert!(any_dir.is_match(&d));
    assert!(!any_dir.is_match(&f));
    let photos = DirMatcher { pattern: Some("photo".into()), case_sensitive: false };
    assert!(photos.is_match(&d));
    let strict = DirMatcher { pattern: Some("photo".into()), case_sensitive: true };
    assert!(!strict.is_match(&d));
}

#[test]
fn directories_only_mode_counts_files_without_matching_them() {
    let mut cfg = config(None, vec![]);
    cfg.dirs_only = true;
    let src = source_for("/r".to_string(), &cfg);
    let mut items = Vec::new();
    walk(&src, &sample_tree(), "/r", 1, &mut items);
    let r = scan_items(settings_for(&cfg), items, 0);
    assert_eq!(r.matches, 1);
    assert_eq!(r.paths, vec!["/r/sub".to_string()]);
    assert_eq!(r.dirs, 1);
    assert_eq!(r.files, 4);
}

#[test]
fn matcher_selection_follows_mode_order() {
    let mut cfg = config(Some("rs"), vec![]);
    assert!(matches!(select_matcher(&cfg), Matcher::Ext(_)));
    cfg.dirs_only = true;
    assert!(matches!(select_matcher(&cfg), Matcher::Dir(_)));
    cfg.all = true;
    assert!(matches!(select_matcher(&cfg), Matcher::All(_)));
    let mut plain = config(None, vec![]);
    plain.pattern = Some("inv".into());
    match select_matcher(&plain) {
        Matcher::Name(n) => assert_eq!(n.pattern, "inv"),
        _ => panic!("expected a name matcher"),
    }
    match select_matcher(&config(None, vec![])) {
        Matcher::Name(n) => assert_eq!(n.pattern, ""),
        _ => panic!("expected a name matcher"),
    }
}

#[test]
fn root_is_never_reported_and_symlinks_are_kept() {
    let src = DirectorySource::new("/r".into());
    let root = RawEntry { path: "/r".into(), name: "r".into(), depth: 0, is_dir: true, is_file: false, is_symlink: false };
    assert!(!src.must_probe(&root));
    assert!(matches!(src.visit(root, None), Visit::Continue));
    let link = RawEntry { path: "/r/l".into(), name: "l".into(), depth: 1, is_dir: false, is_file: false, is_symlink: true };
    match src.visit(link, None) {
        Visit::Emit(e) => assert_eq!(e.kind, EntryKind::Symlink),
        _ => panic!("expected an entry"),
    }
    let odd = RawEntry { path: "/r/p".into(), name: "p".into(), depth: 1, is_dir: false, is_file: false, is_symlink: false };
    match src.visit(odd, None) {
        Visit::Emit(e) => assert_eq!(e.kind, EntryKind::File),
        _ => panic!("expected an entry"),
    }
}

#[test]
fn unopenable_directory_other_failure_is_io() {
    let src = DirectorySource::new("/r".into());
    let raw = RawEntry { path: "/r/gone".into(), name: "gone".into(), depth: 2, is_dir: true, is_file: false, is_symlink: false };
    let f = IoFailure { kind: IoFailureKind::Other, message: "removed".into() };
    match src.visit(raw, Some(f)) {
        Visit::Fail(ScanError::Io { path, cause }) => {
            assert_eq!(path, "/r/gone");
            assert_eq!(cause, "removed");
        }
        _ => panic!("expected an I/O failure"),
    }
}

#[test]
fn walker_failures_map_to_the_taxonomy() {
    let denied = WalkFailure::WithPath {
        path: "/r/a".into(),
        inner: Box::new(WalkFailure::Io(IoFailure { kind: IoFailureKind::PermissionDenied, message: "no".into() })),
    };
    assert!(matches!(map_walk_failure(denied), Some(ScanError::PermissionDenied(p)) if p == "/r/a"));
    let other = WalkFailure::WithPath {
        path: "/r/b".into(),
        inner: Box::new(WalkFailure::Io(IoFailure { kind: IoFailureKind::Other, message: "bad".into() })),
    };
    assert!(matches!(map_walk_failure(other), Some(ScanError::Io { path, .. }) if path == "/r/b"));
    let looped = WalkFailure::Loop { ancestor: "/r".into(), child: "/r/x".into() };
    assert!(matches!(map_walk_failure(looped), Some(ScanError::SymlinkLoop(p)) if p == "/r/x"));
    let bare = WalkFailure::Io(IoFailure { kind: IoFailureKind::PermissionDenied, message: "m".into() });
    assert!(matches!(map_walk_failure(bare), Some(ScanError::Io { path, cause }) if path.is_empty() && cause == "m"));
    assert!(map_walk_failure(WalkFailure::Other("glob".into())).is_none());
    let nested = WalkFailure::WithPath { path: "/r/c".into(), inner: Box::new(WalkFailure::Other("x".into())) };
    assert!(map_walk_failure(nested).is_none());
}

#[test]
fn batch_hands_over_everything_in_order() {
    let mut batch = Batch::new();
    let mut sent: Vec<ScanItem> = Vec::new();
    for i in 0..300 {
        if let Some(b) = batch.push(entry(&format!("f{}", i), EntryKind::File)) {
            assert_eq!(b.len(), BATCH_SIZE);
            sent.extend(b);
        }
        if i == 200 {
            for b in batch.push_error(ScanError::PermissionDenied("/r/x".into())) {
                sent.extend(b);
            }
            assert!(batch.is_empty());
        }
    }
    if let Some(b) = batch.flush() {
        sent.extend(b);
    }
    assert!(batch.flush().is_none());
    assert_eq!(sent.len(), 301);
    let names: Vec<String> = sent
        .iter()
        .map(|i| match i {
            Ok(e) => e.name.clone(),
            Err(_) => "error".to_string(),
        })
        .collect();
    assert_eq!(names[0], "f0");
    assert_eq!(names[200], "f200");
    assert_eq!(names[201], "error");
    assert_eq!(names[300], "f299");
}

#[test]
fn builder_sets_each_option() {
    let src = DirectorySource::new("/data".into()).exclude(vec!["node_modules".into()]).dirs_only(true).follow_links(true);
    assert_eq!(src.root, "/data");
    assert_eq!(src.exclude, vec!["node_modules".to_string()]);
    assert!(src.dirs_only);
    assert!(src.follow_links);
    let plain = DirectorySource::new("/x".into());
    assert!(plain.exclude.is_empty() && !plain.dirs_only && !plain.follow_links);
}

use vstd::prelude::*;
use crate::entry::{EntryKind, EntryView, ItemView, ScanErrorView};
use crate::laws::{completeness, count_if, lemma_count_concat, of_kind};
use crate::search::ScanSettings;
use crate::source::{DirectorySource, RawEntry, VisitView, listed};

verus! {

/// A directory tree below a scan root, as mathematics: each node has a name,
/// is a directory or a file, can be opened for listing or not, and has children.
pub enum Tree {
    Node { name: Seq<char>, is_dir: bool, readable: bool, children: Seq<Tree> },
}

/// What a walk does that can be observed: opening a directory to list it, or
/// reporting an entry.
pub enum WalkEvent {
    Opened(Seq<char>, nat),
    Reported(EntryKind, Seq<char>, nat),
    Failed(Seq<char>, nat),
}

/// The events of walking one node at `depth`: an excluded directory gives
/// nothing and is not opened; a kept directory is opened, and then either
/// fails once, without descending, or is reported and its children walked one
/// level down; a file is reported.
pub open spec fn walk_node(src: &DirectorySource, t: Tree, depth: nat) -> Seq<WalkEvent>
    decreases t,
{
    match t {
        Tree::Node { name, is_dir, readable, children } => if is_dir {
            if listed(src.exclude@, name) {
                Seq::empty()
            } else if !readable {
                seq![WalkEvent::Opened(name, depth), WalkEvent::Failed(name, depth)]
            } else {
                seq![WalkEvent::Opened(name, depth), WalkEvent::Reported(EntryKind::Dir, name, depth)]
                    + walk_list(src, children, depth + 1)
            }
        } else {
            seq![WalkEvent::Reported(EntryKind::File, name, depth)]
        },
    }
}

/// The events of walking sibling nodes in order.
pub open spec fn walk_list(src: &DirectorySource, ts: Seq<Tree>, depth: nat) -> Seq<WalkEvent>
    decreases ts,
{
    if ts.len() == 0 {
        Seq::empty()
    } else {
        walk_node(src, ts[0], depth) + walk_list(src, ts.subrange(1, ts.len() as int), depth)
    }
}

/// The model makes the walker's own choices: for a node under the root that
/// is a directory or a file, `visit` skips an excluded directory, reports a
/// kept one (after it is opened) and reports a file; and only kept
/// directories are opened.
pub proof fn model_follows_visit(src: &DirectorySource, raw: &RawEntry)
    requires
        raw.depth > 0,
        raw.is_file == !raw.is_dir,
        !raw.is_symlink,
    ensures
        src.spec_must_probe(raw) == (raw.is_dir && !listed(src.exclude@, raw.name@)),
        src.spec_visit(raw, &None) == if raw.is_dir {
            if listed(src.exclude@, raw.name@) {
                VisitView::Skip
            } else {
                VisitView::Emit(
                    EntryView {
                        path: raw.path@,
                        name: raw.name@,
                        kind: EntryKind::Dir,
                        depth: raw.depth as nat,
                    },
                )
            }
        } else {
            VisitView::Emit(
                EntryView {
                    path: raw.path@,
                    name: raw.name@,
                    kind: EntryKind::File,
                    depth: raw.depth as nat,
                },
            )
        },
{
}

/// How many directories (`dir`) or files (`!dir`) a node holds, itself
/// included; a file holds nothing but itself.
pub open spec fn node_count(t: Tree, dir: bool) -> nat
    decreases t,
{
    match t {
        Tree::Node { is_dir, children, .. } => if is_dir {
            (if dir {
                1nat
            } else {
                0nat
            }) + list_count(children, dir)
        } else if dir {
            0
        } else {
            1
        },
    }
}

/// How many nodes of one kind a list of sibling subtrees holds.
pub open spec fn list_count(ts: Seq<Tree>, dir: bool) -> nat
    decreases ts,
{
    if ts.len() == 0 {
        0
    } else {
        node_count(ts[0], dir) + list_count(ts.subrange(1, ts.len() as int), dir)
    }
}

/// Every directory in the subtree can be opened.
pub open spec fn node_readable(t: Tree) -> bool
    decreases t,
{
    match t {
        Tree::Node { is_dir, readable, children, .. } => (!is_dir || readable) && list_readable(
            children,
        ),
    }
}

pub open spec fn list_readable(ts: Seq<Tree>) -> bool
    decreases ts,
{
    ts.len() == 0 || (node_readable(ts[0]) && list_readable(ts.subrange(1, ts.len() as int)))
}

/// How many events report an entry of the given kind.
pub open spec fn reports(ev: Seq<WalkEvent>, k: EntryKind) -> nat
    decreases ev.len(),
{
    if ev.len() == 0 {
        0
    } else {
        reports(ev.drop_last(), k) + match ev.last() {
            WalkEvent::Reported(kind, _, _) => if kind == k {
                1nat
            } else {
                0nat
            },
            _ => 0nat,
        }
    }
}

proof fn lemma_reports_concat(a: Seq<WalkEvent>, b: Seq<WalkEvent>, k: EntryKind)
    ensures
        reports(a + b, k) == reports(a, k) + reports(b, k),
    decreases b.len(),
{
    if b.len() == 0 {
        assert(a + b =~= a);
    } else {
        lemma_reports_concat(a, b.drop_last(), k);
        assert((a + b).drop_last() =~= a + b.drop_last());
    }
}

proof fn lemma_node_complete(src: &DirectorySource, t: Tree, depth: nat)
    requires
        src.exclude@.len() == 0,
        node_readable(t),
    ensures
        reports(walk_node(src, t, depth), EntryKind::File) == node_count(t, false),
        reports(walk_node(src, t, depth), EntryKind::Dir) == node_count(t, true),
    decreases t,
{
    match t {
        Tree::Node { name, is_dir, readable, children } => {
            if is_dir {
                assert(!listed(src.exclude@, name));
                let head = seq![
                    WalkEvent::Opened(name, depth),
                    WalkEvent::Reported(EntryKind::Dir, name, depth),
                ];
                lemma_list_complete(src, children, depth + 1);
                lemma_reports_concat(head, walk_list(src, children, depth + 1), EntryKind::File);
                lemma_reports_concat(head, walk_list(src, children, depth + 1), EntryKind::Dir);
                assert(head.drop_last().drop_last() =~= Seq::<WalkEvent>::empty());
                assert(reports(head.drop_last().drop_last(), EntryKind::File) == 0);
                assert(reports(head.drop_last().drop_last(), EntryKind::Dir) == 0);
                assert(head.drop_last().last() == WalkEvent::Opened(name, depth));
                assert(reports(head.drop_last(), EntryKind::File) == 0);
                assert(reports(head.drop_last(), EntryKind::Dir) == 0);
                assert(reports(head, EntryKind::File) == 0);
                assert(reports(head, EntryKind::Dir) == 1);
                assert(walk_node(src, t, depth) == head + walk_list(src, children, depth + 1));
            } else {
                let one = seq![WalkEvent::Reported(EntryKind::File, name, depth)];
                assert(one.drop_last() =~= Seq::<WalkEvent>::empty());
                assert(reports(one.drop_last(), EntryKind::File) == 0);
                assert(reports(one.drop_last(), EntryKind::Dir) == 0);
                assert(reports(one, EntryKind::File) == 1);
                assert(reports(one, EntryKind::Dir) == 0);
            }
        },
    }
}

proof fn lemma_list_complete(src: &DirectorySource, ts: Seq<Tree>, depth: nat)
    requires
        src.exclude@.len() == 0,
        list_readable(ts),
    ensures
        reports(walk_list(src, ts, depth), EntryKind::File) == list_count(ts, false),
        reports(walk_list(src, ts, depth), EntryKind::Dir) == list_count(ts, true),
    decreases ts,
{
    if ts.len() > 0 {
        let rest = ts.subrange(1, ts.len() as int);
        lemma_node_complete(src, ts[0], depth);
        lemma_list_complete(src, rest, depth);
        lemma_reports_concat(walk_node(src, ts[0], depth), walk_list(src, rest, depth), EntryKind::File);
        lemma_reports_concat(walk_node(src, ts[0], depth), walk_list(src, rest, depth), EntryKind::Dir);
    }
}

/// Completeness of the walk: with nothing excluded and every directory
/// readable, the walk below a root reports each file and each directory of
/// the tree exactly once (N files and M directories give N and M reports).
pub proof fn walk_complete(src: &DirectorySource, ts: Seq<Tree>)
    requires
        src.exclude@.len() == 0,
        list_readable(ts),
    ensures
        reports(walk_list(src, ts, 1), EntryKind::File) == list_count(ts, false),
        reports(walk_list(src, ts, 1), EntryKind::Dir) == list_count(ts, true),
{
    lemma_list_complete(src, ts, 1);
}

proof fn lemma_walk_concat(src: &DirectorySource, a: Seq<Tree>, b: Seq<Tree>, depth: nat)
    ensures
        walk_list(src, a + b, depth) == walk_list(src, a, depth) + walk_list(src, b, depth),
    decreases a.len(),
{
    if a.len() == 0 {
        assert(a + b =~= b);
        assert(walk_list(src, a, depth) =~= Seq::<WalkEvent>::empty());
        assert(walk_list(src, a, depth) + walk_list(src, b, depth) =~= walk_list(src, b, depth));
    } else {
        let ra = a.subrange(1, a.len() as int);
        lemma_walk_concat(src, ra, b, depth);
        assert((a + b)[0] == a[0]);
        assert((a + b).subrange(1, (a + b).len() as int) =~= ra + b);
        assert(walk_list(src, a + b, depth) =~= walk_node(src, a[0], depth) + walk_list(
            src,
            ra + b,
            depth,
        ));
    }
}

/// Error isolation: a kept directory that cannot be opened gives exactly one
/// failure, for itself, and nothing from below it; its siblings before and
/// after are walked exactly as they would be without it.
pub proof fn unreadable_isolated(src: &DirectorySource, ts: Seq<Tree>, k: int, depth: nat)
    requires
        0 <= k < ts.len(),
        ts[k]->is_dir,
        !ts[k]->readable,
        !listed(src.exclude@, ts[k]->name),
    ensures
        walk_list(src, ts, depth) == walk_list(src, ts.take(k), depth) + seq![
            WalkEvent::Opened(ts[k]->name, depth),
            WalkEvent::Failed(ts[k]->name, depth),
        ] + walk_list(src, ts.skip(k + 1), depth),
{
    let one = seq![ts[k]];
    assert(ts =~= ts.take(k) + one + ts.skip(k + 1));
    lemma_walk_concat(src, ts.take(k) + one, ts.skip(k + 1), depth);
    lemma_walk_concat(src, ts.take(k), one, depth);
    assert(one.subrange(1, 1) =~= Seq::<Tree>::empty());
    assert(walk_list(src, one.subrange(1, 1), depth) =~= Seq::<WalkEvent>::empty());
    assert(walk_list(src, one, depth) =~= walk_node(src, ts[k], depth));
}

/// Exclusion pruning: among sibling subtrees, one rooted at a directory whose
/// name is excluded contributes nothing to the walk: no entry of it is
/// reported and none of its directories is opened, exactly as if it were absent.
pub proof fn exclusion_prunes(src: &DirectorySource, ts: Seq<Tree>, k: int, depth: nat)
    requires
        0 <= k < ts.len(),
        ts[k]->is_dir,
        listed(src.exclude@, ts[k]->name),
    ensures
        walk_list(src, ts, depth) == walk_list(src, ts.remove(k), depth),
    decreases ts.len(),
{
    let rest = ts.subrange(1, ts.len() as int);
    if k == 0 {
        assert(walk_node(src, ts[0], depth) =~= Seq::<WalkEvent>::empty());
        assert(ts.remove(0) =~= rest);
        assert(walk_list(src, ts, depth) =~= walk_list(src, rest, depth));
    } else {
        assert(rest[k - 1] == ts[k]);
        exclusion_prunes(src, rest, k - 1, depth);
        let r = ts.remove(k);
        assert(r[0] == ts[0]);
        assert(r.subrange(1, r.len() as int) =~= rest.remove(k - 1));
    }
}

/// The stream elements a walk's events hand to the engine: a report becomes
/// an entry (its name standing for its path), a failure an error, and an
/// opening nothing.
pub open spec fn event_items(ev: Seq<WalkEvent>) -> Seq<ItemView>
    decreases ev.len(),
{
    if ev.len() == 0 {
        Seq::empty()
    } else {
        event_items(ev.drop_last()) + match ev.last() {
            WalkEvent::Opened(_, _) => Seq::empty(),
            WalkEvent::Reported(kind, name, depth) => seq![
                ItemView::Found(EntryView { path: name, name, kind, depth }),
            ],
            WalkEvent::Failed(name, _) => seq![
                ItemView::Failed(ScanErrorView::PermissionDenied(name)),
            ],
        }
    }
}

proof fn lemma_items_count(ev: Seq<WalkEvent>, k: EntryKind)
    ensures
        count_if(event_items(ev), of_kind(k)) == reports(ev, k),
    decreases ev.len(),
{
    if ev.len() > 0 {
        lemma_items_count(ev.drop_last(), k);
        let tail: Seq<ItemView> = match ev.last() {
            WalkEvent::Opened(_, _) => Seq::empty(),
            WalkEvent::Reported(kind, name, depth) => seq![
                ItemView::Found(EntryView { path: name, name, kind, depth }),
            ],
            WalkEvent::Failed(name, _) => seq![
                ItemView::Failed(ScanErrorView::PermissionDenied(name)),
            ],
        };
        lemma_count_concat(event_items(ev.drop_last()), tail, of_kind(k));
        if tail.len() == 1 {
            assert(tail.drop_last() =~= Seq::<ItemView>::empty());
            assert(count_if(tail.drop_last(), of_kind(k)) == 0);
        } else {
            assert(count_if(tail, of_kind(k)) == 0);
        }
    }
}

/// Completeness of a scan: for a tree below the root with N files and M
/// directories, nothing excluded and every directory readable, scanning what
/// the walk reports with the all-files matcher and no quota counts N files
/// and M directories and reports N matches, whatever the thread count
/// (the engine counts a stream, and the walk reports each node once).
pub proof fn scan_of_tree_complete(src: &DirectorySource, settings: ScanSettings, ts: Seq<Tree>)
    requires
        src.exclude@.len() == 0,
        list_readable(ts),
        settings.matcher is All,
        settings.limit is None,
    ensures
        settings.run(event_items(walk_list(src, ts, 1))).files == list_count(ts, false),
        settings.run(event_items(walk_list(src, ts, 1))).dirs == list_count(ts, true),
        settings.clamp(settings.run(event_items(walk_list(src, ts, 1))).matches) == list_count(
            ts,
            false,
        ),
{
    let ev = walk_list(src, ts, 1);
    walk_complete(src, ts);
    completeness(settings, event_items(ev));
    lemma_items_count(ev, EntryKind::File);
    lemma_items_count(ev, EntryKind::Dir);
}

/// Exclusion pruning, as a scan sees it: a scan of a walk whose siblings
/// include an excluded directory's subtree gives exactly the result of a scan
/// without that subtree (no count, match, path or error comes from it).
pub proof fn scan_ignores_excluded(
    src: &DirectorySource,
    settings: ScanSettings,
    ts: Seq<Tree>,
    k: int,
)
    requires
        0 <= k < ts.len(),
        ts[k]->is_dir,
        listed(src.exclude@, ts[k]->name),
    ensures
        settings.run(event_items(walk_list(src, ts, 1))) == settings.run(
            event_items(walk_list(src, ts.remove(k), 1)),
        ),
{
    exclusion_prunes(src, ts, k, 1);
}

} // verus!

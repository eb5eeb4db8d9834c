use vstd::prelude::*;
use crate::entry::{
    Entry, EntryKind, EntryView, ItemView, ScanError, ScanErrorView, ScanItem, item_view,
};

verus! {

/// How many stream items a worker buffers before handing them over at once.
pub const BATCH_SIZE: usize = 128;

/// Whether `name` is one of the names in `list`.
pub open spec fn listed(list: Seq<String>, name: Seq<char>) -> bool {
    exists|i: int| 0 <= i < list.len() && (#[trigger] list[i])@ == name
}

/// Whether `name` is exactly one of the names in `list`.
pub fn is_listed(list: &Vec<String>, name: &String) -> (r: bool)
    ensures
        r == listed(list@, name@),
{
    let mut i: usize = 0;
    while i < list.len()
        invariant
            i <= list@.len(),
            forall|k: int| 0 <= k < i ==> (#[trigger] list@[k])@ != name@,
        decreases list@.len() - i,
    {
        if list[i] == *name {
            return true;
        }
        i = i + 1;
    }
    false
}

/// The configuration of a directory walk: its root, the directory names to
/// prune wherever they occur, whether the search is after directories only
/// (files are still reported, to be counted, but the matcher takes none of
/// them), and whether symbolic links are followed.
pub struct DirectorySource {
    pub root: String,
    pub exclude: Vec<String>,
    pub dirs_only: bool,
    pub follow_links: bool,
}

/// A node as the walker meets it, before any decision: its file-type flags
/// are all false where the type could not be read.
pub struct RawEntry {
    pub path: String,
    pub name: String,
    pub depth: usize,
    pub is_dir: bool,
    pub is_file: bool,
    pub is_symlink: bool,
}

/// The kind of an I/O failure, as far as the error taxonomy tells kinds apart.
#[derive(Clone, Copy, Debug, PartialEq, Eq, Structural)]
pub enum IoFailureKind {
    PermissionDenied,
    Other,
}

/// A failed read: its kind and a description of its cause.
pub struct IoFailure {
    pub kind: IoFailureKind,
    pub message: String,
}

/// A failure that the walker reports instead of an entry.
pub enum WalkFailure {
    /// A failure tied to a path.
    WithPath { path: String, inner: Box<WalkFailure> },
    /// A read failure without a path.
    Io(IoFailure),
    /// Following links led back to an ancestor.
    Loop { ancestor: String, child: String },
    /// Anything else the walker can report (ignore files, partial errors).
    Other(String),
}

/// The mathematical content of a decision.
pub enum VisitView {
    Continue,
    Skip,
    Emit(EntryView),
    Fail(ScanErrorView),
}

impl View for Visit {
    type V = VisitView;

    open spec fn view(&self) -> VisitView {
        match self {
            Visit::Continue => VisitView::Continue,
            Visit::Skip => VisitView::Skip,
            Visit::Emit(e) => VisitView::Emit(e@),
            Visit::Fail(e) => VisitView::Fail(e@),
        }
    }
}

/// What the walker does with one node.
pub enum Visit {
    /// Go on, reporting nothing for this node.
    Continue,
    /// Report nothing and do not descend below this node.
    Skip,
    /// Report this entry and go on.
    Emit(Entry),
    /// Report this error and do not descend below this node.
    Fail(ScanError),
}

/// The kind given to a node from its file-type flags.
pub open spec fn kind_of(raw: &RawEntry) -> EntryKind {
    if raw.is_dir {
        EntryKind::Dir
    } else if raw.is_symlink {
        EntryKind::Symlink
    } else {
        EntryKind::File
    }
}

/// The error reported for a directory that cannot be listed.
pub open spec fn open_error(path: Seq<char>, f: &IoFailure) -> ScanErrorView {
    match f.kind {
        IoFailureKind::PermissionDenied => ScanErrorView::PermissionDenied(path),
        IoFailureKind::Other => ScanErrorView::Io(path, f.message@),
    }
}

/// The error taxonomy's reading of a walker failure; `None` for failures
/// outside it, which are not scan errors.
pub open spec fn failure_spec(f: &WalkFailure) -> Option<ScanErrorView> {
    match f {
        WalkFailure::WithPath { path, inner } => match **inner {
            WalkFailure::Io(e) => Some(open_error(path@, &e)),
            _ => None,
        },
        WalkFailure::Loop { child, .. } => Some(ScanErrorView::SymlinkLoop(child@)),
        WalkFailure::Io(e) => Some(ScanErrorView::Io(Seq::empty(), e.message@)),
        WalkFailure::Other(_) => None,
    }
}

/// Classifies a walker failure into the error taxonomy.
pub fn map_walk_failure(f: WalkFailure) -> (r: Option<ScanError>)
    ensures
        match failure_spec(&f) {
            None => r is None,
            Some(e) => r is Some && r->0@ == e,
        },
{
    match f {
        WalkFailure::WithPath { path, inner } => match *inner {
            WalkFailure::Io(e) => match e.kind {
                IoFailureKind::PermissionDenied => Some(ScanError::PermissionDenied(path)),
                IoFailureKind::Other => Some(ScanError::Io { path, cause: e.message }),
            },
            _ => None,
        },
        WalkFailure::Loop { child, .. } => Some(ScanError::SymlinkLoop(child)),
        WalkFailure::Io(e) => Some(ScanError::Io { path: String::new(), cause: e.message }),
        WalkFailure::Other(_) => None,
    }
}

impl DirectorySource {
    /// Whether the walk prunes this node's subtree because of its name.
    pub open spec fn spec_excluded(&self, raw: &RawEntry) -> bool {
        raw.is_dir && listed(self.exclude@, raw.name@)
    }

    /// Whether the node is a directory that must be opened before it is reported.
    pub open spec fn spec_must_probe(&self, raw: &RawEntry) -> bool {
        raw.depth > 0 && raw.is_dir && !self.spec_excluded(raw)
    }

    /// The decision for one node, given the outcome of opening it when it is
    /// a directory that must be probed (`None` when it opened, or was not probed).
    pub open spec fn spec_visit(&self, raw: &RawEntry, opened: &Option<IoFailure>) -> VisitView {
        if raw.depth == 0 {
            VisitView::Continue
        } else if self.spec_excluded(raw) {
            VisitView::Skip
        } else if raw.is_dir && opened is Some {
            VisitView::Fail(open_error(raw.path@, &opened->0))
        } else {
            VisitView::Emit(
                EntryView {
                    path: raw.path@,
                    name: raw.name@,
                    kind: kind_of(raw),
                    depth: raw.depth as nat,
                },
            )
        }
    }

    /// A walk of `root` that excludes nothing, keeps files and does not follow links.
    pub fn new(root: String) -> (r: Self)
        ensures
            r.root == root,
            r.exclude@.len() == 0,
            !r.dirs_only,
            !r.follow_links,
    {
        DirectorySource { root, exclude: Vec::new(), dirs_only: false, follow_links: false }
    }

    /// The same walk, pruning directories with these names.
    pub fn exclude(self, dirs: Vec<String>) -> (r: Self)
        ensures
            r.root == self.root,
            r.exclude@ == dirs@,
            r.dirs_only == self.dirs_only,
            r.follow_links == self.follow_links,
    {
        DirectorySource { exclude: dirs, ..self }
    }

    /// The same walk, for a search after directories only when `yes`.
    pub fn dirs_only(self, yes: bool) -> (r: Self)
        ensures
            r.root == self.root,
            r.exclude@ == self.exclude@,
            r.dirs_only == yes,
            r.follow_links == self.follow_links,
    {
        DirectorySource { dirs_only: yes, ..self }
    }

    /// The same walk, following symbolic links when `yes`.
    pub fn follow_links(self, yes: bool) -> (r: Self)
        ensures
            r.root == self.root,
            r.exclude@ == self.exclude@,
            r.dirs_only == self.dirs_only,
            r.follow_links == yes,
    {
        DirectorySource { follow_links: yes, ..self }
    }

    /// Whether the node is a directory under the root that the walk keeps:
    /// the walker must try to open it and hand the outcome to `visit`.
    pub fn must_probe(&self, raw: &RawEntry) -> (r: bool)
        ensures
            r == self.spec_must_probe(raw),
    {
        raw.depth > 0 && raw.is_dir && !is_listed(&self.exclude, &raw.name)
    }

    /// Decides what the walk does with one node. The root is never reported;
    /// an excluded directory is pruned before it is opened; a directory that
    /// cannot be opened gives one error and is not descended into. Files are
    /// reported in every mode, so that they are counted.
    pub fn visit(&self, raw: RawEntry, opened: Option<IoFailure>) -> (r: Visit)
        ensures
            r@ == self.spec_visit(&raw, &opened),
    {
        if raw.depth == 0 {
            return Visit::Continue;
        }
        if raw.is_dir && is_listed(&self.exclude, &raw.name) {
            return Visit::Skip;
        }
        if raw.is_dir {
            if let Some(f) = opened {
                let e = match f.kind {
                    IoFailureKind::PermissionDenied => ScanError::PermissionDenied(raw.path),
                    IoFailureKind::Other => ScanError::Io { path: raw.path, cause: f.message },
                };
                return Visit::Fail(e);
            }
        }
        let kind = if raw.is_dir {
            EntryKind::Dir
        } else if raw.is_symlink {
            EntryKind::Symlink
        } else {
            EntryKind::File
        };
        Visit::Emit(Entry { path: raw.path, name: raw.name, kind, depth: raw.depth })
    }
}

/// The views of a sequence of stream items.
pub open spec fn items_view(s: Seq<ScanItem>) -> Seq<ItemView> {
    s.map_values(|i: ScanItem| item_view(i))
}

/// The items of a sequence of batches, in order.
pub open spec fn flatten_batches(bs: Seq<Vec<ScanItem>>) -> Seq<ItemView>
    decreases bs.len(),
{
    if bs.len() == 0 {
        Seq::empty()
    } else {
        flatten_batches(bs.drop_last()) + items_view(bs.last()@)
    }
}

/// A worker's buffer of stream items, handed over in batches of at most
/// `BATCH_SIZE`. Whatever goes in comes out, in order: what it has handed
/// over so far, followed by what it still holds, is what was pushed.
pub struct Batch {
    items: Vec<ScanItem>,
}

impl View for Batch {
    type V = Seq<ItemView>;

    closed spec fn view(&self) -> Seq<ItemView> {
        items_view(self.items@)
    }
}

impl Batch {
    pub closed spec fn wf(&self) -> bool {
        self.items@.len() < BATCH_SIZE
    }

    /// An empty buffer.
    pub fn new() -> (r: Batch)
        ensures
            r.wf(),
            r@ == Seq::<ItemView>::empty(),
    {
        let r = Batch { items: Vec::new() };
        assert(r@ =~= Seq::<ItemView>::empty());
        r
    }

    /// Whether the buffer holds nothing.
    pub fn is_empty(&self) -> (r: bool)
        ensures
            r == (self@.len() == 0),
    {
        self.items.len() == 0
    }

    /// Takes everything the buffer holds, leaving it empty.
    fn take_all(&mut self) -> (r: Vec<ScanItem>)
        ensures
            final(self).wf(),
            final(self)@ == Seq::<ItemView>::empty(),
            items_view(r@) == old(self)@,
    {
        let mut r: Vec<ScanItem> = Vec::new();
        std::mem::swap(&mut self.items, &mut r);
        assert(self@ =~= Seq::<ItemView>::empty());
        r
    }

    /// Adds an entry; hands over a full batch once `BATCH_SIZE` items are held.
    pub fn push(&mut self, entry: Entry) -> (r: Option<Vec<ScanItem>>)
        requires
            old(self).wf(),
        ensures
            final(self).wf(),
            match r {
                None => final(self)@ == old(self)@.push(item_view(Ok(entry))),
                Some(b) => {
                    &&& final(self)@.len() == 0
                    &&& b@.len() == BATCH_SIZE
                    &&& items_view(b@) == old(self)@.push(item_view(Ok(entry)))
                },
            },
    {
        let ghost before = self@;
        self.items.push(Ok(entry));
        assert(self@ =~= before.push(item_view(Ok(entry))));
        if self.items.len() >= BATCH_SIZE {
            let b = self.take_all();
            Some(b)
        } else {
            None
        }
    }

    /// Reports an error: first hands over what is held, then the error on its own.
    pub fn push_error(&mut self, e: ScanError) -> (r: Vec<Vec<ScanItem>>)
        requires
            old(self).wf(),
        ensures
            final(self).wf(),
            final(self)@.len() == 0,
            flatten_batches(r@) == old(self)@.push(item_view(Err(e))),
            forall|i: int| 0 <= i < r@.len() ==> (#[trigger] r@[i])@.len() > 0,
    {
        let mut out: Vec<Vec<ScanItem>> = Vec::new();
        let ghost before = self@;
        if !self.is_empty() {
            let b = self.take_all();
            out.push(b);
            assert(out@.drop_last() =~= Seq::<Vec<ScanItem>>::empty());
            assert(flatten_batches(out@.drop_last()) =~= Seq::<ItemView>::empty());
            assert(out@.last() == b);
            assert(flatten_batches(out@) =~= before);
        } else {
            assert(flatten_batches(out@) =~= before);
        }
        let ghost mid = out@;
        let mut single: Vec<ScanItem> = Vec::new();
        single.push(Err(e));
        out.push(single);
        assert(out@.drop_last() == mid);
        assert(items_view(single@) =~= seq![item_view(Err(e))]);
        assert(flatten_batches(out@) =~= before.push(item_view(Err(e))));
        out
    }

    /// Hands over what is left when the worker finishes, if anything is.
    pub fn flush(&mut self) -> (r: Option<Vec<ScanItem>>)
        requires
            old(self).wf(),
        ensures
            final(self).wf(),
            final(self)@.len() == 0,
            match r {
                None => old(self)@.len() == 0,
                Some(b) => b@.len() > 0 && items_view(b@) == old(self)@,
            },
    {
        if self.is_empty() {
            None
        } else {
            Some(self.take_all())
        }
    }
}

} // verus!

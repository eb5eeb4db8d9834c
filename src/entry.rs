use vstd::prelude::*;

verus! {

/// The kind of a filesystem node that the walker reports.
#[derive(Clone, Copy, Debug, PartialEq, Eq, Structural)]
pub enum EntryKind {
    File,
    Dir,
    Symlink,
    Other,
}

/// One node found during a walk: its path, its file name, its kind and its
/// distance from the scan root (the root itself is at depth 0 and never reported).
#[derive(Clone, Debug)]
pub struct Entry {
    pub path: String,
    pub name: String,
    pub kind: EntryKind,
    pub depth: usize,
}

/// A path that could not be read during a walk. It never aborts the scan.
#[derive(Clone, Debug)]
pub enum ScanError {
    PermissionDenied(String),
    SymlinkLoop(String),
    Io { path: String, cause: String },
}

impl ScanError {
    /// The path that the error is about.
    pub fn path(&self) -> (r: &String)
        ensures
            r == match self {
                ScanError::PermissionDenied(p) => p,
                ScanError::SymlinkLoop(p) => p,
                ScanError::Io { path, .. } => path,
            },
    {
        match self {
            ScanError::PermissionDenied(p) => p,
            ScanError::SymlinkLoop(p) => p,
            ScanError::Io { path, .. } => path,
        }
    }
}

/// The mathematical content of an entry.
pub struct EntryView {
    pub path: Seq<char>,
    pub name: Seq<char>,
    pub kind: EntryKind,
    pub depth: nat,
}

impl View for Entry {
    type V = EntryView;

    open spec fn view(&self) -> EntryView {
        EntryView { path: self.path@, name: self.name@, kind: self.kind, depth: self.depth as nat }
    }
}

/// The mathematical content of a scan error.
pub enum ScanErrorView {
    PermissionDenied(Seq<char>),
    SymlinkLoop(Seq<char>),
    Io(Seq<char>, Seq<char>),
}

impl View for ScanError {
    type V = ScanErrorView;

    open spec fn view(&self) -> ScanErrorView {
        match self {
            ScanError::PermissionDenied(p) => ScanErrorView::PermissionDenied(p@),
            ScanError::SymlinkLoop(p) => ScanErrorView::SymlinkLoop(p@),
            ScanError::Io { path, cause } => ScanErrorView::Io(path@, cause@),
        }
    }
}

/// One element of the walker's stream: an entry, or a path that failed.
pub type ScanItem = Result<Entry, ScanError>;

/// The mathematical content of a stream element.
pub enum ItemView {
    Found(EntryView),
    Failed(ScanErrorView),
}

pub open spec fn item_view(item: ScanItem) -> ItemView {
    match item {
        Ok(e) => ItemView::Found(e@),
        Err(e) => ItemView::Failed(e@),
    }
}

} // verus!

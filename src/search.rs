use vstd::prelude::*;
use crate::entry::{EntryKind, ItemView, ScanError, ScanErrorView, ScanItem, item_view};
use crate::matcher::{AllMatcher, DirMatcher, ExtMatcher, Matcher, NameMatcher};
use crate::source::{DirectorySource, items_view};

verus! {

/// The final snapshot of one scan: the match count clamped to the quota, the
/// files and directories seen, how long it took, and the collected paths and
/// errors (empty unless asked for).
pub struct ScanResult {
    pub matches: usize,
    pub files: usize,
    pub dirs: usize,
    pub duration_micros: u64,
    pub paths: Vec<String>,
    pub errors: Vec<ScanError>,
}

/// The resolved options of one search.
pub struct Config {
    pub case_sensitive: bool,
    pub quiet: bool,
    pub all: bool,
    pub dirs_only: bool,
    pub extension: Option<String>,
    pub pattern: Option<String>,
    pub limit: Option<usize>,
    pub threads: usize,
    pub collect_paths: bool,
    pub collect_errors: bool,
    pub exclude: Vec<String>,
}

/// What the engine needs to know: the matcher, the quota and what to collect.
pub struct ScanSettings {
    pub matcher: Matcher,
    pub limit: Option<usize>,
    pub collect_paths: bool,
    pub collect_errors: bool,
}

/// The engine's aggregate state, as mathematics.
pub struct Tally {
    pub files: nat,
    pub dirs: nat,
    pub matches: nat,
    pub paths: Seq<Seq<char>>,
    pub errors: Seq<ScanErrorView>,
    pub stopped: bool,
}

pub open spec fn one_if(b: bool) -> nat {
    if b {
        1
    } else {
        0
    }
}

impl ScanSettings {
    /// The quota is met by this many matches.
    pub open spec fn reached(&self, matches: nat) -> bool {
        match self.limit {
            Some(l) => matches >= l,
            None => false,
        }
    }

    pub open spec fn start(&self) -> Tally {
        Tally {
            files: 0,
            dirs: 0,
            matches: 0,
            paths: Seq::empty(),
            errors: Seq::empty(),
            stopped: self.reached(0),
        }
    }

    /// One stream element consumed: nothing changes once the quota is met;
    /// an error is only collected; an entry is counted by kind, and a match is
    /// counted, its path collected, and the quota checked.
    pub open spec fn step(&self, t: Tally, item: ItemView) -> Tally {
        if t.stopped {
            t
        } else {
            match item {
                ItemView::Failed(e) => Tally {
                    errors: if self.collect_errors {
                        t.errors.push(e)
                    } else {
                        t.errors
                    },
                    ..t
                },
                ItemView::Found(e) => {
                    let files = t.files + one_if(e.kind == EntryKind::File);
                    let dirs = t.dirs + one_if(e.kind == EntryKind::Dir);
                    if self.matcher.spec_is_match(e) {
                        Tally {
                            files,
                            dirs,
                            matches: t.matches + 1,
                            paths: if self.collect_paths {
                                t.paths.push(e.path)
                            } else {
                                t.paths
                            },
                            errors: t.errors,
                            stopped: self.reached(t.matches + 1),
                        }
                    } else {
                        Tally { files, dirs, ..t }
                    }
                },
            }
        }
    }

    /// The state after consuming a whole stream.
    pub open spec fn run(&self, items: Seq<ItemView>) -> Tally
        decreases items.len(),
    {
        if items.len() == 0 {
            self.start()
        } else {
            self.step(self.run(items.drop_last()), items.last())
        }
    }

    /// The match count reported for a raw count: clamped to the quota.
    pub open spec fn clamp(&self, raw: nat) -> nat {
        match self.limit {
            Some(l) => if raw < l {
                raw
            } else {
                l as nat
            },
            None => raw,
        }
    }
}

/// One scan in progress: the consumer side of the walker's stream.
pub struct Scan {
    settings: ScanSettings,
    files: usize,
    dirs: usize,
    matches: usize,
    paths: Vec<String>,
    errors: Vec<ScanError>,
    stopped: bool,
    consumed: Ghost<Seq<ItemView>>,
}

impl Scan {
    pub closed spec fn settings(&self) -> ScanSettings {
        self.settings
    }

    /// The stream elements consumed so far.
    pub closed spec fn consumed(&self) -> Seq<ItemView> {
        self.consumed@
    }

    /// The current aggregate state.
    pub closed spec fn tally(&self) -> Tally {
        Tally {
            files: self.files as nat,
            dirs: self.dirs as nat,
            matches: self.matches as nat,
            paths: self.paths@.map_values(|p: String| p@),
            errors: self.errors@.map_values(|e: ScanError| e@),
            stopped: self.stopped,
        }
    }

    /// The state is the engine's run over what was consumed.
    pub open spec fn wf(&self) -> bool {
        self.tally() == self.settings().run(self.consumed())
    }

    /// A scan that has consumed nothing.
    pub fn new(settings: ScanSettings) -> (r: Scan)
        ensures
            r.wf(),
            r.settings() == settings,
            r.consumed() == Seq::<ItemView>::empty(),
    {
        let stopped = match settings.limit {
            Some(l) => l == 0,
            None => false,
        };
        let r = Scan {
            settings,
            files: 0,
            dirs: 0,
            matches: 0,
            paths: Vec::new(),
            errors: Vec::new(),
            stopped,
            consumed: Ghost(Seq::empty()),
        };
        assert(r.tally().paths =~= Seq::<Seq<char>>::empty());
        assert(r.tally().errors =~= Seq::<ScanErrorView>::empty());
        r
    }

    /// Whether the quota has been met; the engine then takes nothing more.
    pub fn is_stopped(&self) -> (r: bool)
        ensures
            r == self.tally().stopped,
    {
        self.stopped
    }

    /// Whether every counter can still grow by one.
    pub fn has_room(&self) -> (r: bool)
        ensures
            r == (self.tally().files < usize::MAX && self.tally().dirs < usize::MAX
                && self.tally().matches < usize::MAX),
    {
        self.files < usize::MAX && self.dirs < usize::MAX && self.matches < usize::MAX
    }

    /// Consumes one stream element; returns whether the engine wants more.
    pub fn consume(&mut self, item: ScanItem) -> (more: bool)
        requires
            old(self).wf(),
            old(self).tally().files < usize::MAX,
            old(self).tally().dirs < usize::MAX,
            old(self).tally().matches < usize::MAX,
        ensures
            final(self).wf(),
            final(self).settings() == old(self).settings(),
            final(self).consumed() == old(self).consumed().push(item_view(item)),
            final(self).tally() == old(self).settings().step(old(self).tally(), item_view(item)),
            more == !final(self).tally().stopped,
    {
        let ghost old_tally = self.tally();
        let ghost iv = item_view(item);
        proof {
            let s = self.consumed@.push(iv);
            assert(s.drop_last() =~= self.consumed@);
            self.consumed = Ghost(s);
        }
        if self.stopped {
            return false;
        }
        match item {
            Err(e) => {
                if self.settings.collect_errors {
                    self.errors.push(e);
                    assert(self.tally().errors =~= old_tally.errors.push(iv->Failed_0));
                }
            },
            Ok(entry) => {
                if entry.kind == EntryKind::File {
                    self.files = self.files + 1;
                }
                if entry.kind == EntryKind::Dir {
                    self.dirs = self.dirs + 1;
                }
                if self.settings.matcher.is_match(&entry) {
                    self.matches = self.matches + 1;
                    if self.settings.collect_paths {
                        self.paths.push(entry.path);
                        assert(self.tally().paths =~= old_tally.paths.push(iv->Found_0.path));
                    }
                    self.stopped = match self.settings.limit {
                        Some(l) => self.matches >= l,
                        None => false,
                    };
                }
            },
        }
        !self.stopped
    }

    /// The final snapshot: counts as consumed, matches clamped to the quota.
    pub fn finish(self, duration_micros: u64) -> (r: ScanResult)
        requires
            self.wf(),
        ensures
            r.matches == self.settings().clamp(self.tally().matches),
            r.files == self.tally().files,
            r.dirs == self.tally().dirs,
            r.duration_micros == duration_micros,
            r.paths@.map_values(|p: String| p@) == self.tally().paths,
            r.errors@.map_values(|e: ScanError| e@) == self.tally().errors,
    {
        let matches = match self.settings.limit {
            Some(l) => if self.matches < l {
                self.matches
            } else {
                l
            },
            None => self.matches,
        };
        ScanResult {
            matches,
            files: self.files,
            dirs: self.dirs,
            duration_micros,
            paths: self.paths,
            errors: self.errors,
        }
    }
}

/// Once the quota is met, further stream elements change nothing.
pub proof fn lemma_stopped_stays(settings: ScanSettings, a: Seq<ItemView>, b: Seq<ItemView>)
    requires
        settings.run(a).stopped,
    ensures
        settings.run(a + b) == settings.run(a),
    decreases b.len(),
{
    if b.len() == 0 {
        assert(a + b =~= a);
    } else {
        lemma_stopped_stays(settings, a, b.drop_last());
        assert((a + b).drop_last() =~= a + b.drop_last());
    }
}

/// No counter grows faster than the stream.
pub proof fn lemma_counts_bounded(settings: ScanSettings, s: Seq<ItemView>)
    ensures
        settings.run(s).files <= s.len(),
        settings.run(s).dirs <= s.len(),
        settings.run(s).matches <= s.len(),
    decreases s.len(),
{
    if s.len() > 0 {
        lemma_counts_bounded(settings, s.drop_last());
    }
}

/// The same elements in the opposite order.
fn reversed(v: Vec<ScanItem>) -> (r: Vec<ScanItem>)
    ensures
        r@.len() == v@.len(),
        forall|i: int| 0 <= i < v@.len() ==> #[trigger] r@[i] == v@[v@.len() - 1 - i],
{
    let ghost orig = v@;
    let mut src = v;
    let mut r: Vec<ScanItem> = Vec::new();
    while src.len() > 0
        invariant
            r@.len() + src@.len() == orig.len(),
            src@ == orig.take(src@.len() as int),
            forall|i: int| 0 <= i < r@.len() ==> #[trigger] r@[i] == orig[orig.len() - 1 - i],
        decreases src@.len(),
    {
        let ghost n = src@.len();
        let x = src.pop().unwrap();
        assert(x == orig[n - 1]);
        r.push(x);
        assert(src@ =~= orig.take(src@.len() as int));
    }
    r
}

/// Consumes a whole stream and reports the result, stopping early once the
/// quota is met.
pub fn scan_items(settings: ScanSettings, items: Vec<ScanItem>, duration_micros: u64) -> (r:
    ScanResult)
    requires
        items@.len() < usize::MAX,
    ensures
        r.matches == settings.clamp(settings.run(items_view(items@)).matches),
        r.files == settings.run(items_view(items@)).files,
        r.dirs == settings.run(items_view(items@)).dirs,
        r.duration_micros == duration_micros,
        r.paths@.map_values(|p: String| p@) == settings.run(items_view(items@)).paths,
        r.errors@.map_values(|e: ScanError| e@) == settings.run(items_view(items@)).errors,
{
    let ghost all = items_view(items@);
    let ghost st = settings;
    let mut scan = Scan::new(settings);
    let mut rest = reversed(items);
    proof {
        assert(scan.consumed() =~= all.take(0));
        assert(all.take(all.len() as int) =~= all);
    }
    while rest.len() > 0
        invariant_except_break
            scan.wf(),
            scan.settings() == st,
            rest@.len() + scan.consumed().len() == all.len(),
            all.len() < usize::MAX,
            all.take(all.len() as int) == all,
            scan.consumed() == all.take(scan.consumed().len() as int),
            forall|i: int|
                0 <= i < rest@.len() ==> item_view(#[trigger] rest@[i]) == all[all.len() - 1 - i],
        ensures
            scan.wf(),
            scan.settings() == st,
            scan.tally() == st.run(all),
        decreases rest@.len(),
    {
        let ghost k: int = scan.consumed().len() as int;
        let item = rest.pop().unwrap();
        proof {
            lemma_counts_bounded(st, scan.consumed());
            assert(item_view(item) == all[k]);
        }
        let more = scan.consume(item);
        proof {
            assert(all.take(k + 1) =~= all.take(k).push(all[k]));
        }
        if !more {
            proof {
                lemma_stopped_stays(st, all.take(k + 1), all.skip(k + 1));
                assert(all.take(k + 1) + all.skip(k + 1) =~= all);
            }
            break;
        }
    }
    scan.finish(duration_micros)
}

/// The engine settings of a search configuration.
pub fn settings_for(config: &Config) -> (r: ScanSettings)
    ensures
        selects(config, r.matcher),
        r.limit == config.limit,
        r.collect_paths == config.collect_paths,
        r.collect_errors == config.collect_errors,
{
    ScanSettings {
        matcher: select_matcher(config),
        limit: config.limit,
        collect_paths: config.collect_paths,
        collect_errors: config.collect_errors,
    }
}

/// `m` is the matcher that the configuration selects: all files, then
/// directories, then an extension, else a name pattern (empty when none is given).
pub open spec fn selects(config: &Config, m: Matcher) -> bool {
    match m {
        Matcher::All(_) => config.all,
        Matcher::Dir(d) => {
            &&& !config.all
            &&& config.dirs_only
            &&& d.pattern == config.pattern
            &&& d.case_sensitive == config.case_sensitive
        },
        Matcher::Ext(e) => {
            &&& !config.all
            &&& !config.dirs_only
            &&& config.extension == Some(e.ext)
            &&& e.case_sensitive == config.case_sensitive
        },
        Matcher::Name(n) => {
            &&& !config.all
            &&& !config.dirs_only
            &&& config.extension is None
            &&& n.pattern@ == match config.pattern {
                Some(p) => p@,
                None => Seq::<char>::empty(),
            }
            &&& n.case_sensitive == config.case_sensitive
        },
    }
}

/// Selects the matcher for a configuration.
pub fn select_matcher(config: &Config) -> (r: Matcher)
    ensures
        selects(config, r),
{
    if config.all {
        Matcher::All(AllMatcher)
    } else if config.dirs_only {
        let pattern = match &config.pattern {
            Some(p) => Some(p.clone()),
            None => None,
        };
        Matcher::Dir(DirMatcher { pattern, case_sensitive: config.case_sensitive })
    } else if let Some(ext) = &config.extension {
        Matcher::Ext(ExtMatcher { ext: ext.clone(), case_sensitive: config.case_sensitive })
    } else {
        let pattern = match &config.pattern {
            Some(p) => p.clone(),
            None => String::new(),
        };
        Matcher::Name(NameMatcher { pattern, case_sensitive: config.case_sensitive })
    }
}

/// The walk of `dir` that a configuration asks for: its exclusions and mode,
/// never following links.
pub fn source_for(dir: String, config: &Config) -> (r: DirectorySource)
    ensures
        r.root == dir,
        r.exclude@ == config.exclude@,
        r.dirs_only == config.dirs_only,
        !r.follow_links,
{
    DirectorySource::new(dir).exclude(config.exclude.clone()).dirs_only(config.dirs_only).follow_links(
        false,
    )
}

} // verus!

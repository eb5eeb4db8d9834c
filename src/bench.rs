use vstd::prelude::*;
use crate::config::LdxConfig;
use crate::flags::{flag_for, short_form};
use crate::text::{owned, parse_usize, parse_usize_spec, prefixed, starts_with_char, views};

verus! {

/// The options of a benchmark run.
pub struct BenchArgs {
    pub threads: usize,
    pub runs: usize,
    pub dirs: Vec<String>,
    pub out: Option<String>,
    pub live: bool,
    pub csv: bool,
    pub edit: bool,
}

/// What a benchmark needs: thread count, repetitions, directories, and
/// whether progress is shown live.
pub struct BenchConfig {
    pub threads: usize,
    pub runs: usize,
    pub dirs: Vec<String>,
    pub live: bool,
}

/// The benchmark options read so far.
pub struct BenchState {
    pub threads: usize,
    pub runs: usize,
    pub dirs: Seq<Seq<char>>,
    pub out: Option<Seq<char>>,
    pub live: bool,
    pub csv: bool,
    pub edit: bool,
}

/// The short form of the thread-count flag: that of the configured flag
/// targeting `threads`, else `-t`.
pub open spec fn bench_threads_flag(config: &LdxConfig) -> Seq<char> {
    match flag_for(config.flags@, "threads"@) {
        Some(i) => short_form(config.flags@[i].1.short@),
        None => "-t"@,
    }
}

/// Where the run of arguments from `k` on that do not start with `-` ends.
pub open spec fn dirs_end(raw: Seq<Seq<char>>, k: int) -> int
    decreases raw.len() - k,
{
    if 0 <= k < raw.len() && !(raw[k].len() > 0 && raw[k][0] == '-') {
        dirs_end(raw, k + 1)
    } else {
        k
    }
}

/// The argument at `i`, if there is one.
pub open spec fn arg_at(raw: Seq<Seq<char>>, i: int) -> Option<Seq<char>> {
    if 0 <= i < raw.len() {
        Some(raw[i])
    } else {
        None
    }
}

/// The index after a flag at `i` and its value, stopping at the end `len`.
pub open spec fn after_value(i: int, len: int) -> int {
    if i + 2 <= len {
        i + 2
    } else {
        len
    }
}

/// Reading the benchmark options from index `i` on: switches set their
/// option; `--runs` and the thread flag read a number from the next argument
/// (a thread count capped at `max_threads`) and keep the old value when it is
/// missing or not a number; `--out` takes the next argument; `--dirs` takes
/// every following argument up to the next flag; anything else is refused.
pub open spec fn bench_from(
    raw: Seq<Seq<char>>,
    tflag: Seq<char>,
    max_threads: usize,
    i: int,
    st: BenchState,
) -> Result<BenchState, Seq<char>>
    decreases raw.len() + 2 - i,
{
    if i < 0 || i >= raw.len() {
        Ok(st)
    } else {
        let a = raw[i];
        if a == "--edit"@ {
            bench_from(raw, tflag, max_threads, i + 1, BenchState { edit: true, ..st })
        } else if a == "--live"@ {
            bench_from(raw, tflag, max_threads, i + 1, BenchState { live: true, ..st })
        } else if a == "--csv"@ {
            bench_from(raw, tflag, max_threads, i + 1, BenchState { csv: true, ..st })
        } else if a == "--runs"@ {
            let runs = match arg_at(raw, i + 1) {
                Some(v) => match parse_usize_spec(v) {
                    Some(n) => n,
                    None => st.runs,
                },
                None => st.runs,
            };
            bench_from(raw, tflag, max_threads, after_value(i, raw.len() as int), BenchState { runs, ..st })
        } else if a == "--out"@ {
            bench_from(raw, tflag, max_threads, after_value(i, raw.len() as int), BenchState { out: arg_at(raw, i + 1), ..st })
        } else if a == "--dirs"@ {
            let j = dirs_end(raw, i + 1);
            if j <= i || j > raw.len() {
                Ok(st)
            } else {
                bench_from(
                    raw,
                    tflag,
                    max_threads,
                    j,
                    BenchState { dirs: st.dirs + raw.subrange(i + 1, j), ..st },
                )
            }
        } else if a == tflag || a == "--threads"@ {
            let threads = match arg_at(raw, i + 1) {
                Some(v) => match parse_usize_spec(v) {
                    Some(n) => if n < max_threads {
                        n
                    } else {
                        max_threads
                    },
                    None => st.threads,
                },
                None => st.threads,
            };
            bench_from(raw, tflag, max_threads, after_value(i, raw.len() as int), BenchState { threads, ..st })
        } else {
            Err(a)
        }
    }
}

proof fn lemma_dirs_end(raw: Seq<Seq<char>>, k: int)
    requires
        0 <= k,
    ensures
        k <= dirs_end(raw, k) <= if k <= raw.len() {
            raw.len() as int
        } else {
            k
        },
        forall|m: int| k <= m < dirs_end(raw, k) ==> !(raw[m].len() > 0 && raw[m][0] == '-'),
    decreases raw.len() - k,
{
    if 0 <= k < raw.len() && !(raw[k].len() > 0 && raw[k][0] == '-') {
        lemma_dirs_end(raw, k + 1);
    }
}

/// The directories every benchmark covers: the home directory when known,
/// `/usr` and `/`.
pub open spec fn default_dirs(home: Option<Seq<char>>) -> Seq<Seq<char>> {
    match home {
        Some(h) => seq![h, "/usr"@, "/"@],
        None => seq!["/usr"@, "/"@],
    }
}

/// The options a benchmark command line gives, or the first argument it refuses.
pub open spec fn bench_spec(
    raw: Seq<Seq<char>>,
    config: &LdxConfig,
    max_threads: usize,
    home: Option<Seq<char>>,
) -> Result<BenchState, Seq<char>> {
    let start = BenchState {
        threads: max_threads,
        runs: 10,
        dirs: Seq::empty(),
        out: None,
        live: false,
        csv: false,
        edit: false,
    };
    match bench_from(raw, bench_threads_flag(config), max_threads, 0, start) {
        Err(a) => Err(a),
        Ok(st) => Ok(BenchState { dirs: default_dirs(home) + st.dirs, ..st }),
    }
}

/// The options of a benchmark run, as mathematics.
pub open spec fn bench_view(a: BenchArgs) -> BenchState {
    BenchState {
        threads: a.threads,
        runs: a.runs,
        dirs: views(a.dirs@),
        out: crate::flags::opt_view(a.out),
        live: a.live,
        csv: a.csv,
        edit: a.edit,
    }
}

/// Why a benchmark command line was refused.
pub enum BenchArgError {
    UnknownFlag(String),
}

/// The short form of the thread-count flag.
fn threads_flag(config: &LdxConfig) -> (r: String)
    ensures
        r@ == bench_threads_flag(config),
{
    let mut i: usize = 0;
    let tv = owned("threads");
    while i < config.flags.len()
        invariant
            tv@ == "threads"@,
            i <= config.flags@.len(),
            flag_for(config.flags@, "threads"@) == crate::flags::flag_for_from(
                config.flags@,
                "threads"@,
                i as int,
            ),
        decreases config.flags@.len() - i,
    {
        let f = &config.flags[i].1;
        let hit = match &f.target {
            Some(x) => *x == tv,
            None => false,
        };
        if hit {
            return prefixed("-", f.short.as_str());
        }
        i = i + 1;
    }
    owned("-t")
}

/// Reads a number from the argument at `i`, keeping `old` when there is none or it is no number.
fn number_at(raw: &Vec<String>, i: usize, old: usize) -> (r: usize)
    ensures
        r == match arg_at(views(raw@), i as int) {
            Some(v) => match parse_usize_spec(v) {
                Some(n) => n,
                None => old,
            },
            None => old,
        },
{
    if i < raw.len() {
        match parse_usize(raw[i].as_str()) {
            Some(n) => n,
            None => old,
        }
    } else {
        old
    }
}

/// The index after a flag at `i` and its value, stopping at the end `len`.
fn skip_value(i: usize, len: usize) -> (r: usize)
    requires
        i < len,
    ensures
        r == after_value(i as int, len as int),
{
    if i + 1 < len {
        i + 2
    } else {
        len
    }
}

/// Reads the options of a benchmark command line (the arguments after
/// `bench`). `max_threads` caps the thread count and is its default; `home`
/// is the home directory, when known, which heads the directory list.
pub fn parse_bench_args(
    raw: &Vec<String>,
    config: &LdxConfig,
    max_threads: usize,
    home: Option<String>,
) -> (r: Result<BenchArgs, BenchArgError>)
    ensures
        bench_spec(views(raw@), config, max_threads, crate::flags::opt_view(home)) is Err ==> r is Err
            && r->Err_0->UnknownFlag_0@ == bench_spec(
            views(raw@),
            config,
            max_threads,
            crate::flags::opt_view(home),
        )->Err_0,
        bench_spec(views(raw@), config, max_threads, crate::flags::opt_view(home)) is Ok ==> r is Ok
            && bench_view(r->Ok_0) == bench_spec(
            views(raw@),
            config,
            max_threads,
            crate::flags::opt_view(home),
        )->Ok_0,
{
    let ghost rv = views(raw@);
    let tflag = threads_flag(config);
    let ghost tf = tflag@;
    let ghost start = BenchState {
        threads: max_threads,
        runs: 10,
        dirs: Seq::empty(),
        out: None,
        live: false,
        csv: false,
        edit: false,
    };
    let edit_s = owned("--edit");
    let live_s = owned("--live");
    let csv_s = owned("--csv");
    let runs_s = owned("--runs");
    let out_s = owned("--out");
    let dirs_s = owned("--dirs");
    let threads_s = owned("--threads");
    let mut threads = max_threads;
    let mut runs: usize = 10;
    let mut dirs: Vec<String> = Vec::new();
    let mut out: Option<String> = None;
    let mut live = false;
    let mut csv = false;
    let mut edit = false;
    let mut i: usize = 0;
    assert(views(dirs@) =~= Seq::<Seq<char>>::empty());
    while i < raw.len()
        invariant
            rv == views(raw@),
            tf == bench_threads_flag(config),
            tflag@ == tf,
            start == (BenchState {
                threads: max_threads,
                runs: 10,
                dirs: Seq::empty(),
                out: None,
                live: false,
                csv: false,
                edit: false,
            }),
            edit_s@ == "--edit"@,
            live_s@ == "--live"@,
            csv_s@ == "--csv"@,
            runs_s@ == "--runs"@,
            out_s@ == "--out"@,
            dirs_s@ == "--dirs"@,
            threads_s@ == "--threads"@,
            i <= raw@.len(),
            bench_from(rv, tf, max_threads, 0, start) == bench_from(
                rv,
                tf,
                max_threads,
                i as int,
                BenchState {
                    threads,
                    runs,
                    dirs: views(dirs@),
                    out: crate::flags::opt_view(out),
                    live,
                    csv,
                    edit,
                },
            ),
        decreases raw@.len() + 2 - i,
    {
        let a = &raw[i];
        if *a == edit_s {
            edit = true;
            i = i + 1;
        } else if *a == live_s {
            live = true;
            i = i + 1;
        } else if *a == csv_s {
            csv = true;
            i = i + 1;
        } else if *a == runs_s {
            runs = number_at(raw, i + 1, runs);
            i = skip_value(i, raw.len());
        } else if *a == out_s {
            out = if i + 1 < raw.len() {
                Some(raw[i + 1].clone())
            } else {
                None
            };
            i = skip_value(i, raw.len());
        } else if *a == dirs_s {
            let ghost before = views(dirs@);
            let mut k: usize = i + 1;
            proof {
                lemma_dirs_end(rv, i + 1);
            }
            while k < raw.len() && !starts_with_char(raw[k].as_str(), '-')
                invariant
                    rv == views(raw@),
                    i < k <= raw@.len(),
                    dirs_end(rv, (i + 1) as int) == dirs_end(rv, k as int),
                    views(dirs@) == before + rv.subrange(i + 1, k as int),
                decreases raw@.len() - k,
            {
                let ghost prev = views(dirs@);
                dirs.push(raw[k].clone());
                assert(views(dirs@) =~= prev.push(rv[k as int]));
                assert(rv.subrange(i + 1, k + 1) =~= rv.subrange(i + 1, k as int).push(rv[k as int]));
                k = k + 1;
            }
            i = k;
        } else if *a == tflag || *a == threads_s {
            if i + 1 < raw.len() {
                match parse_usize(raw[i + 1].as_str()) {
                    Some(m) => {
                        threads = if m < max_threads {
                            m
                        } else {
                            max_threads
                        };
                    },
                    None => {},
                }
            }
            i = skip_value(i, raw.len());
        } else {
            return Err(BenchArgError::UnknownFlag(a.clone()));
        }
    }
    let mut all_dirs: Vec<String> = Vec::new();
    match home {
        Some(h) => all_dirs.push(h),
        None => {},
    }
    all_dirs.push(owned("/usr"));
    all_dirs.push(owned("/"));
    let ghost defaults = views(all_dirs@);
    assert(defaults =~= default_dirs(crate::flags::opt_view(home)));
    let ghost extra = views(dirs@);
    all_dirs.append(&mut dirs);
    assert(views(all_dirs@) =~= defaults + extra);
    Ok(BenchArgs { threads, runs, dirs: all_dirs, out, live, csv, edit })
}

} // verus!

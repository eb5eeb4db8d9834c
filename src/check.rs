use vstd::prelude::*;
use crate::config::{available_on, is_flag_available, FlagDef, LdxConfig, Platform};
use crate::flags::{opt_view, targets};
use crate::text::{owned, views};

verus! {

/// Something worth telling about one configured flag.
pub enum Finding {
    /// Its short name was already taken by the flag under `prior`.
    DuplicateShort { prior: String },
    /// Its long name was already taken by the flag under `prior`.
    DuplicateLong { prior: String },
    /// It has no target (and is not the help flag), so it does nothing.
    NoTarget,
    /// Its target is none of the known ones.
    UnknownTarget { target: String },
    /// It does not apply on this platform.
    Unavailable,
}

/// The mathematical content of a finding.
pub enum FindingView {
    DuplicateShort(Seq<char>),
    DuplicateLong(Seq<char>),
    NoTarget,
    UnknownTarget(Seq<char>),
    Unavailable,
}

impl View for Finding {
    type V = FindingView;

    open spec fn view(&self) -> FindingView {
        match self {
            Finding::DuplicateShort { prior } => FindingView::DuplicateShort(prior@),
            Finding::DuplicateLong { prior } => FindingView::DuplicateLong(prior@),
            Finding::NoTarget => FindingView::NoTarget,
            Finding::UnknownTarget { target } => FindingView::UnknownTarget(target@),
            Finding::Unavailable => FindingView::Unavailable,
        }
    }
}

/// Whether a finding is a warning (everything but a platform note).
pub open spec fn is_warning(f: FindingView) -> bool {
    !(f is Unavailable)
}

/// The first flag before index `i` whose short name (`short`) or long name
/// (`!short`) equals that of flag `i`, searching from `j` on.
pub open spec fn first_same_from(flags: Seq<(String, FlagDef)>, i: int, short: bool, j: int) -> Option<int>
    decreases i - j,
{
    if j < 0 || j >= i {
        None
    } else if (if short {
        flags[j].1.short@ == flags[i].1.short@
    } else {
        flags[j].1.long@ == flags[i].1.long@
    }) {
        Some(j)
    } else {
        first_same_from(flags, i, short, j + 1)
    }
}

/// What is worth telling about flag `i`, in order: a short name already taken,
/// a long name already taken, no target (unless its action shows help), a
/// target that is neither `help` nor a known one, and a platform it does not
/// apply on.
pub open spec fn flag_findings_spec(
    flags: Seq<(String, FlagDef)>,
    i: int,
    known: Seq<Seq<char>>,
    platform: Platform,
) -> Seq<FindingView> {
    let f = flags[i].1;
    let s = match first_same_from(flags, i, true, 0) {
        Some(j) => seq![FindingView::DuplicateShort(flags[j].0@)],
        None => Seq::empty(),
    };
    let l = match first_same_from(flags, i, false, 0) {
        Some(j) => seq![FindingView::DuplicateLong(flags[j].0@)],
        None => Seq::empty(),
    };
    let nt = if f.target is None && opt_view(f.action) != Some("show_help"@) {
        seq![FindingView::NoTarget]
    } else {
        Seq::empty()
    };
    let ut = match f.target {
        Some(t) => if t@ != "help"@ && !known.contains(t@) {
            seq![FindingView::UnknownTarget(t@)]
        } else {
            Seq::empty()
        },
        None => Seq::empty(),
    };
    let un = if !available_on(f.os@, platform) {
        seq![FindingView::Unavailable]
    } else {
        Seq::empty()
    };
    s + l + nt + ut + un
}

proof fn lemma_first_same_range(flags: Seq<(String, FlagDef)>, i: int, short: bool, j: int)
    requires
        0 <= j,
    ensures
        match first_same_from(flags, i, short, j) {
            Some(k) => j <= k < i,
            None => true,
        },
    decreases i - j,
{
    if j < i && !(if short {
        flags[j].1.short@ == flags[i].1.short@
    } else {
        flags[j].1.long@ == flags[i].1.long@
    }) {
        lemma_first_same_range(flags, i, short, j + 1);
    }
}

/// The first flag before `i` sharing its short (or long) name.
fn first_same(flags: &Vec<(String, FlagDef)>, i: usize, short: bool) -> (r: Option<usize>)
    requires
        i < flags@.len(),
    ensures
        r is Some <==> first_same_from(flags@, i as int, short, 0) is Some,
        r is Some ==> r->0 < i && first_same_from(flags@, i as int, short, 0) == Some(r->0 as int),
{
    let mut j: usize = 0;
    while j < i
        invariant
            i < flags@.len(),
            j <= i,
            first_same_from(flags@, i as int, short, 0) == first_same_from(flags@, i as int, short, j as int),
        decreases i - j,
    {
        let same = if short {
            flags[j].1.short == flags[i].1.short
        } else {
            flags[j].1.long == flags[i].1.long
        };
        if same {
            proof {
                lemma_first_same_range(flags@, i as int, short, 0);
            }
            return Some(j);
        }
        j = j + 1;
    }
    None
}

/// Whether `s` is one of `list`.
fn contains(list: &Vec<String>, s: &String) -> (r: bool)
    ensures
        r == views(list@).contains(s@),
{
    let mut i: usize = 0;
    while i < list.len()
        invariant
            i <= list@.len(),
            forall|k: int| 0 <= k < i ==> (#[trigger] list@[k])@ != s@,
        decreases list@.len() - i,
    {
        if list[i] == *s {
            assert(views(list@)[i as int] == s@);
            return true;
        }
        i = i + 1;
    }
    proof {
        if views(list@).contains(s@) {
            let k = choose|k: int| 0 <= k < views(list@).len() && views(list@)[k] == s@;
            assert(list@[k]@ == s@);
        }
    }
    false
}

/// What is worth telling about flag `i` of the configuration, given the
/// known targets.
pub fn flag_findings(config: &LdxConfig, i: usize, known: &Vec<String>, platform: Platform) -> (r: Vec<Finding>)
    requires
        i < config.flags@.len(),
    ensures
        r@.map_values(|f: Finding| f@) == flag_findings_spec(config.flags@, i as int, views(known@), platform),
{
    let mut out: Vec<Finding> = Vec::new();
    let ghost flags = config.flags@;
    let f = &config.flags[i].1;
    if let Some(j) = first_same(&config.flags, i, true) {
        out.push(Finding::DuplicateShort { prior: config.flags[j].0.clone() });
    }
    if let Some(j) = first_same(&config.flags, i, false) {
        out.push(Finding::DuplicateLong { prior: config.flags[j].0.clone() });
    }
    let show_help = owned("show_help");
    let help_action = match &f.action {
        Some(a) => *a == show_help,
        None => false,
    };
    if f.target.is_none() && !help_action {
        out.push(Finding::NoTarget);
    }
    if let Some(t) = &f.target {
        let help = owned("help");
        if !(*t == help) && !contains(known, t) {
            out.push(Finding::UnknownTarget { target: t.clone() });
        }
    }
    if !is_flag_available(f, platform) {
        out.push(Finding::Unavailable);
    }
    assert(out@.map_values(|f: Finding| f@) =~= flag_findings_spec(flags, i as int, views(known@), platform));
    out
}

/// What is wrong with a custom flag: a missing action, a missing target.
pub open spec fn custom_problems_spec(c: FlagDef) -> (bool, bool) {
    (c.action is None, c.target is None)
}

/// Whether custom flag `i` lacks an action, and whether it lacks a target.
pub fn custom_problems(config: &LdxConfig, i: usize) -> (r: (bool, bool))
    requires
        i < config.custom@.len(),
    ensures
        r == custom_problems_spec(config.custom@[i as int].1),
{
    let c = &config.custom[i].1;
    (c.action.is_none(), c.target.is_none())
}

/// The targets of a configuration's flags, in order, skipping flags without one.
pub open spec fn targets_spec(flags: Seq<(String, FlagDef)>) -> Seq<Seq<char>>
    decreases flags.len(),
{
    if flags.len() == 0 {
        Seq::empty()
    } else {
        targets_spec(flags.drop_last()) + match flags.last().1.target {
            Some(t) => seq![t@],
            None => Seq::empty(),
        }
    }
}

/// The targets of a configuration's flags.
pub fn targets_of(config: &LdxConfig) -> (r: Vec<String>)
    ensures
        views(r@) == targets_spec(config.flags@),
{
    let mut out: Vec<String> = Vec::new();
    let mut i: usize = 0;
    assert(config.flags@.take(0) =~= Seq::<(String, FlagDef)>::empty());
    while i < config.flags.len()
        invariant
            i <= config.flags@.len(),
            views(out@) == targets_spec(config.flags@.take(i as int)),
        decreases config.flags@.len() - i,
    {
        let ghost before = views(out@);
        if let Some(t) = &config.flags[i].1.target {
            out.push(t.clone());
        }
        proof {
            let s = config.flags@.take(i + 1);
            assert(s.drop_last() =~= config.flags@.take(i as int));
            assert(views(out@) =~= targets_spec(s));
        }
        i = i + 1;
    }
    assert(config.flags@.take(config.flags@.len() as int) =~= config.flags@);
    out
}

/// Some flag of the configuration targets `t`.
pub open spec fn covered(flags: Seq<(String, FlagDef)>, t: Seq<char>) -> bool {
    exists|i: int| 0 <= i < flags.len() && targets(#[trigger] flags[i].1, t)
}

/// Whether some flag targets `t`.
fn is_covered(config: &LdxConfig, t: &String) -> (r: bool)
    ensures
        r == covered(config.flags@, t@),
{
    let mut i: usize = 0;
    while i < config.flags.len()
        invariant
            i <= config.flags@.len(),
            forall|k: int| 0 <= k < i ==> !targets(#[trigger] config.flags@[k].1, t@),
        decreases config.flags@.len() - i,
    {
        let hit = match &config.flags[i].1.target {
            Some(x) => *x == *t,
            None => false,
        };
        if hit {
            return true;
        }
        i = i + 1;
    }
    false
}

/// The known targets, in order, that no flag of the configuration covers
/// (the help target aside).
pub open spec fn missing_spec(flags: Seq<(String, FlagDef)>, known: Seq<Seq<char>>) -> Seq<Seq<char>> {
    known.filter(|t: Seq<char>| t != "help"@ && !covered(flags, t))
}

/// The known targets that the configuration lacks a flag for.
pub fn missing_targets(config: &LdxConfig, known: &Vec<String>) -> (r: Vec<String>)
    ensures
        views(r@) == missing_spec(config.flags@, views(known@)),
{
    let ghost pred = |t: Seq<char>| t != "help"@ && !covered(config.flags@, t);
    let help = owned("help");
    let mut out: Vec<String> = Vec::new();
    let mut i: usize = 0;
    assert(views(known@).take(0) =~= Seq::<Seq<char>>::empty());
    proof {
        reveal(Seq::filter);
    }
    while i < known.len()
        invariant
            help@ == "help"@,
            pred == (|t: Seq<char>| t != "help"@ && !covered(config.flags@, t)),
            i <= known@.len(),
            views(out@) == views(known@).take(i as int).filter(pred),
        decreases known@.len() - i,
    {
        let t = &known[i];
        let keep = !(*t == help) && !is_covered(config, t);
        proof {
            let s = views(known@).take(i + 1);
            assert(s.drop_last() =~= views(known@).take(i as int));
            assert(s.last() == t@);
        }
        if keep {
            out.push(t.clone());
        }
        proof {
            let s = views(known@).take(i + 1);
            reveal(Seq::filter);
            assert(s =~= views(known@).take(i as int).push(t@));
            assert(views(out@) =~= s.filter(pred));
        }
        i = i + 1;
    }
    assert(views(known@).take(known@.len() as int) =~= views(known@));
    out
}

/// The default flag at `i` is added by a sync: the user has no flag under its
/// key, it has a target, and no user flag covers that target.
pub open spec fn to_sync(user: Seq<(String, FlagDef)>, defaults: Seq<(String, FlagDef)>, i: int) -> bool {
    &&& !(exists|k: int| 0 <= k < user.len() && (#[trigger] user[k]).0@ == defaults[i].0@)
    &&& defaults[i].1.target is Some
    &&& !covered(user, defaults[i].1.target->0@)
}

/// The indices, in order, of the default flags that a sync adds.
pub fn sync_candidates(user: &LdxConfig, defaults: &LdxConfig) -> (r: Vec<usize>)
    ensures
        forall|k: int| 0 <= k < r@.len() ==> r@[k] < defaults.flags@.len() && to_sync(user.flags@, defaults.flags@, r@[k] as int),
        forall|k: int, m: int| 0 <= k < m < r@.len() ==> r@[k] < r@[m],
        forall|i: int| 0 <= i < defaults.flags@.len() && to_sync(user.flags@, defaults.flags@, i) ==> r@.contains(i as usize),
{
    let mut out: Vec<usize> = Vec::new();
    let mut i: usize = 0;
    while i < defaults.flags.len()
        invariant
            i <= defaults.flags@.len(),
            forall|k: int| 0 <= k < out@.len() ==> out@[k] < i && to_sync(user.flags@, defaults.flags@, out@[k] as int),
            forall|k: int, m: int| 0 <= k < m < out@.len() ==> out@[k] < out@[m],
            forall|j: int| 0 <= j < i && to_sync(user.flags@, defaults.flags@, j) ==> out@.contains(j as usize),
        decreases defaults.flags@.len() - i,
    {
        let key = &defaults.flags[i].0;
        let mut has_key = false;
        let mut k: usize = 0;
        while k < user.flags.len()
            invariant
                k <= user.flags@.len(),
                !has_key ==> forall|m: int| 0 <= m < k ==> (#[trigger] user.flags@[m]).0@ != key@,
                has_key ==> exists|m: int| 0 <= m < user.flags@.len() && (#[trigger] user.flags@[m]).0@ == key@,
            decreases user.flags@.len() - k,
        {
            if user.flags[k].0 == *key {
                has_key = true;
            }
            k = k + 1;
        }
        let add = match &defaults.flags[i].1.target {
            Some(t) => !has_key && !is_covered(user, t),
            None => false,
        };
        let ghost before = out@;
        if add {
            out.push(i);
            assert(out@[out@.len() - 1] == i);
        }
        assert forall|j: int| 0 <= j < i + 1 && to_sync(user.flags@, defaults.flags@, j) implies out@.contains(j as usize) by {
            if j < i {
                let w = choose|w: int| 0 <= w < before.len() && before[w] == j as usize;
                assert(out@[w] == j as usize);
            } else {
                assert(out@[out@.len() - 1] == i);
            }
        }
        i = i + 1;
    }
    out
}

} // verus!

use vstd::prelude::*;
use crate::config::{FlagDef, LdxConfig, Platform};
use crate::text::{
    lower_of, lowercase, owned, parse_usize, parse_usize_spec, prefixed, split_on, split_spec,
    split_words, starts_with_char, trim, trim_of, trim_start_char, trim_start_spec, views,
    words_of,
};

verus! {

/// `-` followed by a short flag name.
pub open spec fn short_form(s: Seq<char>) -> Seq<char> {
    "-"@ + s
}

/// `--` followed by a long flag name.
pub open spec fn long_form(s: Seq<char>) -> Seq<char> {
    "--"@ + s
}

/// The flag definition targets `t`.
pub open spec fn targets(f: FlagDef, t: Seq<char>) -> bool {
    f.target is Some && f.target->0@ == t
}

/// The first flag, from index `i` on, whose target is `t`.
pub open spec fn flag_for_from(flags: Seq<(String, FlagDef)>, t: Seq<char>, i: int) -> Option<int>
    decreases flags.len() - i,
{
    if i < 0 || i >= flags.len() {
        None
    } else if targets(flags[i].1, t) {
        Some(i)
    } else {
        flag_for_from(flags, t, i + 1)
    }
}

/// The first flag whose target is `t`.
pub open spec fn flag_for(flags: Seq<(String, FlagDef)>, t: Seq<char>) -> Option<int> {
    flag_for_from(flags, t, 0)
}

/// The short and long forms of the flag that targets `t`, or two empty strings.
pub open spec fn flag_names_spec(config: &LdxConfig, t: Seq<char>) -> (Seq<char>, Seq<char>) {
    match flag_for(config.flags@, t) {
        Some(i) => (
            short_form(config.flags@[i].1.short@),
            long_form(config.flags@[i].1.long@),
        ),
        None => (Seq::empty(), Seq::empty()),
    }
}

proof fn lemma_flag_for_range(flags: Seq<(String, FlagDef)>, t: Seq<char>, i: int)
    ensures
        match flag_for_from(flags, t, i) {
            Some(j) => i <= j < flags.len() && targets(flags[j].1, t),
            None => true,
        },
    decreases flags.len() - i,
{
    if 0 <= i < flags.len() && !targets(flags[i].1, t) {
        lemma_flag_for_range(flags, t, i + 1);
    }
}

/// Where the first flag targeting `t` stands.
fn find_flag_for(config: &LdxConfig, t: &str) -> (r: Option<usize>)
    ensures
        r is Some <==> flag_for(config.flags@, t@) is Some,
        r is Some ==> r->0 < config.flags@.len() && flag_for(config.flags@, t@) == Some(
            r->0 as int,
        ),
{
    let tv = owned(t);
    let mut i: usize = 0;
    while i < config.flags.len()
        invariant
            tv@ == t@,
            i <= config.flags@.len(),
            flag_for(config.flags@, t@) == flag_for_from(config.flags@, t@, i as int),
        decreases config.flags@.len() - i,
    {
        let f = &config.flags[i].1;
        let hit = match &f.target {
            Some(x) => *x == tv,
            None => false,
        };
        if hit {
            proof {
                lemma_flag_for_range(config.flags@, t@, 0);
            }
            return Some(i);
        }
        i = i + 1;
    }
    proof {
        lemma_flag_for_range(config.flags@, t@, 0);
    }
    None
}

/// The short and long forms of the flag whose target is `target`, or two
/// empty strings when no flag has that target.
pub fn get_flag_names(config: &LdxConfig, target: &str) -> (r: (String, String))
    ensures
        r.0@ == flag_names_spec(config, target@).0,
        r.1@ == flag_names_spec(config, target@).1,
{
    match find_flag_for(config, target) {
        Some(i) => {
            let f = &config.flags[i].1;
            (prefixed("-", f.short.as_str()), prefixed("--", f.long.as_str()))
        },
        None => (String::new(), String::new()),
    }
}

/// Whether `arg` is the short or the long form given.
pub fn flag_matches(arg: &String, short: &String, long: &String) -> (r: bool)
    ensures
        r == (arg@ == short@ || arg@ == long@),
{
    *arg == *short || *arg == *long
}

/// One argument after alias expansion: the words of its expansion when it is
/// an alias, else itself.
pub open spec fn expand_one(config: &LdxConfig, arg: Seq<char>) -> Seq<Seq<char>> {
    match config.alias_spec(arg) {
        Some(e) => words_of(e),
        None => seq![arg],
    }
}

/// The arguments after alias expansion, in order.
pub open spec fn expand_spec(config: &LdxConfig, args: Seq<Seq<char>>) -> Seq<Seq<char>>
    decreases args.len(),
{
    if args.len() == 0 {
        Seq::empty()
    } else {
        expand_spec(config, args.drop_last()) + expand_one(config, args.last())
    }
}

/// Appends `more` to `out`.
fn append_all(out: &mut Vec<String>, more: Vec<String>)
    ensures
        views(final(out)@) == views(old(out)@) + views(more@),
{
    let mut more = more;
    let ghost o = old(out)@;
    let ghost m = more@;
    out.append(&mut more);
    assert(views(out@) =~= views(o) + views(m));
}

/// Replaces each argument that names an alias by the words of its expansion.
pub fn expand_aliases(args: Vec<String>, config: &LdxConfig) -> (r: Vec<String>)
    requires
        config.wf(),
    ensures
        views(r@) == expand_spec(config, views(args@)),
{
    let mut out: Vec<String> = Vec::new();
    let mut i: usize = 0;
    assert(views(args@).take(0) =~= Seq::<Seq<char>>::empty());
    while i < args.len()
        invariant
            config.wf(),
            i <= args@.len(),
            views(out@) == expand_spec(config, views(args@).take(i as int)),
        decreases args@.len() - i,
    {
        let arg = &args[i];
        let piece: Vec<String> = match config.alias(arg) {
            Some(e) => split_words(e.as_str()),
            None => {
                let mut v: Vec<String> = Vec::new();
                v.push(arg.clone());
                assert(views(v@) =~= seq![arg@]);
                v
            },
        };
        append_all(&mut out, piece);
        proof {
            let t = views(args@).take(i + 1);
            assert(t.drop_last() =~= views(args@).take(i as int));
            assert(t.last() == arg@);
        }
        i = i + 1;
    }
    assert(views(args@).take(args@.len() as int) =~= views(args@));
    out
}

/// `arg` is the short or the long form of the custom flag `c`.
pub open spec fn names_custom(c: FlagDef, arg: Seq<char>) -> bool {
    arg == short_form(c.short@) || arg == long_form(c.long@)
}

/// The first custom flag, from index `i` on, that `arg` names.
pub open spec fn custom_for_from(customs: Seq<(String, FlagDef)>, arg: Seq<char>, i: int) -> Option<
    int,
>
    decreases customs.len() - i,
{
    if i < 0 || i >= customs.len() {
        None
    } else if names_custom(customs[i].1, arg) {
        Some(i)
    } else {
        custom_for_from(customs, arg, i + 1)
    }
}

proof fn lemma_custom_for_range(customs: Seq<(String, FlagDef)>, arg: Seq<char>, i: int)
    ensures
        match custom_for_from(customs, arg, i) {
            Some(j) => i <= j < customs.len() && names_custom(customs[j].1, arg),
            None => true,
        },
    decreases customs.len() - i,
{
    if 0 <= i < customs.len() && !names_custom(customs[i].1, arg) {
        lemma_custom_for_range(customs, arg, i + 1);
    }
}

/// The short form of the flag that targets `t`, or the empty string.
pub open spec fn short_for(config: &LdxConfig, t: Seq<char>) -> Seq<char> {
    match flag_for(config.flags@, t) {
        Some(i) => short_form(config.flags@[i].1.short@),
        None => Seq::empty(),
    }
}

/// What one argument becomes: a custom flag with an action and a target
/// turns into the flag of its target (with its value, for `set_value`), into
/// nothing when no flag has that target, and stays as it is for an unknown
/// action; one without an action or target disappears; any other argument stays.
pub open spec fn resolve_one(config: &LdxConfig, arg: Seq<char>) -> Seq<Seq<char>> {
    match custom_for_from(config.custom@, arg, 0) {
        None => seq![arg],
        Some(k) => {
            let c = config.custom@[k].1;
            if c.action is Some && c.target is Some {
                let flag = short_for(config, c.target->0@);
                let act = c.action->0@;
                if act == "set_value"@ {
                    match c.value {
                        Some(v) => if flag.len() > 0 {
                            seq![flag, v@]
                        } else {
                            Seq::empty()
                        },
                        None => Seq::empty(),
                    }
                } else if act == "set_boolean"@ {
                    if flag.len() > 0 {
                        seq![flag]
                    } else {
                        Seq::empty()
                    }
                } else {
                    seq![arg]
                }
            } else {
                Seq::empty()
            }
        },
    }
}

/// The arguments after custom flags are resolved, in order.
pub open spec fn resolve_spec(config: &LdxConfig, args: Seq<Seq<char>>) -> Seq<Seq<char>>
    decreases args.len(),
{
    if args.len() == 0 {
        Seq::empty()
    } else {
        resolve_spec(config, args.drop_last()) + resolve_one(config, args.last())
    }
}

/// Where the first custom flag that `arg` names stands.
fn find_custom(config: &LdxConfig, arg: &String) -> (r: Option<usize>)
    ensures
        r is Some <==> custom_for_from(config.custom@, arg@, 0) is Some,
        r is Some ==> r->0 < config.custom@.len() && custom_for_from(config.custom@, arg@, 0)
            == Some(r->0 as int),
{
    let mut i: usize = 0;
    while i < config.custom.len()
        invariant
            i <= config.custom@.len(),
            custom_for_from(config.custom@, arg@, 0) == custom_for_from(
                config.custom@,
                arg@,
                i as int,
            ),
        decreases config.custom@.len() - i,
    {
        let c = &config.custom[i].1;
        let short = prefixed("-", c.short.as_str());
        let long = prefixed("--", c.long.as_str());
        if flag_matches(arg, &short, &long) {
            proof {
                lemma_custom_for_range(config.custom@, arg@, 0);
            }
            return Some(i);
        }
        i = i + 1;
    }
    proof {
        lemma_custom_for_range(config.custom@, arg@, 0);
    }
    None
}

/// What one argument becomes once custom flags are resolved.
fn resolve_arg(config: &LdxConfig, arg: &String) -> (r: Vec<String>)
    ensures
        views(r@) == resolve_one(config, arg@),
{
    let mut out: Vec<String> = Vec::new();
    match find_custom(config, arg) {
        None => {
            out.push(arg.clone());
        },
        Some(k) => {
            let c = &config.custom[k].1;
            match (&c.action, &c.target) {
                (Some(action), Some(target)) => {
                    let flag = match find_flag_for(config, target.as_str()) {
                        Some(i) => prefixed("-", config.flags[i].1.short.as_str()),
                        None => String::new(),
                    };
                    let set_value = owned("set_value");
                    let set_boolean = owned("set_boolean");
                    if *action == set_value {
                        if let Some(value) = &c.value {
                            if flag.as_str().unicode_len() > 0 {
                                out.push(flag);
                                out.push(value.clone());
                            }
                        }
                    } else if *action == set_boolean {
                        if flag.as_str().unicode_len() > 0 {
                            out.push(flag);
                        }
                    } else {
                        out.push(arg.clone());
                    }
                },
                _ => {},
            }
        },
    }
    assert(views(out@) =~= resolve_one(config, arg@));
    out
}

/// Replaces each custom flag by the flag (and value) it stands for.
pub fn resolve_custom(args: Vec<String>, config: &LdxConfig) -> (r: Vec<String>)
    ensures
        views(r@) == resolve_spec(config, views(args@)),
{
    let mut out: Vec<String> = Vec::new();
    let mut i: usize = 0;
    assert(views(args@).take(0) =~= Seq::<Seq<char>>::empty());
    while i < args.len()
        invariant
            i <= args@.len(),
            views(out@) == resolve_spec(config, views(args@).take(i as int)),
        decreases args@.len() - i,
    {
        let piece = resolve_arg(config, &args[i]);
        append_all(&mut out, piece);
        proof {
            let t = views(args@).take(i + 1);
            assert(t.drop_last() =~= views(args@).take(i as int));
            assert(t.last() == args@[i as int]@);
        }
        i = i + 1;
    }
    assert(views(args@).take(args@.len() as int) =~= views(args@));
    out
}

/// Why a command line was refused.
#[derive(Debug)]
pub enum FlagError {
    /// `first` and a limit were both given.
    FirstWithLimit,
    /// All-files mode was combined with a pattern or an extension.
    AllWithFilter,
    /// Opening a result was combined with all-files mode.
    OpenWithAll,
    /// Directories-only mode was combined with all-files mode.
    DirsWithAll,
    /// Directories-only mode was combined with an extension.
    DirsWithExtension,
    /// Both a pattern and an extension were given.
    PatternWithExtension,
    /// None of a pattern, an extension or all-files mode was given.
    NoCriteria,
    /// An argument looks like a flag but is none.
    UnknownFlag(String),
}

/// The mathematical content of a refusal.
pub enum FlagErrorView {
    FirstWithLimit,
    AllWithFilter,
    OpenWithAll,
    DirsWithAll,
    DirsWithExtension,
    PatternWithExtension,
    NoCriteria,
    UnknownFlag(Seq<char>),
}

impl View for FlagError {
    type V = FlagErrorView;

    open spec fn view(&self) -> FlagErrorView {
        match self {
            FlagError::FirstWithLimit => FlagErrorView::FirstWithLimit,
            FlagError::AllWithFilter => FlagErrorView::AllWithFilter,
            FlagError::OpenWithAll => FlagErrorView::OpenWithAll,
            FlagError::DirsWithAll => FlagErrorView::DirsWithAll,
            FlagError::DirsWithExtension => FlagErrorView::DirsWithExtension,
            FlagError::PatternWithExtension => FlagErrorView::PatternWithExtension,
            FlagError::NoCriteria => FlagErrorView::NoCriteria,
            FlagError::UnknownFlag(a) => FlagErrorView::UnknownFlag(a@),
        }
    }
}

/// The first rule that a combination of search options breaks, in the order
/// the rules are checked; `None` when it breaks none.
pub open spec fn combo_error(
    has_pattern: bool,
    has_extension: bool,
    first: bool,
    has_limit: bool,
    all: bool,
    open: bool,
    dirs_only: bool,
) -> Option<FlagErrorView> {
    if first && has_limit {
        Some(FlagErrorView::FirstWithLimit)
    } else if all && (has_pattern || has_extension) {
        Some(FlagErrorView::AllWithFilter)
    } else if open && all {
        Some(FlagErrorView::OpenWithAll)
    } else if dirs_only && all {
        Some(FlagErrorView::DirsWithAll)
    } else if dirs_only && has_extension {
        Some(FlagErrorView::DirsWithExtension)
    } else if has_pattern && has_extension {
        Some(FlagErrorView::PatternWithExtension)
    } else if !all && !has_pattern && !has_extension {
        Some(FlagErrorView::NoCriteria)
    } else {
        None
    }
}

/// Checks that the search options go together: succeeds exactly when no rule
/// is broken, and otherwise reports the first broken rule.
pub fn validate_combos(
    pattern: &Option<String>,
    extension: &Option<String>,
    first: bool,
    limit: Option<usize>,
    all: bool,
    open: bool,
    dirs_only: bool,
) -> (r: Result<(), FlagError>)
    ensures
        match combo_error(
            pattern.is_some(),
            extension.is_some(),
            first,
            limit.is_some(),
            all,
            open,
            dirs_only,
        ) {
            None => r is Ok,
            Some(e) => r is Err && r->Err_0@ == e,
        },
{
    let has_pattern = pattern.is_some();
    let has_extension = extension.is_some();
    if first && limit.is_some() {
        return Err(FlagError::FirstWithLimit);
    }
    if all && (has_pattern || has_extension) {
        return Err(FlagError::AllWithFilter);
    }
    if open && all {
        return Err(FlagError::OpenWithAll);
    }
    if dirs_only && all {
        return Err(FlagError::DirsWithAll);
    }
    if dirs_only && has_extension {
        return Err(FlagError::DirsWithExtension);
    }
    if has_pattern && has_extension {
        return Err(FlagError::PatternWithExtension);
    }
    if !all && !has_pattern && !has_extension {
        return Err(FlagError::NoCriteria);
    }
    Ok(())
}

/// The first index, from `i` on, of an argument equal to `short` or `long`.
pub open spec fn position_from(raw: Seq<Seq<char>>, short: Seq<char>, long: Seq<char>, i: int) -> Option<
    int,
>
    decreases raw.len() - i,
{
    if i < 0 || i >= raw.len() {
        None
    } else if raw[i] == short || raw[i] == long {
        Some(i)
    } else {
        position_from(raw, short, long, i + 1)
    }
}

proof fn lemma_position_range(raw: Seq<Seq<char>>, short: Seq<char>, long: Seq<char>, i: int)
    requires
        0 <= i,
    ensures
        match position_from(raw, short, long, i) {
            Some(j) => i <= j < raw.len() && (raw[j] == short || raw[j] == long),
            None => forall|k: int| i <= k < raw.len() ==> raw[k] != short && raw[k] != long,
        },
    decreases raw.len() - i,
{
    if 0 <= i < raw.len() && !(raw[i] == short || raw[i] == long) {
        lemma_position_range(raw, short, long, i + 1);
    }
}

/// Some argument is `short` or `long`.
pub open spec fn present(raw: Seq<Seq<char>>, short: Seq<char>, long: Seq<char>) -> bool {
    position_from(raw, short, long, 0) is Some
}

/// The argument after the first one equal to `short` or `long`, if both exist.
pub open spec fn value_after(raw: Seq<Seq<char>>, short: Seq<char>, long: Seq<char>) -> Option<
    Seq<char>,
> {
    match position_from(raw, short, long, 0) {
        Some(i) => if i + 1 < raw.len() {
            Some(raw[i + 1])
        } else {
            None
        },
        None => None,
    }
}

/// Where the first argument equal to `short` or `long` stands.
fn position(raw: &Vec<String>, short: &String, long: &String) -> (r: Option<usize>)
    ensures
        r is Some <==> position_from(views(raw@), short@, long@, 0) is Some,
        r is Some ==> r->0 < raw@.len() && position_from(views(raw@), short@, long@, 0) == Some(
            r->0 as int,
        ),
{
    let ghost rv = views(raw@);
    let mut i: usize = 0;
    while i < raw.len()
        invariant
            rv == views(raw@),
            i <= raw@.len(),
            position_from(rv, short@, long@, 0) == position_from(rv, short@, long@, i as int),
        decreases raw@.len() - i,
    {
        if flag_matches(&raw[i], short, long) {
            proof {
                lemma_position_range(rv, short@, long@, 0);
            }
            return Some(i);
        }
        i = i + 1;
    }
    proof {
        lemma_position_range(rv, short@, long@, 0);
    }
    None
}

/// Whether some argument is `short` or `long`.
fn is_present(raw: &Vec<String>, short: &String, long: &String) -> (r: bool)
    ensures
        r == present(views(raw@), short@, long@),
{
    position(raw, short, long).is_some()
}

/// The argument after the first one equal to `short` or `long`.
fn value_of<'a>(raw: &'a Vec<String>, short: &String, long: &String) -> (r: Option<&'a String>)
    ensures
        match value_after(views(raw@), short@, long@) {
            Some(v) => r is Some && r->0@ == v,
            None => r is None,
        },
{
    match position(raw, short, long) {
        Some(i) => if i < raw.len() - 1 {
            Some(&raw[i + 1])
        } else {
            None
        },
        None => None,
    }
}

/// Whether the argument given for a flag is present, looking it up by target.
fn flag_present(raw: &Vec<String>, config: &LdxConfig, target: &str) -> (r: bool)
    ensures
        r == present(
            views(raw@),
            flag_names_spec(config, target@).0,
            flag_names_spec(config, target@).1,
        ),
{
    let (s, l) = get_flag_names(config, target);
    is_present(raw, &s, &l)
}

/// The value given for a flag, looking it up by target.
fn flag_value<'a>(raw: &'a Vec<String>, config: &LdxConfig, target: &str) -> (r: Option<&'a String>)
    ensures
        match value_after(
            views(raw@),
            flag_names_spec(config, target@).0,
            flag_names_spec(config, target@).1,
        ) {
            Some(v) => r is Some && r->0@ == v,
            None => r is None,
        },
{
    let (s, l) = get_flag_names(config, target);
    value_of(raw, &s, &l)
}

/// The value of the flag with target `t`.
pub open spec fn target_value(raw: Seq<Seq<char>>, config: &LdxConfig, t: Seq<char>) -> Option<
    Seq<char>,
> {
    value_after(raw, flag_names_spec(config, t).0, flag_names_spec(config, t).1)
}

/// The flag with target `t` is given.
pub open spec fn target_present(raw: Seq<Seq<char>>, config: &LdxConfig, t: Seq<char>) -> bool {
    present(raw, flag_names_spec(config, t).0, flag_names_spec(config, t).1)
}

/// The flags that take a value.
pub struct ValueFlags {
    pub extension: Option<String>,
    pub dir: String,
    pub threads: usize,
    pub limit: Option<usize>,
    pub exclude: Vec<String>,
}

/// The extension asked for: without leading dots, lower-cased.
pub open spec fn extension_spec_of(raw: Seq<Seq<char>>, config: &LdxConfig) -> Option<Seq<char>> {
    match target_value(raw, config, "extension"@) {
        Some(v) => Some(lower_of(trim_start_spec(v, '.'))),
        None => None,
    }
}

/// The directory asked for, `.` by default.
pub open spec fn dir_spec(raw: Seq<Seq<char>>, config: &LdxConfig) -> Seq<char> {
    match target_value(raw, config, "dir"@) {
        Some(v) => v,
        None => "."@,
    }
}

/// The thread count asked for, capped at `max_threads`; `max_threads` when
/// none is given or it is not a number.
pub open spec fn threads_spec(raw: Seq<Seq<char>>, config: &LdxConfig, max_threads: usize) -> usize {
    match target_value(raw, config, "threads"@) {
        Some(v) => match parse_usize_spec(v) {
            Some(n) => if n > max_threads {
                max_threads
            } else {
                n
            },
            None => max_threads,
        },
        None => max_threads,
    }
}

/// The match limit asked for, when it is a number.
pub open spec fn limit_spec(raw: Seq<Seq<char>>, config: &LdxConfig) -> Option<usize> {
    match target_value(raw, config, "limit"@) {
        Some(v) => parse_usize_spec(v),
        None => None,
    }
}

/// The excluded directory names: the comma-separated pieces of the value of
/// `--exclude`, trimmed.
pub open spec fn exclude_spec(raw: Seq<Seq<char>>) -> Seq<Seq<char>> {
    match value_after(raw, "--exclude"@, "--exclude"@) {
        Some(v) => split_spec(v, ',').map_values(|p: Seq<char>| trim_of(p)),
        None => Seq::empty(),
    }
}

/// Trims each piece.
fn trim_all(pieces: Vec<String>) -> (r: Vec<String>)
    ensures
        views(r@) == views(pieces@).map_values(|p: Seq<char>| trim_of(p)),
{
    let mut out: Vec<String> = Vec::new();
    let mut i: usize = 0;
    while i < pieces.len()
        invariant
            i <= pieces@.len(),
            views(out@) == views(pieces@).take(i as int).map_values(|p: Seq<char>| trim_of(p)),
        decreases pieces@.len() - i,
    {
        let t = trim(pieces[i].as_str());
        let ghost before = views(out@);
        out.push(t);
        assert(views(out@) =~= before.push(trim_of(pieces@[i as int]@)));
        assert(views(pieces@).take(i + 1) =~= views(pieces@).take(i as int).push(pieces@[i as int]@));
        assert(views(pieces@).take(i + 1).map_values(|p: Seq<char>| trim_of(p)) =~= views(
            pieces@,
        ).take(i as int).map_values(|p: Seq<char>| trim_of(p)).push(trim_of(pieces@[i as int]@)));
        i = i + 1;
    }
    assert(views(pieces@).take(pieces@.len() as int) =~= views(pieces@));
    out
}

/// Reads the flags that take a value: extension, directory, thread count,
/// limit and exclusions.
pub fn parse_value_flags(raw: &Vec<String>, config: &LdxConfig, max_threads: usize) -> (r:
    ValueFlags)
    ensures
        match extension_spec_of(views(raw@), config) {
            Some(e) => r.extension is Some && r.extension->0@ == e,
            None => r.extension is None,
        },
        r.dir@ == dir_spec(views(raw@), config),
        r.threads == threads_spec(views(raw@), config, max_threads),
        r.limit == limit_spec(views(raw@), config),
        views(r.exclude@) == exclude_spec(views(raw@)),
{
    let extension = match flag_value(raw, config, "extension") {
        Some(v) => {
            let t = trim_start_char(v.as_str(), '.');
            Some(lowercase(t.as_str()))
        },
        None => None,
    };
    let dir = match flag_value(raw, config, "dir") {
        Some(v) => v.clone(),
        None => owned("."),
    };
    let threads = match flag_value(raw, config, "threads") {
        Some(v) => match parse_usize(v.as_str()) {
            Some(n) => if n > max_threads {
                max_threads
            } else {
                n
            },
            None => max_threads,
        },
        None => max_threads,
    };
    let limit = match flag_value(raw, config, "limit") {
        Some(v) => parse_usize(v.as_str()),
        None => None,
    };
    let ex = owned("--exclude");
    let exclude = match value_of(raw, &ex, &ex) {
        Some(v) => trim_all(split_on(v.as_str(), ',')),
        None => Vec::new(),
    };
    proof {
        if value_after(views(raw@), "--exclude"@, "--exclude"@) is None {
            assert(views(exclude@) =~= Seq::<Seq<char>>::empty());
        }
    }
    ValueFlags { extension, dir, threads, limit, exclude }
}

/// The on/off flags.
#[derive(Clone, Copy, Debug, PartialEq, Eq, Structural)]
pub struct BoolFlags {
    pub quiet: bool,
    pub stats: bool,
    pub all: bool,
    pub verbose: bool,
    pub first: bool,
    pub open: bool,
    pub dirs_only: bool,
    pub where_mode: bool,
    pub case_sensitive: bool,
    pub all_drives: bool,
    pub warn: bool,
}

/// Which on/off flags are given; all-drives mode exists on Windows only.
pub open spec fn bool_flags_spec(raw: Seq<Seq<char>>, config: &LdxConfig, platform: Platform) -> BoolFlags {
    BoolFlags {
        quiet: target_present(raw, config, "quiet"@),
        stats: target_present(raw, config, "stats"@),
        all: target_present(raw, config, "all"@),
        verbose: target_present(raw, config, "verbose"@),
        first: target_present(raw, config, "first"@),
        open: target_present(raw, config, "open"@),
        dirs_only: target_present(raw, config, "dirs_only"@),
        where_mode: target_present(raw, config, "where_mode"@),
        case_sensitive: target_present(raw, config, "case_sensitive"@),
        all_drives: platform == Platform::Windows && target_present(raw, config, "all_drives"@),
        warn: present(raw, "--warn"@, "-W"@),
    }
}

/// Reads the on/off flags.
pub fn parse_bool_flags(raw: &Vec<String>, config: &LdxConfig, platform: Platform) -> (r: BoolFlags)
    ensures
        r == bool_flags_spec(views(raw@), config, platform),
{
    let all_drives = if platform == Platform::Windows {
        flag_present(raw, config, "all_drives")
    } else {
        false
    };
    BoolFlags {
        quiet: flag_present(raw, config, "quiet"),
        stats: flag_present(raw, config, "stats"),
        all: flag_present(raw, config, "all"),
        verbose: flag_present(raw, config, "verbose"),
        first: flag_present(raw, config, "first"),
        open: flag_present(raw, config, "open"),
        dirs_only: flag_present(raw, config, "dirs_only"),
        where_mode: flag_present(raw, config, "where_mode"),
        case_sensitive: flag_present(raw, config, "case_sensitive"),
        all_drives,
        warn: is_present(raw, &owned("--warn"), &owned("-W")),
    }
}

/// The view of an optional string.
pub open spec fn opt_view(o: Option<String>) -> Option<Seq<char>> {
    match o {
        Some(s) => Some(s@),
        None => None,
    }
}

/// Whether `s` is one of the strings in `list`.
fn contains_str(list: &Vec<String>, s: &String) -> (r: bool)
    ensures
        r == views(list@).contains(s@),
{
    let mut i: usize = 0;
    while i < list.len()
        invariant
            i <= list@.len(),
            forall|k: int| 0 <= k < i ==> (#[trigger] list@[k])@ != s@,
        decreases list@.len() - i,
    {
        if list[i] == *s {
            assert(views(list@)[i as int] == s@);
            return true;
        }
        i = i + 1;
    }
    proof {
        if views(list@).contains(s@) {
            let k = choose|k: int| 0 <= k < views(list@).len() && views(list@)[k] == s@;
            assert(list@[k]@ == s@);
        }
    }
    false
}

/// The flags whose next argument is their value, not a pattern.
pub open spec fn value_flag_names(config: &LdxConfig) -> Seq<Seq<char>> {
    let e = flag_names_spec(config, "extension"@);
    let d = flag_names_spec(config, "dir"@);
    let t = flag_names_spec(config, "threads"@);
    let l = flag_names_spec(config, "limit"@);
    seq![e.0, e.1, d.0, d.1, t.0, t.1, l.0, l.1, "--exclude"@]
}

/// The flags every configuration knows.
pub open spec fn fixed_flags() -> Seq<Seq<char>> {
    seq![
        "--version"@,
        "--help"@,
        "-h"@,
        "--config"@,
        "--edit"@,
        "--check"@,
        "--sync"@,
        "--reset"@,
        "--exclude"@,
        "--warn"@,
    ]
}

/// The short and long forms of every configured flag.
pub open spec fn flag_forms(flags: Seq<(String, FlagDef)>) -> Seq<Seq<char>>
    decreases flags.len(),
{
    if flags.len() == 0 {
        Seq::empty()
    } else {
        flag_forms(flags.drop_last()) + seq![
            short_form(flags.last().1.short@),
            long_form(flags.last().1.long@),
        ]
    }
}

/// Every flag the command line may hold.
pub open spec fn known_flags(config: &LdxConfig) -> Seq<Seq<char>> {
    flag_forms(config.flags@) + fixed_flags()
}

/// The state of the pattern search: the pattern found so far, and whether
/// the next argument is a flag's value.
pub struct PatternScan {
    pub pattern: Option<Seq<char>>,
    pub skip_next: bool,
}

/// One argument read while looking for the pattern: a value is passed over,
/// a flag is checked against the known ones, and the first other argument is
/// the pattern.
pub open spec fn pattern_step(
    st: PatternScan,
    arg: Seq<char>,
    values: Seq<Seq<char>>,
    known: Seq<Seq<char>>,
) -> Result<PatternScan, Seq<char>> {
    if st.skip_next {
        Ok(PatternScan { pattern: st.pattern, skip_next: false })
    } else if values.contains(arg) {
        Ok(PatternScan { pattern: st.pattern, skip_next: true })
    } else if arg.len() > 0 && arg[0] == '-' {
        if known.contains(arg) {
            Ok(st)
        } else {
            Err(arg)
        }
    } else if st.pattern is None {
        Ok(PatternScan { pattern: Some(arg), skip_next: false })
    } else {
        Ok(st)
    }
}

/// The pattern search over a whole command line; the first unknown flag stops it.
pub open spec fn pattern_run(raw: Seq<Seq<char>>, values: Seq<Seq<char>>, known: Seq<Seq<char>>) -> Result<
    PatternScan,
    Seq<char>,
>
    decreases raw.len(),
{
    if raw.len() == 0 {
        Ok(PatternScan { pattern: None, skip_next: false })
    } else {
        match pattern_run(raw.drop_last(), values, known) {
            Err(a) => Err(a),
            Ok(st) => pattern_step(st, raw.last(), values, known),
        }
    }
}

proof fn lemma_refusal_stays(raw: Seq<Seq<char>>, vs: Seq<Seq<char>>, ks: Seq<Seq<char>>, k: int)
    requires
        0 <= k <= raw.len(),
        pattern_run(raw.take(k), vs, ks) is Err,
    ensures
        pattern_run(raw, vs, ks) == pattern_run(raw.take(k), vs, ks),
    decreases raw.len() - k,
{
    if k == raw.len() {
        assert(raw.take(k) =~= raw);
    } else {
        assert(raw.take(k + 1).drop_last() =~= raw.take(k));
        lemma_refusal_stays(raw, vs, ks, k + 1);
    }
}

/// The strings of the flags that take a value.
fn value_flag_list(config: &LdxConfig) -> (r: Vec<String>)
    ensures
        views(r@) == value_flag_names(config),
{
    let (es, el) = get_flag_names(config, "extension");
    let (ds, dl) = get_flag_names(config, "dir");
    let (ts, tl) = get_flag_names(config, "threads");
    let (ls, ll) = get_flag_names(config, "limit");
    let mut v: Vec<String> = Vec::new();
    v.push(es);
    v.push(el);
    v.push(ds);
    v.push(dl);
    v.push(ts);
    v.push(tl);
    v.push(ls);
    v.push(ll);
    v.push(owned("--exclude"));
    assert(views(v@) =~= value_flag_names(config));
    v
}

/// The strings of every flag the command line may hold.
fn known_flag_list(config: &LdxConfig) -> (r: Vec<String>)
    ensures
        views(r@) == known_flags(config),
{
    let mut v: Vec<String> = Vec::new();
    let mut i: usize = 0;
    assert(config.flags@.take(0) =~= Seq::<(String, FlagDef)>::empty());
    while i < config.flags.len()
        invariant
            i <= config.flags@.len(),
            views(v@) == flag_forms(config.flags@.take(i as int)),
        decreases config.flags@.len() - i,
    {
        let f = &config.flags[i].1;
        let ghost before = views(v@);
        v.push(prefixed("-", f.short.as_str()));
        v.push(prefixed("--", f.long.as_str()));
        proof {
            let t = config.flags@.take(i + 1);
            assert(t.drop_last() =~= config.flags@.take(i as int));
            assert(t.last() == config.flags@[i as int]);
            assert(views(v@) =~= flag_forms(t));
        }
        i = i + 1;
    }
    assert(config.flags@.take(config.flags@.len() as int) =~= config.flags@);
    let ghost forms = views(v@);
    let fixed = [
        "--version",
        "--help",
        "-h",
        "--config",
        "--edit",
        "--check",
        "--sync",
        "--reset",
        "--exclude",
        "--warn",
    ];
    v.push(owned("--version"));
    v.push(owned("--help"));
    v.push(owned("-h"));
    v.push(owned("--config"));
    v.push(owned("--edit"));
    v.push(owned("--check"));
    v.push(owned("--sync"));
    v.push(owned("--reset"));
    v.push(owned("--exclude"));
    v.push(owned("--warn"));
    assert(views(v@) =~= forms + fixed_flags());
    v
}

/// Finds the pattern: the first argument that is neither a flag nor a
/// flag's value. Refuses the first argument that starts with `-` and is no
/// known flag.
pub fn parse_pattern(raw: &Vec<String>, config: &LdxConfig) -> (r: Result<Option<String>, FlagError>)
    ensures
        pattern_run(views(raw@), value_flag_names(config), known_flags(config)) is Err ==> r is Err
            && r->Err_0@ == FlagErrorView::UnknownFlag(
            pattern_run(views(raw@), value_flag_names(config), known_flags(config))->Err_0,
        ),
        pattern_run(views(raw@), value_flag_names(config), known_flags(config)) is Ok ==> r is Ok
            && opt_view(r->Ok_0) == pattern_run(
            views(raw@),
            value_flag_names(config),
            known_flags(config),
        )->Ok_0.pattern,
{
    let values = value_flag_list(config);
    let known = known_flag_list(config);
    let ghost vs = value_flag_names(config);
    let ghost ks = known_flags(config);
    let ghost rv = views(raw@);
    let mut pattern: Option<String> = None;
    let mut skip_next = false;
    let mut i: usize = 0;
    assert(rv.take(0) =~= Seq::<Seq<char>>::empty());
    while i < raw.len()
        invariant
            rv == views(raw@),
            vs == value_flag_names(config),
            ks == known_flags(config),
            views(values@) == vs,
            views(known@) == ks,
            i <= raw@.len(),
            pattern_run(rv.take(i as int), vs, ks) == Ok::<PatternScan, Seq<char>>(
                PatternScan { pattern: opt_view(pattern), skip_next },
            ),
        decreases raw@.len() - i,
    {
        let arg = &raw[i];
        proof {
            let t = rv.take(i + 1);
            assert(t.drop_last() =~= rv.take(i as int));
            assert(t.last() == arg@);
        }
        if skip_next {
            skip_next = false;
        } else if contains_str(&values, arg) {
            skip_next = true;
        } else if starts_with_char(arg.as_str(), '-') {
            if !contains_str(&known, arg) {
                proof {
                    assert(pattern_run(rv.take(i + 1), vs, ks) == Err::<PatternScan, Seq<char>>(
                        arg@,
                    ));
                    lemma_refusal_stays(rv, vs, ks, i + 1);
                }
                return Err(FlagError::UnknownFlag(arg.clone()));
            }
        } else if pattern.is_none() {
            pattern = Some(arg.clone());
        }
        i = i + 1;
    }
    assert(rv.take(raw@.len() as int) =~= rv);
    Ok(pattern)
}

/// Everything a command line asks for.
pub struct ParsedFlags {
    pub pattern: Option<String>,
    pub dir: String,
    pub extension: Option<String>,
    pub threads: usize,
    pub quiet: bool,
    pub stats: bool,
    pub all: bool,
    pub verbose: bool,
    pub open: bool,
    pub dirs_only: bool,
    pub where_mode: bool,
    pub all_drives: bool,
    pub case_sensitive: bool,
    pub limit: Option<usize>,
    pub exclude: Vec<String>,
    pub show_help: bool,
    pub show_version: bool,
    pub show_config: bool,
    pub edit_config: bool,
    pub check_config: bool,
    pub sync_config: bool,
    pub reset_config: bool,
    pub warn: bool,
}

/// The mathematical content of parsed flags.
pub struct ParsedFlagsView {
    pub pattern: Option<Seq<char>>,
    pub dir: Seq<char>,
    pub extension: Option<Seq<char>>,
    pub threads: usize,
    pub bools: BoolFlags,
    pub limit: Option<usize>,
    pub exclude: Seq<Seq<char>>,
    pub show_help: bool,
    pub show_version: bool,
    pub show_config: bool,
    pub edit_config: bool,
    pub check_config: bool,
    pub sync_config: bool,
    pub reset_config: bool,
}

impl View for ParsedFlags {
    type V = ParsedFlagsView;

    open spec fn view(&self) -> ParsedFlagsView {
        ParsedFlagsView {
            pattern: opt_view(self.pattern),
            dir: self.dir@,
            extension: opt_view(self.extension),
            threads: self.threads,
            bools: BoolFlags {
                quiet: self.quiet,
                stats: self.stats,
                all: self.all,
                verbose: self.verbose,
                first: false,
                open: self.open,
                dirs_only: self.dirs_only,
                where_mode: self.where_mode,
                case_sensitive: self.case_sensitive,
                all_drives: self.all_drives,
                warn: self.warn,
            },
            limit: self.limit,
            exclude: views(self.exclude@),
            show_help: self.show_help,
            show_version: self.show_version,
            show_config: self.show_config,
            edit_config: self.edit_config,
            check_config: self.check_config,
            sync_config: self.sync_config,
            reset_config: self.reset_config,
        }
    }
}

/// No on/off flag set.
pub open spec fn no_bools() -> BoolFlags {
    BoolFlags {
        quiet: false,
        stats: false,
        all: false,
        verbose: false,
        first: false,
        open: false,
        dirs_only: false,
        where_mode: false,
        case_sensitive: false,
        all_drives: false,
        warn: false,
    }
}

/// The management requests (help, version, configuration commands): when
/// any is given, only they count, with the current directory and all threads.
pub open spec fn management_spec(raw: Seq<Seq<char>>, config: &LdxConfig, max_threads: usize) -> Option<
    ParsedFlagsView,
> {
    let help = target_present(raw, config, "help"@) || present(raw, "-h"@, "--help"@);
    let version = present(raw, "--version"@, "--version"@);
    let show = present(raw, "--config"@, "--config"@);
    let edit = present(raw, "--edit"@, "--edit"@);
    let check = present(raw, "--check"@, "--check"@);
    let sync = present(raw, "--sync"@, "--sync"@);
    let reset = present(raw, "--reset"@, "--reset"@);
    if help || version || show || edit || check || sync || reset {
        Some(
            ParsedFlagsView {
                pattern: None,
                dir: "."@,
                extension: None,
                threads: max_threads,
                bools: no_bools(),
                limit: None,
                exclude: Seq::empty(),
                show_help: help,
                show_version: version,
                show_config: show,
                edit_config: edit,
                check_config: check,
                sync_config: sync,
                reset_config: reset,
            },
        )
    } else {
        None
    }
}

/// Whether a single-string flag is given.
fn given(raw: &Vec<String>, flag: &str) -> (r: bool)
    ensures
        r == present(views(raw@), flag@, flag@),
{
    let f = owned(flag);
    is_present(raw, &f, &f)
}

/// Reads the management requests; `None` when there are none.
pub fn parse_management(raw: &Vec<String>, config: &LdxConfig, max_threads: usize) -> (r: Option<
    ParsedFlags,
>)
    ensures
        match management_spec(views(raw@), config, max_threads) {
            Some(v) => r is Some && r->0@ == v,
            None => r is None,
        },
{
    let show_help = flag_present(raw, config, "help") || is_present(
        raw,
        &owned("-h"),
        &owned("--help"),
    );
    let show_version = given(raw, "--version");
    let show_config = given(raw, "--config");
    let edit_config = given(raw, "--edit");
    let check_config = given(raw, "--check");
    let sync_config = given(raw, "--sync");
    let reset_config = given(raw, "--reset");
    if show_help || show_version || show_config || edit_config || check_config || sync_config
        || reset_config {
        let f = ParsedFlags {
            pattern: None,
            dir: owned("."),
            extension: None,
            threads: max_threads,
            quiet: false,
            stats: false,
            all: false,
            verbose: false,
            open: false,
            dirs_only: false,
            where_mode: false,
            all_drives: false,
            case_sensitive: false,
            limit: None,
            exclude: Vec::new(),
            show_help,
            show_version,
            show_config,
            edit_config,
            check_config,
            sync_config,
            reset_config,
            warn: false,
        };
        assert(views(f.exclude@) =~= Seq::<Seq<char>>::empty());
        Some(f)
    } else {
        None
    }
}

/// The command line after alias expansion and custom flag resolution.
pub open spec fn prepared(raw: Seq<Seq<char>>, config: &LdxConfig) -> Seq<Seq<char>> {
    resolve_spec(config, expand_spec(config, raw))
}

/// What a command line asks for: the management requests if any; else a
/// refusal for the first unknown flag; else a refusal for the first broken
/// combination rule; else the search it describes, where `first` and
/// where-mode set the limit to one.
pub open spec fn parse_args_spec(
    raw0: Seq<Seq<char>>,
    config: &LdxConfig,
    max_threads: usize,
    platform: Platform,
) -> Result<ParsedFlagsView, FlagErrorView> {
    let raw = prepared(raw0, config);
    match management_spec(raw, config, max_threads) {
        Some(m) => Ok(m),
        None => match pattern_run(raw, value_flag_names(config), known_flags(config)) {
            Err(a) => Err(FlagErrorView::UnknownFlag(a)),
            Ok(st) => {
                let b = bool_flags_spec(raw, config, platform);
                let ext = extension_spec_of(raw, config);
                let lim = limit_spec(raw, config);
                match combo_error(
                    st.pattern is Some,
                    ext is Some,
                    b.first,
                    lim is Some,
                    b.all,
                    b.open,
                    b.dirs_only,
                ) {
                    Some(e) => Err(e),
                    None => Ok(
                        ParsedFlagsView {
                            pattern: st.pattern,
                            dir: dir_spec(raw, config),
                            extension: ext,
                            threads: threads_spec(raw, config, max_threads),
                            bools: BoolFlags { first: false, ..b },
                            limit: if b.first || b.where_mode {
                                Some(1)
                            } else {
                                lim
                            },
                            exclude: exclude_spec(raw),
                            show_help: false,
                            show_version: false,
                            show_config: false,
                            edit_config: false,
                            check_config: false,
                            sync_config: false,
                            reset_config: false,
                        },
                    ),
                }
            },
        },
    }
}

/// Reads a command line (without the program name): expands aliases,
/// resolves custom flags, then reads management requests, values, on/off
/// flags and the pattern, and checks how they combine.
pub fn parse_args(raw: Vec<String>, config: &LdxConfig, max_threads: usize, platform: Platform) -> (r:
    Result<ParsedFlags, FlagError>)
    requires
        config.wf(),
    ensures
        match parse_args_spec(views(raw@), config, max_threads, platform) {
            Ok(v) => r is Ok && r->Ok_0@ == v,
            Err(e) => r is Err && r->Err_0@ == e,
        },
{
    let raw = expand_aliases(raw, config);
    let raw = resolve_custom(raw, config);
    if let Some(flags) = parse_management(&raw, config, max_threads) {
        return Ok(flags);
    }
    let v = parse_value_flags(&raw, config, max_threads);
    let b = parse_bool_flags(&raw, config, platform);
    let pattern = match parse_pattern(&raw, config) {
        Ok(p) => p,
        Err(e) => {
            return Err(e);
        },
    };
    match validate_combos(&pattern, &v.extension, b.first, v.limit, b.all, b.open, b.dirs_only) {
        Ok(()) => {},
        Err(e) => {
            return Err(e);
        },
    }
    let limit = if b.first || b.where_mode {
        Some(1)
    } else {
        v.limit
    };
    Ok(
        ParsedFlags {
            pattern,
            dir: v.dir,
            extension: v.extension,
            threads: v.threads,
            quiet: b.quiet,
            stats: b.stats,
            all: b.all,
            verbose: b.verbose,
            open: b.open,
            dirs_only: b.dirs_only,
            where_mode: b.where_mode,
            all_drives: b.all_drives,
            case_sensitive: b.case_sensitive,
            limit,
            exclude: v.exclude,
            show_help: false,
            show_version: false,
            show_config: false,
            edit_config: false,
            check_config: false,
            sync_config: false,
            reset_config: false,
            warn: b.warn,
        },
    )
}

} // verus!

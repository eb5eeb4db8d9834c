use vstd::prelude::*;
use vstd::seq_lib::{to_multiset_build, to_multiset_contains, to_multiset_len, to_multiset_remove};
use crate::entry::{EntryKind, ItemView, ScanErrorView};
use crate::matcher::Matcher;
use crate::search::{ScanSettings, Tally, one_if};

verus! {

/// How many elements of a stream satisfy `p`.
pub open spec fn count_if(s: Seq<ItemView>, p: spec_fn(ItemView) -> bool) -> nat
    decreases s.len(),
{
    if s.len() == 0 {
        0
    } else {
        count_if(s.drop_last(), p) + one_if(p(s.last()))
    }
}

/// The element is an entry of kind `k`.
pub open spec fn of_kind(k: EntryKind) -> spec_fn(ItemView) -> bool {
    |i: ItemView| i is Found && i->Found_0.kind == k
}

/// The element is an entry that `m` matches.
pub open spec fn matched_by(m: Matcher) -> spec_fn(ItemView) -> bool {
    |i: ItemView| i is Found && m.spec_is_match(i->Found_0)
}

/// Without a quota every entry is counted once by kind and every match once.
proof fn lemma_run_without_quota(settings: ScanSettings, s: Seq<ItemView>)
    requires
        settings.limit is None,
    ensures
        !settings.run(s).stopped,
        settings.run(s).files == count_if(s, of_kind(EntryKind::File)),
        settings.run(s).dirs == count_if(s, of_kind(EntryKind::Dir)),
        settings.run(s).matches == count_if(s, matched_by(settings.matcher)),
    decreases s.len(),
{
    if s.len() > 0 {
        lemma_run_without_quota(settings, s.drop_last());
    }
}

/// With a quota, the raw count follows the matches until it reaches the quota,
/// where the engine stops.
proof fn lemma_run_with_quota(settings: ScanSettings, s: Seq<ItemView>, l: usize)
    requires
        settings.limit == Some(l),
    ensures
        settings.run(s).stopped ==> settings.run(s).matches == l && count_if(
            s,
            matched_by(settings.matcher),
        ) >= l,
        !settings.run(s).stopped ==> settings.run(s).matches == count_if(
            s,
            matched_by(settings.matcher),
        ) && count_if(s, matched_by(settings.matcher)) < l,
    decreases s.len(),
{
    if s.len() > 0 {
        lemma_run_with_quota(settings, s.drop_last(), l);
    }
}

/// Completeness: with the all-files matcher and no quota, a scan counts each
/// file and each directory of the stream exactly once, and reports every file
/// as a match.
pub proof fn completeness(settings: ScanSettings, s: Seq<ItemView>)
    requires
        settings.matcher is All,
        settings.limit is None,
    ensures
        settings.run(s).files == count_if(s, of_kind(EntryKind::File)),
        settings.run(s).dirs == count_if(s, of_kind(EntryKind::Dir)),
        settings.clamp(settings.run(s).matches) == count_if(s, of_kind(EntryKind::File)),
{
    lemma_run_without_quota(settings, s);
    assert(matched_by(settings.matcher) =~= of_kind(EntryKind::File));
}

/// The reported match count is the number of matching entries in the stream,
/// capped at the quota.
pub proof fn reported_matches(settings: ScanSettings, s: Seq<ItemView>)
    ensures
        settings.clamp(settings.run(s).matches) == settings.clamp(
            count_if(s, matched_by(settings.matcher)),
        ),
{
    match settings.limit {
        None => lemma_run_without_quota(settings, s),
        Some(l) => lemma_run_with_quota(settings, s, l),
    }
}

/// Quota clamp: with a quota below the number of matching entries, the
/// reported match count is exactly the quota.
pub proof fn quota_clamp(settings: ScanSettings, s: Seq<ItemView>, l: usize)
    requires
        settings.limit == Some(l),
        l < count_if(s, matched_by(settings.matcher)),
    ensures
        settings.clamp(settings.run(s).matches) == l,
{
    lemma_run_with_quota(settings, s, l);
}

/// The engine's state apart from its collected errors.
pub open spec fn counters(t: Tally) -> (
    nat,
    nat,
    nat,
    Seq<Seq<char>>,
    bool,
) {
    (t.files, t.dirs, t.matches, t.paths, t.stopped)
}

/// Error isolation: an error in the stream changes no count, no collected
/// path and does not stop the scan; it only adds itself, once, to the
/// collected errors (when they are collected and the quota is not yet met).
pub proof fn error_isolation(
    settings: ScanSettings,
    a: Seq<ItemView>,
    e: ScanErrorView,
    b: Seq<ItemView>,
)
    ensures
        counters(settings.run(a.push(ItemView::Failed(e)) + b)) == counters(settings.run(a + b)),
        settings.run(a.push(ItemView::Failed(e)) + b).errors == if settings.collect_errors
            && !settings.run(a).stopped {
            settings.run(a + b).errors.insert(settings.run(a).errors.len() as int, e)
        } else {
            settings.run(a + b).errors
        },
    decreases b.len(),
{
    let with = a.push(ItemView::Failed(e));
    if b.len() == 0 {
        assert(with + b =~= with);
        assert(a + b =~= a);
        assert(with.drop_last() =~= a);
        if settings.collect_errors && !settings.run(a).stopped {
            assert(settings.run(a).errors.push(e) =~= settings.run(a).errors.insert(
                settings.run(a).errors.len() as int,
                e,
            ));
        }
    } else {
        error_isolation(settings, a, e, b.drop_last());
        assert((with + b).drop_last() =~= with + b.drop_last());
        assert((a + b).drop_last() =~= a + b.drop_last());
        assert((with + b).last() == b.last());
        assert((a + b).last() == b.last());
        lemma_errors_grow(settings, a, b.drop_last());
        let k = settings.run(a).errors.len() as int;
        let x = settings.run(a + b.drop_last()).errors;
        assert forall|y: ScanErrorView| #[trigger] x.push(y).insert(k, e) =~= x.insert(k, e).push(y) by {}
    }
}

/// Collected errors only grow.
proof fn lemma_errors_grow(settings: ScanSettings, a: Seq<ItemView>, b: Seq<ItemView>)
    ensures
        settings.run(a).errors.len() <= settings.run(a + b).errors.len(),
        settings.run(a).stopped ==> settings.run(a + b).stopped,
    decreases b.len(),
{
    if b.len() == 0 {
        assert(a + b =~= a);
    } else {
        lemma_errors_grow(settings, a, b.drop_last());
        assert((a + b).drop_last() =~= a + b.drop_last());
    }
}

/// Counting over two streams one after the other adds up.
pub proof fn lemma_count_concat(a: Seq<ItemView>, b: Seq<ItemView>, p: spec_fn(ItemView) -> bool)
    ensures
        count_if(a + b, p) == count_if(a, p) + count_if(b, p),
    decreases b.len(),
{
    if b.len() == 0 {
        assert(a + b =~= a);
    } else {
        lemma_count_concat(a, b.drop_last(), p);
        assert((a + b).drop_last() =~= a + b.drop_last());
    }
}

proof fn lemma_count_remove(s: Seq<ItemView>, j: int, p: spec_fn(ItemView) -> bool)
    requires
        0 <= j < s.len(),
    ensures
        count_if(s, p) == count_if(s.remove(j), p) + one_if(p(s[j])),
{
    let pre = s.subrange(0, j);
    let post = s.subrange(j + 1, s.len() as int);
    assert(s =~= pre + seq![s[j]] + post);
    assert(s.remove(j) =~= pre + post);
    lemma_count_concat(pre + seq![s[j]], post, p);
    lemma_count_concat(pre, seq![s[j]], p);
    lemma_count_concat(pre, post, p);
    let one = seq![s[j]];
    assert(one.drop_last() =~= Seq::<ItemView>::empty());
    assert(count_if(one.drop_last(), p) == 0);
    assert(one.last() == s[j]);
    assert(count_if(one, p) == one_if(p(s[j])));
}

/// Counting depends only on which elements occur, and how often, not on their order.
pub proof fn count_ignores_order(s1: Seq<ItemView>, s2: Seq<ItemView>, p: spec_fn(ItemView) -> bool)
    requires
        s1.to_multiset() == s2.to_multiset(),
    ensures
        count_if(s1, p) == count_if(s2, p),
    decreases s1.len(),
{
    broadcast use vstd::multiset::group_multiset_axioms;

    if s1.len() == 0 {
        to_multiset_len(s1);
        to_multiset_len(s2);
    } else {
        let x = s1.last();
        let r1 = s1.drop_last();
        assert(s1 =~= r1.push(x));
        to_multiset_build(r1, x);
        to_multiset_contains(s2, x);
        assert(s2.to_multiset().count(x) > 0);
        assert(s2.contains(x));
        let j = choose|j: int| 0 <= j < s2.len() && s2[j] == x;
        to_multiset_remove(s2, j);
        assert(r1.to_multiset() =~= s2.remove(j).to_multiset());
        count_ignores_order(r1, s2.remove(j), p);
        lemma_count_remove(s2, j, p);
    }
}

/// Determinism of aggregates: two streams with the same elements in any order
/// give the same reported match count, and without a quota the same file and
/// directory counts too.
pub proof fn aggregates_ignore_order(settings: ScanSettings, s1: Seq<ItemView>, s2: Seq<ItemView>)
    requires
        s1.to_multiset() == s2.to_multiset(),
    ensures
        settings.clamp(settings.run(s1).matches) == settings.clamp(settings.run(s2).matches),
        settings.limit is None ==> settings.run(s1).files == settings.run(s2).files
            && settings.run(s1).dirs == settings.run(s2).dirs,
{
    reported_matches(settings, s1);
    reported_matches(settings, s2);
    count_ignores_order(s1, s2, matched_by(settings.matcher));
    if settings.limit is None {
        lemma_run_without_quota(settings, s1);
        lemma_run_without_quota(settings, s2);
        count_ignores_order(s1, s2, of_kind(EntryKind::File));
        count_ignores_order(s1, s2, of_kind(EntryKind::Dir));
    }
}

} // verus!

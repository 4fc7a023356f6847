//! What holds of build files, targets and slices: laws over the models that the
//! build modules' contracts speak of.

use vstd::prelude::*;
use vstd::relations::total_ordering;
use vstd::seq_lib::lemma_sorted_unique;

use crate::generate::{added_upto, kept_upto, merged_entries, superseded};
use crate::meson::{
    common_domain, domains_of, followed, followed_once, listed_upto, own_dependencies_upto,
    platform_domains_upto, reached,
};
use crate::rp2040::{chip_of, flash_refusal, flash_tool, plan_for, PlatformView, RP2040_OS};
use crate::table::{key_from, value_at};
use crate::text::{
    distinct_keeps_members, less, less_irreflexive, less_total, less_transitive, push_contains, sorted,
    sorted_is_ordered_permutation, trimmed,
};
use crate::types::{BuildOptionsView, BuildTargetView, DependencyView, HalInterfaceView, ProjectStructure};

verus! {

// ---------------------------------------------------------------------------
// Following dependency lists
// ---------------------------------------------------------------------------

/// Whatever the list of a name holds is there where the name is.
pub open spec fn closed_under(lists: Seq<(Seq<char>, Seq<Seq<char>>)>, names: Seq<Seq<char>>) -> bool {
    forall|x: Seq<char>, y: Seq<char>|
        names.contains(x) && #[trigger] lists_hold(lists, x, y) ==> names.contains(y)
}

/// The list of the first name holds the second.
pub open spec fn lists_hold(lists: Seq<(Seq<char>, Seq<Seq<char>>)>, x: Seq<char>, y: Seq<char>) -> bool {
    value_at(lists, x) matches Some(inner) && inner.contains(y)
}

proof fn listed_members(
    lists: Seq<(Seq<char>, Seq<Seq<char>>)>,
    names: Seq<Seq<char>>,
    n: int,
    y: Seq<char>,
)
    requires
        0 <= n <= names.len(),
    ensures
        listed_upto(lists, names, n).contains(y) <==> names.contains(y) || (exists|j: int|
            0 <= j < n && lists_hold(lists, #[trigger] names[j], y)),
    decreases n,
{
    if n > 0 {
        listed_members(lists, names, n - 1, y);
        let done = listed_upto(lists, names, n - 1);
        let all = listed_upto(lists, names, n);
        match value_at(lists, names[n - 1]) {
            Some(inner) => {
                assert(all == done + inner);
                if done.contains(y) {
                    let k = choose|k: int| 0 <= k < done.len() && done[k] == y;
                    assert(all[k] == y);
                }
                if inner.contains(y) {
                    let k = choose|k: int| 0 <= k < inner.len() && inner[k] == y;
                    assert(all[done.len() + k] == y);
                    assert(lists_hold(lists, names[n - 1], y));
                }
                if all.contains(y) {
                    let k = choose|k: int| 0 <= k < all.len() && all[k] == y;
                    if k < done.len() {
                        assert(done[k] == y);
                    } else {
                        assert(inner[k - done.len()] == y);
                    }
                }
            },
            None => {
                assert(!lists_hold(lists, names[n - 1], y));
            },
        }
        if exists|j: int| 0 <= j < n - 1 && lists_hold(lists, #[trigger] names[j], y) {
            let j = choose|j: int| 0 <= j < n - 1 && lists_hold(lists, #[trigger] names[j], y);
            assert(lists_hold(lists, names[j], y));
        }
    }
}

proof fn followed_members(lists: Seq<(Seq<char>, Seq<Seq<char>>)>, names: Seq<Seq<char>>, y: Seq<char>)
    ensures
        followed_once(lists, names).contains(y) <==> names.contains(y) || (exists|x: Seq<char>|
            names.contains(x) && #[trigger] lists_hold(lists, x, y)),
{
    listed_members(lists, names, names.len() as int, y);
    distinct_keeps_members(listed_upto(lists, names, names.len() as int));
    if exists|x: Seq<char>| names.contains(x) && #[trigger] lists_hold(lists, x, y) {
        let x = choose|x: Seq<char>| names.contains(x) && #[trigger] lists_hold(lists, x, y);
        let j = choose|j: int| 0 <= j < names.len() && names[j] == x;
        assert(lists_hold(lists, names[j], y));
    }
    if exists|j: int| 0 <= j < names.len() && lists_hold(lists, #[trigger] names[j], y) {
        let j = choose|j: int| 0 <= j < names.len() && lists_hold(lists, #[trigger] names[j], y);
        assert(names.contains(names[j]));
        assert(lists_hold(lists, names[j], y));
    }
}

/// The lists whose name is among the names.
spec fn keys_in(lists: Seq<(Seq<char>, Seq<Seq<char>>)>, names: Seq<Seq<char>>) -> Set<int> {
    Set::new(|i: int| 0 <= i < lists.len() && names.contains(lists[i].0))
}

proof fn keys_bounded(lists: Seq<(Seq<char>, Seq<Seq<char>>)>, names: Seq<Seq<char>>)
    ensures
        keys_in(lists, names).finite(),
        keys_in(lists, names).len() <= lists.len(),
{
    let all = vstd::set_lib::set_int_range(0, lists.len() as int);
    vstd::set_lib::lemma_int_range(0, lists.len() as int);
    assert(keys_in(lists, names).subset_of(all));
    vstd::set_lib::lemma_len_subset(keys_in(lists, names), all);
}

proof fn key_is_there(lists: Seq<(Seq<char>, Seq<Seq<char>>)>, x: Seq<char>, k: int)
    requires
        0 <= k,
        key_from(lists, x, k) is Some,
    ensures
        k <= key_from(lists, x, k)->0 < lists.len(),
        lists[key_from(lists, x, k)->0].0 == x,
    decreases lists.len() - k,
{
    if k < lists.len() && lists[k].0 != x {
        key_is_there(lists, x, k + 1);
    }
}

proof fn closed_stays(lists: Seq<(Seq<char>, Seq<Seq<char>>)>, names: Seq<Seq<char>>)
    requires
        closed_under(lists, names),
    ensures
        forall|y: Seq<char>| followed_once(lists, names).contains(y) <==> names.contains(y),
        closed_under(lists, followed_once(lists, names)),
{
    assert forall|y: Seq<char>| followed_once(lists, names).contains(y) <==> names.contains(y) by {
        followed_members(lists, names, y);
    }
    assert forall|x: Seq<char>, y: Seq<char>|
        followed_once(lists, names).contains(x) && #[trigger] lists_hold(lists, x, y) implies followed_once(
        lists,
        names,
    ).contains(y) by {
        assert(names.contains(x));
        assert(names.contains(y));
    }
}

proof fn rounds_close(lists: Seq<(Seq<char>, Seq<Seq<char>>)>, names: Seq<Seq<char>>, k: int)
    requires
        0 <= k,
    ensures
        closed_under(lists, followed(lists, names, k)) || keys_in(
            lists,
            followed(lists, names, k),
        ).len() >= k + 1,
    decreases k,
{
    let now = followed(lists, names, k);
    keys_bounded(lists, now);
    if !closed_under(lists, now) {
        let (x, y) = choose|x: Seq<char>, y: Seq<char>|
            now.contains(x) && #[trigger] lists_hold(lists, x, y) && !now.contains(y);
        key_is_there(lists, x, 0);
        let i = key_from(lists, x, 0)->0;
        assert(keys_in(lists, now).contains(i));
        if k == 0 {
            assert(keys_in(lists, now).len() >= 1) by {
                if keys_in(lists, now).len() == 0 {
                    assert(keys_in(lists, now) =~= Set::empty());
                }
            }
        } else {
            let past = followed(lists, names, k - 1);
            rounds_close(lists, names, k - 1);
            keys_bounded(lists, past);
            if closed_under(lists, past) {
                closed_stays(lists, past);
            }
            assert(!past.contains(x)) by {
                if past.contains(x) {
                    followed_members(lists, past, y);
                }
            }
            assert(!keys_in(lists, past).contains(i));
            assert(keys_in(lists, past).subset_of(keys_in(lists, now).remove(i))) by {
                assert forall|j: int| keys_in(lists, past).contains(j) implies keys_in(
                    lists,
                    now,
                ).remove(i).contains(j) by {
                    followed_members(lists, past, lists[j].0);
                }
            }
            vstd::set_lib::lemma_len_subset(keys_in(lists, past), keys_in(lists, now).remove(i));
        }
    }
}

proof fn rounds_keep(lists: Seq<(Seq<char>, Seq<Seq<char>>)>, names: Seq<Seq<char>>, k: int, y: Seq<char>)
    requires
        names.contains(y),
    ensures
        followed(lists, names, k).contains(y),
    decreases k,
{
    if k > 0 {
        rounds_keep(lists, names, k - 1, y);
        followed_members(lists, followed(lists, names, k - 1), y);
    }
}

/// Following dependency lists misses nothing: the names themselves are reached,
/// and with a name everything that its list holds, however deep lists are nested.
pub proof fn following_lists_is_complete(lists: Seq<(Seq<char>, Seq<Seq<char>>)>, names: Seq<Seq<char>>)
    ensures
        forall|y: Seq<char>| names.contains(y) ==> reached(lists, names).contains(y),
        closed_under(lists, reached(lists, names)),
{
    let n = lists.len() as int;
    rounds_close(lists, names, n);
    keys_bounded(lists, followed(lists, names, n));
    closed_stays(lists, followed(lists, names, n));
    assert forall|y: Seq<char>| names.contains(y) implies reached(lists, names).contains(y) by {
        rounds_keep(lists, names, n + 1, y);
    }
}

proof fn rounds_stay_within(
    lists: Seq<(Seq<char>, Seq<Seq<char>>)>,
    names: Seq<Seq<char>>,
    bound: Seq<Seq<char>>,
    k: int,
    y: Seq<char>,
)
    requires
        closed_under(lists, bound),
        forall|x: Seq<char>| names.contains(x) ==> bound.contains(x),
        followed(lists, names, k).contains(y),
    ensures
        bound.contains(y),
    decreases k,
{
    if k > 0 {
        let past = followed(lists, names, k - 1);
        followed_members(lists, past, y);
        if past.contains(y) {
            rounds_stay_within(lists, names, bound, k - 1, y);
        } else {
            let x = choose|x: Seq<char>| past.contains(x) && #[trigger] lists_hold(lists, x, y);
            rounds_stay_within(lists, names, bound, k - 1, x);
            assert(lists_hold(lists, x, y));
        }
    }
}

/// Following dependency lists brings in nothing else: what is reached is in every
/// collection that holds the names and, with a name, what its list holds.
pub proof fn following_lists_is_least(
    lists: Seq<(Seq<char>, Seq<Seq<char>>)>,
    names: Seq<Seq<char>>,
    bound: Seq<Seq<char>>,
)
    requires
        closed_under(lists, bound),
        forall|x: Seq<char>| names.contains(x) ==> bound.contains(x),
    ensures
        forall|y: Seq<char>| reached(lists, names).contains(y) ==> bound.contains(y),
{
    assert forall|y: Seq<char>| reached(lists, names).contains(y) implies bound.contains(y) by {
        rounds_stay_within(lists, names, bound, lists.len() as int + 1, y);
    }
}

// ---------------------------------------------------------------------------
// Slices of a project
// ---------------------------------------------------------------------------

proof fn own_dependencies_are_not_shared(deps: Seq<DependencyView>, n: int, k: int)
    requires
        0 <= n <= deps.len(),
        0 <= k < own_dependencies_upto(deps, n).len(),
    ensures
        own_dependencies_upto(deps, n)[k].scope != Some("shared"@),
    decreases n,
{
    if n > 0 {
        let done = own_dependencies_upto(deps, n - 1);
        if k < done.len() {
            own_dependencies_are_not_shared(deps, n - 1, k);
        }
    }
}

proof fn platform_slices(targets: Seq<BuildTargetView>, n: int, d: int, k: int)
    requires
        0 <= n <= targets.len(),
        0 <= d < platform_domains_upto(targets, n).len(),
    ensures
        platform_domains_upto(targets, n)[d].id != "host"@,
        0 <= k < platform_domains_upto(targets, n)[d].dependencies.len()
            ==> platform_domains_upto(targets, n)[d].dependencies[k].scope != Some("shared"@),
    decreases n,
{
    if n > 0 {
        let done = platform_domains_upto(targets, n - 1);
        if d < done.len() {
            platform_slices(targets, n - 1, d, k);
        } else {
            let deps = targets[n - 1].dependencies;
            if 0 <= k < own_dependencies_upto(deps, deps.len() as int).len() {
                own_dependencies_are_not_shared(deps, deps.len() as int, k);
            }
        }
    }
}

/// Dependencies belong to platforms: the common slice has none, and no slice
/// carries one that all targets share.
pub proof fn slices_carry_no_shared_dependency(
    structure: ProjectStructure,
    interfaces: Seq<HalInterfaceView>,
    targets: Seq<BuildTargetView>,
    d: int,
    k: int,
)
    requires
        0 <= d < domains_of(structure, interfaces, targets).len(),
        0 <= k < domains_of(structure, interfaces, targets)[d].dependencies.len(),
    ensures
        domains_of(structure, interfaces, targets)[d].dependencies[k].scope != Some("shared"@),
        d >= common_domain(interfaces, targets).len(),
{
    let common = common_domain(interfaces, targets);
    let all = domains_of(structure, interfaces, targets);
    if d < common.len() {
        assert(all[d] == common[d]);
    } else {
        assert(all[d] == platform_domains_upto(targets, targets.len() as int)[d - common.len()]);
        platform_slices(targets, targets.len() as int, d - common.len(), k);
    }
}

// ---------------------------------------------------------------------------
// Source lists
// ---------------------------------------------------------------------------

proof fn kept_members(entries: Seq<Seq<char>>, stems: Seq<Seq<char>>, n: int, x: Seq<char>)
    requires
        0 <= n <= entries.len(),
    ensures
        kept_upto(entries, stems, n).contains(x) <==> entries.take(n).contains(x) && !superseded(
            x,
            stems,
        ),
    decreases n,
{
    if n > 0 {
        kept_members(entries, stems, n - 1, x);
        assert(entries.take(n) =~= entries.take(n - 1).push(entries[n - 1]));
        push_contains(entries.take(n - 1), entries[n - 1], x);
        push_contains(kept_upto(entries, stems, n - 1), entries[n - 1], x);
    }
}

proof fn added_members(list: Seq<Seq<char>>, new: Seq<Seq<char>>, n: int, x: Seq<char>)
    requires
        0 <= n <= new.len(),
    ensures
        added_upto(list, new, n).contains(x) <==> list.contains(x) || new.take(n).contains(x),
    decreases n,
{
    if n > 0 {
        added_members(list, new, n - 1, x);
        assert(new.take(n) =~= new.take(n - 1).push(new[n - 1]));
        push_contains(new.take(n - 1), new[n - 1], x);
        push_contains(added_upto(list, new, n - 1), new[n - 1], x);
    }
}

proof fn sorted_members(s: Seq<Seq<char>>, x: Seq<char>)
    ensures
        sorted(s).contains(x) <==> s.contains(x),
{
    broadcast use vstd::seq_lib::group_to_multiset_ensures;

    sorted_is_ordered_permutation(s);
    assert(sorted(s).contains(x) <==> sorted(s).to_multiset().count(x) > 0);
    assert(s.contains(x) <==> s.to_multiset().count(x) > 0);
}

/// A source list that was brought up to date holds the new files and, of what it
/// held, everything but the stubs that they supersede.
pub proof fn merged_list_holds_exactly(
    existing: Seq<Seq<char>>,
    stems: Seq<Seq<char>>,
    new: Seq<Seq<char>>,
    x: Seq<char>,
)
    ensures
        merged_entries(existing, stems, new).contains(x) <==> new.contains(x) || (existing.contains(x)
            && !superseded(x, stems)),
{
    let kept = kept_upto(existing, stems, existing.len() as int);
    kept_members(existing, stems, existing.len() as int, x);
    added_members(kept, new, new.len() as int, x);
    sorted_members(added_upto(kept, new, new.len() as int), x);
    assert(existing.take(existing.len() as int) =~= existing);
    assert(new.take(new.len() as int) =~= new);
}

proof fn kept_has_no_repeats(entries: Seq<Seq<char>>, stems: Seq<Seq<char>>, n: int)
    requires
        0 <= n <= entries.len(),
        entries.no_duplicates(),
    ensures
        kept_upto(entries, stems, n).no_duplicates(),
    decreases n,
{
    if n > 0 {
        kept_has_no_repeats(entries, stems, n - 1);
        let done = kept_upto(entries, stems, n - 1);
        kept_members(entries, stems, n - 1, entries[n - 1]);
        assert(!done.contains(entries[n - 1])) by {
            let head = entries.take(n - 1);
            let last = entries[n - 1];
            if head.contains(last) {
                let k = choose|k: int| 0 <= k < head.len() && head[k] == last;
                assert(entries[k] == last);
            }
        }
    }
}

proof fn added_has_no_repeats(list: Seq<Seq<char>>, new: Seq<Seq<char>>, n: int)
    requires
        0 <= n <= new.len(),
        list.no_duplicates(),
    ensures
        added_upto(list, new, n).no_duplicates(),
    decreases n,
{
    if n > 0 {
        added_has_no_repeats(list, new, n - 1);
    }
}

/// An entry that is listed already is never listed twice.
pub proof fn merged_list_has_no_repeats(
    existing: Seq<Seq<char>>,
    stems: Seq<Seq<char>>,
    new: Seq<Seq<char>>,
)
    requires
        existing.no_duplicates(),
    ensures
        merged_entries(existing, stems, new).no_duplicates(),
{
    let kept = kept_upto(existing, stems, existing.len() as int);
    kept_has_no_repeats(existing, stems, existing.len() as int);
    added_has_no_repeats(kept, new, new.len() as int);
    let all = added_upto(kept, new, new.len() as int);
    sorted_is_ordered_permutation(all);
    all.lemma_multiset_has_no_duplicates();
    sorted(all).lemma_multiset_has_no_duplicates_conv();
}

/// Two lists of the same texts are the same once they are sorted.
proof fn sorting_forgets_order(s: Seq<Seq<char>>, t: Seq<Seq<char>>)
    requires
        s.to_multiset() == t.to_multiset(),
    ensures
        sorted(s) == sorted(t),
{
    let leq = |a: Seq<char>, b: Seq<char>| !less(b, a);
    assert(total_ordering(leq)) by {
        assert forall|x: Seq<char>| #[trigger] leq(x, x) by {
            less_irreflexive(x);
        }
        assert forall|x: Seq<char>, y: Seq<char>| #[trigger] leq(x, y) && #[trigger] leq(y, x) implies x == y by {
            less_total(x, y);
        }
        assert forall|x: Seq<char>, y: Seq<char>| #[trigger] leq(x, y) || #[trigger] leq(y, x) by {
            if less(x, y) && less(y, x) {
                less_transitive(x, y, x);
                less_irreflexive(x);
            }
        }
        assert forall|x: Seq<char>, y: Seq<char>, z: Seq<char>| #[trigger]
            leq(x, y) && #[trigger] leq(y, z) implies leq(x, z) by {
            less_total(x, y);
            less_total(y, z);
            if less(z, x) {
                if x != y && y != z {
                    less_transitive(x, y, z);
                    less_transitive(x, z, x);
                    less_irreflexive(x);
                }
            }
        }
    }
    sorted_is_ordered_permutation(s);
    sorted_is_ordered_permutation(t);
    lemma_sorted_unique(sorted(s), sorted(t), leq);
}

/// How often a text stands in a list without superseded stubs.
proof fn kept_count(entries: Seq<Seq<char>>, stems: Seq<Seq<char>>, n: int, x: Seq<char>)
    requires
        0 <= n <= entries.len(),
    ensures
        kept_upto(entries, stems, n).to_multiset().count(x) == (if superseded(x, stems) {
            0
        } else {
            entries.take(n).to_multiset().count(x)
        }),
    decreases n,
{
    broadcast use vstd::seq_lib::group_to_multiset_ensures;

    if n > 0 {
        kept_count(entries, stems, n - 1, x);
        assert(entries.take(n) =~= entries.take(n - 1).push(entries[n - 1]));
    } else {
        assert(entries.take(0) =~= Seq::empty());
    }
}

/// How often a text stands in a list with new entries.
proof fn added_count(list: Seq<Seq<char>>, new: Seq<Seq<char>>, n: int, x: Seq<char>)
    requires
        0 <= n <= new.len(),
    ensures
        added_upto(list, new, n).to_multiset().count(x) == (if !list.contains(x) && new.take(n).contains(
            x,
        ) {
            1
        } else {
            list.to_multiset().count(x)
        }),
    decreases n,
{
    broadcast use vstd::seq_lib::group_to_multiset_ensures;

    if n > 0 {
        added_count(list, new, n - 1, x);
        added_members(list, new, n - 1, new[n - 1]);
        assert(new.take(n) =~= new.take(n - 1).push(new[n - 1]));
        push_contains(new.take(n - 1), new[n - 1], x);
    } else {
        assert(new.take(0) =~= Seq::empty());
    }
}

/// To bring a source list up to date a second time changes nothing.
pub proof fn merging_again_changes_nothing(
    existing: Seq<Seq<char>>,
    stems: Seq<Seq<char>>,
    new: Seq<Seq<char>>,
)
    ensures
        merged_entries(merged_entries(existing, stems, new), stems, new) == merged_entries(
            existing,
            stems,
            new,
        ),
{
    broadcast use vstd::seq_lib::group_to_multiset_ensures;

    let kept = kept_upto(existing, stems, existing.len() as int);
    let all = added_upto(kept, new, new.len() as int);
    let m = merged_entries(existing, stems, new);
    let kept_again = kept_upto(m, stems, m.len() as int);
    let again = added_upto(kept_again, new, new.len() as int);
    sorted_is_ordered_permutation(all);
    assert(m.take(m.len() as int) =~= m);
    assert(existing.take(existing.len() as int) =~= existing);
    assert(new.take(new.len() as int) =~= new);
    assert forall|x: Seq<char>| again.to_multiset().count(x) == #[trigger] all.to_multiset().count(x) by {
        kept_count(existing, stems, existing.len() as int, x);
        added_count(kept, new, new.len() as int, x);
        kept_count(m, stems, m.len() as int, x);
        added_count(kept_again, new, new.len() as int, x);
        assert(kept.contains(x) <==> kept.to_multiset().count(x) > 0);
        assert(kept_again.contains(x) <==> kept_again.to_multiset().count(x) > 0);
        assert(m.to_multiset().count(x) == all.to_multiset().count(x));
    }
    assert(again.to_multiset() =~= all.to_multiset());
    sorting_forgets_order(again, all);
}

// ---------------------------------------------------------------------------
// RP2040
// ---------------------------------------------------------------------------

/// Only an RP2040 platform with a target gets a plan, and its build is for that
/// target.
pub proof fn plan_is_for_rp2040_targets(p: PlatformView, opts: BuildOptionsView)
    ensures
        plan_for(p, opts) is Some <==> p.os == RP2040_OS@ && (p.rust matches Some(rust) && trimmed(
            rust.target,
        ).len() > 0),
        plan_for(p, opts) matches Some(plan) ==> {
            &&& plan.target == trimmed((p.rust->0).target)
            &&& plan.args[0] == "build"@
            &&& plan.args[1] == "--target"@
            &&& plan.args[2] == plan.target
        },
{
}

/// Nothing is flashed on a guess: without a declared and known tool, without an
/// artifact, or with one that is not there, the flash is refused.
pub proof fn flash_needs_tool_and_artifact(
    p: PlatformView,
    artifact: Option<Seq<char>>,
    is_file: bool,
    device: Option<Seq<char>>,
)
    requires
        flash_refusal(p, artifact, is_file, device) is None,
    ensures
        artifact is Some,
        is_file,
        flash_tool(p) matches Some(tool) && (tool == "picotool"@ || tool == "probe-rs"@ || tool
            == "elf2uf2"@ || tool == "elf2uf2-rs"@),
        flash_tool(p) == Some("probe-rs"@) ==> chip_of(p) is Some,
{
    reveal_strlit("picotool");
    reveal_strlit("probe-rs");
    assert("picotool"@[1] != "probe-rs"@[1]);
}

} // verus!

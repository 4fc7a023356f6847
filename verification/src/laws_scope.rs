//! What the analysis of a Meson project says of dependencies and platforms.

use vstd::prelude::*;

use crate::meson::{
    common_domain, common_files_upto, gathered, has_dependency, is_shared, meson_metadata, on_all_others,
    own_dependencies_upto, platform_domain, platform_domains_upto, platform_files, scoped, shared_units_upto,
    targets_in, unit_dirs_upto,
};
use crate::migration::without_comments;
use crate::project::ProjectTreeView;
use crate::text::push_contains;
use crate::types::{
    BuildTargetView, DependencyView, DomainEditability, ProjectDomainView, ProjectStructure, SourceUnitView,
};

verus! {

/// Every target has a dependency of the name.
pub open spec fn all_need(targets: Seq<BuildTargetView>, name: Seq<char>) -> bool {
    forall|i: int|
        0 <= i < targets.len() ==> exists|j: int|
            0 <= j < (#[trigger] targets[i]).dependencies.len() && #[trigger] targets[i].dependencies[j].name == name
}

proof fn scoping_keeps_names(targets: Seq<BuildTargetView>, i: int, name: Seq<char>)
    requires
        0 <= i < targets.len(),
    ensures
        has_dependency(scoped(targets)[i].dependencies, name) <==> has_dependency(targets[i].dependencies, name),
{
    let a = targets[i].dependencies;
    let b = scoped(targets)[i].dependencies;
    if has_dependency(a, name) {
        let k = choose|k: int| 0 <= k < a.len() && (#[trigger] a[k]).name == name;
        assert(b[k].name == name);
    }
    if has_dependency(b, name) {
        let k = choose|k: int| 0 <= k < b.len() && (#[trigger] b[k]).name == name;
        assert(a[k].name == name);
    }
}

proof fn shared_means_needed_by_all(targets: Seq<BuildTargetView>, name: Seq<char>)
    requires
        targets.len() >= 2,
    ensures
        is_shared(targets, name) <==> all_need(scoped(targets), name),
{
    let after = scoped(targets);
    assert forall|i: int| 0 <= i < targets.len() implies (has_dependency(targets[i].dependencies, name)
        <==> exists|j: int|
        0 <= j < after[i].dependencies.len() && #[trigger] after[i].dependencies[j].name == name) by {
        scoping_keeps_names(targets, i, name);
    }
    if is_shared(targets, name) {
        assert forall|i: int| 0 <= i < after.len() implies exists|j: int|
            0 <= j < (#[trigger] after[i]).dependencies.len() && #[trigger] after[i].dependencies[j].name == name by {
            assert(has_dependency(targets[i].dependencies, name));
        }
    }
    if all_need(after, name) {
        assert forall|i: int| 0 <= i < targets.len() implies has_dependency(
            (#[trigger] targets[i]).dependencies,
            name,
        ) by {
            assert(after[i].dependencies.len() == targets[i].dependencies.len());
        }
        assert(has_dependency(targets[0].dependencies, name));
        assert(on_all_others(targets, name));
    }
}

/// A dependency belongs to the whole project or to a platform: where there are two or
/// more targets it is marked as shared exactly where every target has one of that
/// name, and else as the platform's; a single target shares nothing.
pub proof fn scope_tells_who_needs_it(t: ProjectTreeView, build_file: Seq<char>, i: int, j: int)
    requires
        0 <= i < meson_metadata(t, build_file).targets.len(),
        0 <= j < meson_metadata(t, build_file).targets[i].dependencies.len(),
    ensures
        ({
            let targets = meson_metadata(t, build_file).targets;
            let d = targets[i].dependencies[j];
            &&& targets.len() >= 2 && all_need(targets, d.name) ==> d.scope == Some("shared"@)
            &&& targets.len() < 2 || !all_need(targets, d.name) ==> d.scope == Some("platform"@)
        }),
{
    let (text, parts) = gathered(t, without_comments(build_file));
    let found = targets_in(text, parts);
    let targets = meson_metadata(t, build_file).targets;
    assert(targets == scoped(found));
    if found.len() >= 2 {
        shared_means_needed_by_all(found, targets[i].dependencies[j].name);
    }
}

proof fn own_ones_are_listed(deps: Seq<DependencyView>, n: int, j: int)
    requires
        0 <= j < n <= deps.len(),
        deps[j].scope != Some("shared"@),
    ensures
        own_dependencies_upto(deps, n).contains(deps[j]),
    decreases n,
{
    let done = own_dependencies_upto(deps, n - 1);
    push_contains(done, deps[n - 1], deps[j]);
    if j < n - 1 {
        own_ones_are_listed(deps, n - 1, j);
    }
}

proof fn listed_ones_are_own(deps: Seq<DependencyView>, n: int, k: int)
    requires
        0 <= n <= deps.len(),
        0 <= k < own_dependencies_upto(deps, n).len(),
    ensures
        own_dependencies_upto(deps, n)[k].scope != Some("shared"@),
        exists|j: int| 0 <= j < n && #[trigger] deps[j] == own_dependencies_upto(deps, n)[k],
    decreases n,
{
    if n > 0 {
        let done = own_dependencies_upto(deps, n - 1);
        if k < done.len() {
            listed_ones_are_own(deps, n - 1, k);
            let j = choose|j: int| 0 <= j < n - 1 && #[trigger] deps[j] == done[k];
            assert(deps[j] == own_dependencies_upto(deps, n)[k]);
        } else {
            assert(deps[n - 1] == own_dependencies_upto(deps, n)[k]);
        }
    }
}

proof fn target_has_a_slice(targets: Seq<BuildTargetView>, n: int, i: int)
    requires
        0 <= i < n <= targets.len(),
        targets[i].platform != "host"@,
    ensures
        platform_domains_upto(targets, n).contains(platform_domain(targets[i])),
    decreases n,
{
    let done = platform_domains_upto(targets, n - 1);
    push_contains(done, platform_domain(targets[n - 1]), platform_domain(targets[i]));
    if i < n - 1 {
        target_has_a_slice(targets, n - 1, i);
    }
}

proof fn slice_has_a_target(targets: Seq<BuildTargetView>, n: int, d: int)
    requires
        0 <= n <= targets.len(),
        0 <= d < platform_domains_upto(targets, n).len(),
    ensures
        exists|i: int|
            0 <= i < n && (#[trigger] targets[i]).platform != "host"@ && platform_domains_upto(targets, n)[d]
                == platform_domain(targets[i]),
    decreases n,
{
    if n > 0 {
        let done = platform_domains_upto(targets, n - 1);
        if d < done.len() {
            slice_has_a_target(targets, n - 1, d);
            let i = choose|i: int|
                0 <= i < n - 1 && (#[trigger] targets[i]).platform != "host"@ && done[d] == platform_domain(targets[i]);
            assert(targets[i].platform != "host"@);
        } else {
            assert(targets[n - 1].platform != "host"@);
        }
    }
}

proof fn home_is_listed(t: BuildTargetView)
    ensures
        platform_files(t).contains("hal/implementations/"@ + t.platform),
{
    let dirs = unit_dirs_upto(t.source_units, t.platform, t.source_units.len() as int);
    push_contains(dirs, "hal/implementations/"@ + t.platform, "hal/implementations/"@ + t.platform);
}

/// The slice of a platform: named by it, open to be filled, without contracts, with
/// the directory of its implementations, and with exactly those dependencies of the
/// target that not every target needs.
pub open spec fn is_slice_of(d: ProjectDomainView, targets: Seq<BuildTargetView>, t: BuildTargetView) -> bool {
    &&& d.id == t.platform
    &&& d.name == t.platform
    &&& d.kind == "platform"@
    &&& d.editability == DomainEditability::Fillable
    &&& d.contracts.len() == 0
    &&& d.files.contains("hal/implementations/"@ + t.platform)
    &&& forall|k: int|
        0 <= k < t.dependencies.len() && !(targets.len() >= 2 && all_need(
            targets,
            (#[trigger] t.dependencies[k]).name,
        )) ==> d.dependencies.contains(t.dependencies[k])
    &&& forall|k: int|
        0 <= k < d.dependencies.len() ==> t.dependencies.contains(#[trigger] d.dependencies[k]) && !(
        targets.len() >= 2 && all_need(targets, d.dependencies[k].name))
}

proof fn slice_of_target(t: ProjectTreeView, build_file: Seq<char>, i: int)
    requires
        0 <= i < meson_metadata(t, build_file).targets.len(),
    ensures
        ({
            let targets = meson_metadata(t, build_file).targets;
            is_slice_of(platform_domain(targets[i]), targets, targets[i])
        }),
{
    let targets = meson_metadata(t, build_file).targets;
    let deps = targets[i].dependencies;
    let d = platform_domain(targets[i]);
    let n = deps.len() as int;
    home_is_listed(targets[i]);
    assert("shared"@ != "platform"@) by {
        reveal_strlit("shared");
        reveal_strlit("platform");
        assert("shared"@.len() != "platform"@.len());
    }
    assert forall|k: int| 0 <= k < n && !(targets.len() >= 2 && all_need(targets, (#[trigger] deps[k]).name)) implies d.dependencies.contains(
        deps[k],
    ) by {
        scope_tells_who_needs_it(t, build_file, i, k);
        own_ones_are_listed(deps, n, k);
    }
    assert forall|k: int| 0 <= k < d.dependencies.len() implies deps.contains(#[trigger] d.dependencies[k]) && !(
    targets.len() >= 2 && all_need(targets, d.dependencies[k].name)) by {
        listed_ones_are_own(deps, n, k);
        let j = choose|j: int| 0 <= j < n && #[trigger] deps[j] == d.dependencies[k];
        scope_tells_who_needs_it(t, build_file, i, j);
        assert(deps.contains(deps[j]));
    }
}

/// A project that is more than a host program has a slice for each target of another
/// platform.
pub proof fn every_target_has_its_slice(t: ProjectTreeView, build_file: Seq<char>, i: int)
    requires
        meson_metadata(t, build_file).structure != ProjectStructure::Native,
        0 <= i < meson_metadata(t, build_file).targets.len(),
        meson_metadata(t, build_file).targets[i].platform != "host"@,
    ensures
        ({
            let m = meson_metadata(t, build_file);
            exists|d: int|
                0 <= d < m.domains.len() && is_slice_of(#[trigger] m.domains[d], m.targets, m.targets[i])
        }),
{
    let m = meson_metadata(t, build_file);
    let n = m.targets.len() as int;
    let common = common_domain(m.hal_interfaces, m.targets);
    let slices = platform_domains_upto(m.targets, n);
    assert(m.domains == common + slices);
    target_has_a_slice(m.targets, n, i);
    slice_of_target(t, build_file, i);
    let k = choose|k: int| 0 <= k < slices.len() && slices[k] == platform_domain(m.targets[i]);
    assert(m.domains[common.len() + k] == slices[k]);
}

/// Behind the first slice there is none but those of targets for other platforms
/// than the host.
pub proof fn every_slice_has_its_target(t: ProjectTreeView, build_file: Seq<char>, d: int)
    requires
        1 <= d < meson_metadata(t, build_file).domains.len(),
    ensures
        ({
            let m = meson_metadata(t, build_file);
            exists|i: int|
                0 <= i < m.targets.len() && (#[trigger] m.targets[i]).platform != "host"@ && is_slice_of(
                    m.domains[d],
                    m.targets,
                    m.targets[i],
                )
        }),
{
    let m = meson_metadata(t, build_file);
    let n = m.targets.len() as int;
    let common = common_domain(m.hal_interfaces, m.targets);
    let slices = platform_domains_upto(m.targets, n);
    assert(m.domains == common + slices);
    let k = d - common.len();
    slice_has_a_target(m.targets, n, k);
    let i = choose|i: int|
        0 <= i < n && (#[trigger] m.targets[i]).platform != "host"@ && slices[k] == platform_domain(m.targets[i]);
    slice_of_target(t, build_file, i);
    assert(m.domains[d] == slices[k]);
}

/// Where there are contracts, the first slice is common to all platforms: it holds the
/// header of every contract, and no dependency.
pub proof fn common_slice_holds_the_contracts(t: ProjectTreeView, build_file: Seq<char>, k: int)
    requires
        meson_metadata(t, build_file).structure != ProjectStructure::Native,
        0 <= k < meson_metadata(t, build_file).hal_interfaces.len(),
    ensures
        ({
            let m = meson_metadata(t, build_file);
            let path = m.hal_interfaces[k].header_path;
            &&& m.domains.len() > 0
            &&& m.domains[0].kind == "common"@
            &&& m.domains[0].dependencies.len() == 0
            &&& m.domains[0].editability == DomainEditability::Shared
            &&& m.domains[0].contracts.len() == m.hal_interfaces.len()
            &&& m.domains[0].contracts[k] == path
            &&& m.domains[0].files.contains(path)
        }),
{
    let m = meson_metadata(t, build_file);
    let n = m.targets.len() as int;
    let common = common_domain(m.hal_interfaces, m.targets);
    let slices = platform_domains_upto(m.targets, n);
    assert(m.domains == common + slices);
    assert(m.domains[0] == common[0]);
    let heads = common[0].contracts;
    assert(heads.contains(heads[k]));
    files_keep_heads(heads, m.targets, n, heads[k]);
}

proof fn units_keep_files(files: Seq<Seq<char>>, units: Seq<SourceUnitView>, n: int, x: Seq<char>)
    requires
        0 <= n <= units.len(),
        files.contains(x),
    ensures
        shared_units_upto(files, units, n).contains(x),
    decreases n,
{
    if n > 0 {
        units_keep_files(files, units, n - 1, x);
        push_contains(shared_units_upto(files, units, n - 1), units[n - 1].path, x);
    }
}

proof fn files_keep_heads(files: Seq<Seq<char>>, targets: Seq<BuildTargetView>, n: int, x: Seq<char>)
    requires
        0 <= n <= targets.len(),
        files.contains(x),
    ensures
        common_files_upto(files, targets, n).contains(x),
    decreases n,
{
    if n > 0 {
        files_keep_heads(files, targets, n - 1, x);
        let units = targets[n - 1].source_units;
        units_keep_files(common_files_upto(files, targets, n - 1), units, units.len() as int, x);
    }
}

} // verus!

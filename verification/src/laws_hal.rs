//! What holds of the interfaces that analysis finds: laws over the models that its
//! contracts speak of.

use vstd::prelude::*;

use crate::cpp::{header_kind, HalHeaderKind};
use crate::laws::absent_means_required_and_not_provided;
use crate::meson_hal::{
    contract_headers, findings_upto, hal_findings, headers_upto, impl_homes, with_headers,
};
use crate::project::{content_at, dir_at, has_extension, names_in, path_join, stem_of, ProjectTreeView};
use crate::rust_contract::{
    absent, all_methods_upto, contract_coverage, served_methods_upto, some_placeholder,
};
use crate::table::{has_key, key_from, key_slot, key_slot_bounds, key_from_first, with_new};
use crate::types::BuildTargetView;

verus! {

/// The name is that of a contract header in the directory.
pub open spec fn contract_in(t: ProjectTreeView, dir: Seq<char>, name: Seq<char>) -> bool {
    &&& dir_at(t, dir)
    &&& names_in(t, dir).contains(name)
    &&& has_extension(name, "hpp"@) || has_extension(name, "h"@)
    &&& header_kind(content_at(t, path_join(dir, name))) == HalHeaderKind::Contract
}

/// The entry is that of a contract header in one of the two directories for them.
spec fn is_contract_entry(t: ProjectTreeView, entry: (Seq<char>, Seq<char>), name: Seq<char>) -> bool {
    entry.0 == stem_of(name) && (contract_in(t, "hal/api"@, name) && entry.1 == path_join("hal/api"@, name)
        || contract_in(t, "toolkit/src/hal/api"@, name) && entry.1 == path_join(
        "toolkit/src/hal/api"@,
        name,
    ))
}

spec fn is_contract_row(t: ProjectTreeView, entry: (Seq<char>, Seq<char>)) -> bool {
    exists|name: Seq<char>| is_contract_entry(t, entry, name)
}

spec fn all_contracts(t: ProjectTreeView, table: Seq<(Seq<char>, Seq<char>)>) -> bool {
    forall|k: int| 0 <= k < table.len() ==> is_contract_row(t, #[trigger] table[k])
}

proof fn entries_are_contracts(
    t: ProjectTreeView,
    dir: Seq<char>,
    first: Seq<(Seq<char>, Seq<char>)>,
    n: int,
)
    requires
        dir == "hal/api"@ || dir == "toolkit/src/hal/api"@,
        dir_at(t, dir),
        all_contracts(t, first),
        0 <= n <= names_in(t, dir).len(),
    ensures
        all_contracts(t, headers_upto(t, dir, names_in(t, dir), first, n)),
    decreases n,
{
    if n > 0 {
        entries_are_contracts(t, dir, first, n - 1);
        let names = names_in(t, dir);
        let done = headers_upto(t, dir, names, first, n - 1);
        let now = headers_upto(t, dir, names, first, n);
        let name = names[n - 1];
        let entry = (stem_of(name), path_join(dir, name));
        if now != done {
            assert(names.contains(name));
            assert(contract_in(t, dir, name));
            assert(is_contract_entry(t, entry, name));
            key_slot_bounds(done, entry.0, done.len() as int);
            let at = key_slot(done, entry.0, done.len() as int);
            assert(is_contract_row(t, entry));
            assert(now =~= done.insert(at, entry));
            assert forall|k: int| 0 <= k < now.len() implies is_contract_row(t, #[trigger] now[k]) by {
                if k < at {
                    assert(now[k] == done[k]);
                } else if k > at {
                    assert(now[k] == done[k - 1]);
                } else {
                    assert(now[k] == entry);
                }
            }
        }
    }
}

proof fn findings_follow_headers(
    t: ProjectTreeView,
    homes: Seq<(Seq<char>, Seq<char>)>,
    targets: Seq<BuildTargetView>,
    headers: Seq<(Seq<char>, Seq<char>)>,
    n: int,
)
    requires
        0 <= n <= headers.len(),
    ensures
        findings_upto(t, homes, targets, headers, n).0.len() == n,
        forall|k: int|
            0 <= k < n ==> (#[trigger] findings_upto(t, homes, targets, headers, n).0[k]).name
                == headers[k].0 && findings_upto(t, homes, targets, headers, n).0[k].header_path
                == headers[k].1,
    decreases n,
{
    if n > 0 {
        findings_follow_headers(t, homes, targets, headers, n - 1);
    }
}

/// Only contracts are interfaces: each interface that analysis finds has the stem
/// and the path of a contract header in `hal/api`, or in `toolkit/src/hal/api`.
pub proof fn interfaces_are_contracts(t: ProjectTreeView, targets: Seq<BuildTargetView>, k: int)
    requires
        0 <= k < hal_findings(t, targets).0.len(),
    ensures
        exists|name: Seq<char>|
            {
                let found = hal_findings(t, targets).0[k];
                &&& found.name == #[trigger] stem_of(name)
                &&& contract_in(t, "hal/api"@, name) && found.header_path == path_join("hal/api"@, name)
                    || contract_in(t, "toolkit/src/hal/api"@, name) && found.header_path == path_join(
                    "toolkit/src/hal/api"@,
                    name,
                )
            },
{
    let headers = contract_headers(t);
    let first = with_headers(t, "hal/api"@, Seq::empty());
    let empty = Seq::<(Seq<char>, Seq<char>)>::empty();
    if dir_at(t, "hal/api"@) {
        entries_are_contracts(t, "hal/api"@, empty, names_in(t, "hal/api"@).len() as int);
    }
    assert(all_contracts(t, first));
    if dir_at(t, "toolkit/src/hal/api"@) {
        entries_are_contracts(
            t,
            "toolkit/src/hal/api"@,
            first,
            names_in(t, "toolkit/src/hal/api"@).len() as int,
        );
    }
    assert(all_contracts(t, headers));
    let homes = impl_homes(t, targets);
    findings_follow_headers(t, homes, targets, headers, headers.len() as int);
    let found = findings_upto(t, homes, targets, headers, headers.len() as int).0;
    assert(hal_findings(t, targets).0 == found);
    assert(found[k].name == headers[k].0);
    assert(is_contract_row(t, headers[k]));
    let name = choose|name: Seq<char>| is_contract_entry(t, headers[k], name);
    assert(is_contract_entry(t, headers[k], name));
    assert(found[k].name == stem_of(name));
}

proof fn key_stays(s: Seq<(Seq<char>, Seq<char>)>, key: Seq<char>, value: Seq<char>, other: Seq<char>)
    ensures
        has_key(s, other) ==> has_key(with_new(s, key, value), other),
        has_key(with_new(s, key, value), key),
{
    let t = with_new(s, key, value);
    key_from_first(s, other, 0);
    key_from_first(s, key, 0);
    key_from_first(t, other, 0);
    key_from_first(t, key, 0);
    if !has_key(s, key) {
        key_slot_bounds(s, key, s.len() as int);
        let at = key_slot(s, key, s.len() as int);
        assert(t[at] == (key, value));
        assert(t[at].0 == key);
        if has_key(s, other) {
            let k = key_from(s, other, 0)->0;
            if k < at {
                assert(t[k] == s[k]);
                assert(t[k].0 == other);
            } else {
                assert(t[k + 1] == s[k]);
                assert(t[k + 1].0 == other);
            }
        }
    }
}

proof fn keys_stay(
    t: ProjectTreeView,
    dir: Seq<char>,
    first: Seq<(Seq<char>, Seq<char>)>,
    n: int,
    key: Seq<char>,
)
    requires
        0 <= n <= names_in(t, dir).len(),
        has_key(first, key),
    ensures
        has_key(headers_upto(t, dir, names_in(t, dir), first, n), key),
    decreases n,
{
    if n > 0 {
        keys_stay(t, dir, first, n - 1, key);
        let names = names_in(t, dir);
        key_stays(
            headers_upto(t, dir, names, first, n - 1),
            stem_of(names[n - 1]),
            path_join(dir, names[n - 1]),
            key,
        );
    }
}

proof fn contract_is_entered(
    t: ProjectTreeView,
    dir: Seq<char>,
    first: Seq<(Seq<char>, Seq<char>)>,
    n: int,
    i: int,
)
    requires
        0 <= i < n <= names_in(t, dir).len(),
        contract_in(t, dir, names_in(t, dir)[i]),
    ensures
        has_key(headers_upto(t, dir, names_in(t, dir), first, n), stem_of(names_in(t, dir)[i])),
    decreases n,
{
    let names = names_in(t, dir);
    if i < n - 1 {
        contract_is_entered(t, dir, first, n - 1, i);
    }
    key_stays(
        headers_upto(t, dir, names, first, n - 1),
        stem_of(names[n - 1]),
        path_join(dir, names[n - 1]),
        stem_of(names[i]),
    );
}

/// No contract is missed: the stem of each contract header in either directory is
/// the name of an interface that analysis finds.
pub proof fn contracts_are_interfaces(
    t: ProjectTreeView,
    targets: Seq<BuildTargetView>,
    dir: Seq<char>,
    name: Seq<char>,
)
    requires
        dir == "hal/api"@ || dir == "toolkit/src/hal/api"@,
        contract_in(t, dir, name),
    ensures
        exists|k: int|
            0 <= k < hal_findings(t, targets).0.len() && (#[trigger] hal_findings(t, targets).0[k]).name
                == stem_of(name),
{
    let legacy = "toolkit/src/hal/api"@;
    let headers = contract_headers(t);
    let first = with_headers(t, "hal/api"@, Seq::empty());
    let names = names_in(t, dir);
    let i = choose|i: int| 0 <= i < names.len() && names[i] == name;
    let stem = stem_of(name);
    if dir == "hal/api"@ {
        contract_is_entered(t, dir, Seq::empty(), names.len() as int, i);
        if dir_at(t, legacy) {
            keys_stay(t, legacy, first, names_in(t, legacy).len() as int, stem);
        }
    } else {
        contract_is_entered(t, dir, first, names.len() as int, i);
    }
    assert(has_key(headers, stem));
    key_from_first(headers, stem, 0);
    let k = key_from(headers, stem, 0)->0;
    let homes = impl_homes(t, targets);
    findings_follow_headers(t, homes, targets, headers, headers.len() as int);
    let found = findings_upto(t, homes, targets, headers, headers.len() as int).0;
    assert(hal_findings(t, targets).0 == found);
    assert(found[k].name == headers[k].0);
}

/// A platform implements a Rust contract exactly where its impls provide every
/// required method and none of them is a placeholder.
pub proof fn rust_contract_is_implemented_in_full(
    stem: Seq<char>,
    traits: Seq<(Seq<char>, Seq<Seq<char>>)>,
    impls: Seq<(Seq<char>, Seq<Seq<char>>)>,
    placeholders: Seq<Seq<char>>,
)
    ensures
        contract_coverage(stem, traits, impls, placeholders).implemented <==> !some_placeholder(
            placeholders,
            stem,
            traits,
        ) && forall|m: Seq<char>| #[trigger]
            all_methods_upto(traits, traits.len() as int).contains(m) ==> served_methods_upto(
                impls,
                stem,
                traits,
                impls.len() as int,
            ).contains(m),
{
    let required = all_methods_upto(traits, traits.len() as int);
    let served = served_methods_upto(impls, stem, traits, impls.len() as int);
    let missing = absent(required, served);
    if missing.len() == 0 {
        assert forall|m: Seq<char>| #[trigger] required.contains(m) implies served.contains(m) by {
            absent_means_required_and_not_provided(required, served, m);
            if missing.contains(m) {
                let k = choose|k: int| 0 <= k < missing.len() && missing[k] == m;
                assert(false);
            }
        }
    } else {
        assert(missing.contains(missing[0]));
        absent_means_required_and_not_provided(required, served, missing[0]);
    }
}

} // verus!

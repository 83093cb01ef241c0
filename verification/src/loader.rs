//! The plugin loader's decisions.
//!
//! Discovery inspects every candidate file in the module directory. Opening
//! the file as a dynamic library, locating the exported root descriptor and
//! checking its version tag happen outside verified code; what each file
//! yielded comes back as a [`FileScan`]. From those outcomes this module
//! builds the constructor map and the load plan. A bad file is never fatal:
//! it is skipped and the scan continues.

use vstd::prelude::*;
use vstd::string::StrSliceExecFns;

use crate::table;

verus! {

/// Whether a file name carries the platform's dynamic-library extension and
/// is therefore a discovery candidate. A bare `.so` is a hidden file with no
/// extension, not a candidate: a character must precede the dot.
pub open spec fn is_library_name(s: Seq<char>) -> bool {
    s.len() >= 4 && s[s.len() - 3] == '.' && s[s.len() - 2] == 's' && s[s.len() - 1] == 'o'
}

pub fn has_library_extension(name: &str) -> (r: bool)
    ensures
        r == is_library_name(name@),
{
    let n = name.unicode_len();
    if n < 4 {
        return false;
    }
    let a = name.get_char(n - 3);
    let b = name.get_char(n - 2);
    let c = name.get_char(n - 1);
    a == '.' && b == 's' && c == 'o'
}

/// Outcome of inspecting one candidate file: either the root descriptor was
/// validated and a module name and constructor handle extracted, or the file
/// was rejected (unopenable, missing symbol, version mismatch) and is
/// skipped.
pub enum FileScan {
    Valid { name: String, builder: u64 },
    Invalid,
}

pub open spec fn scan_is_valid(s: FileScan) -> bool {
    s is Valid
}

pub open spec fn scan_name(s: FileScan) -> Seq<char> {
    match s {
        FileScan::Valid { name, builder } => name@,
        FileScan::Invalid => Seq::empty(),
    }
}

pub open spec fn scan_builder(s: FileScan) -> u64 {
    match s {
        FileScan::Valid { name, builder } => builder,
        FileScan::Invalid => 0,
    }
}

/// Some scan at or after `lo` validated a module named `n`.
pub open spec fn discovered_from(scans: Seq<FileScan>, lo: int, n: Seq<char>) -> bool {
    exists|j: int|
        lo <= j < scans.len() && scan_is_valid(scans[j]) && scan_name(scans[j]) == n
}

/// Discovery found a module named `n`.
pub open spec fn discovered(scans: Seq<FileScan>, n: Seq<char>) -> bool {
    discovered_from(scans, 0, n)
}

/// Some scan at or after `lo` validated a module named `n` with constructor
/// handle `b`.
pub open spec fn assigns_from(scans: Seq<FileScan>, lo: int, n: Seq<char>, b: u64) -> bool {
    exists|j: int|
        lo <= j < scans.len() && scan_is_valid(scans[j]) && scan_name(scans[j]) == n
            && scan_builder(scans[j]) == b
}

pub open spec fn assigns(scans: Seq<FileScan>, n: Seq<char>, b: u64) -> bool {
    assigns_from(scans, 0, n, b)
}

/// `j` points at the last scan at or after `lo` that validated a module
/// named `n`: no later scan bears that name.
pub open spec fn is_last_match(scans: Seq<FileScan>, lo: int, j: int, n: Seq<char>) -> bool {
    &&& lo <= j < scans.len()
    &&& scan_is_valid(scans[j])
    &&& scan_name(scans[j]) == n
    &&& forall|l: int|
        j < l < scans.len() ==> !(scan_is_valid(#[trigger] scans[l]) && scan_name(scans[l]) == n)
}

/// `b` is the constructor handle of the last valid scan named `n` at or
/// after `lo`.
pub open spec fn maps_to_last(scans: Seq<FileScan>, lo: int, n: Seq<char>, b: u64) -> bool {
    exists|j: int| is_last_match(scans, lo, j, n) && b == scan_builder(scans[j])
}

/// How many scans at or after `lo` validated.
pub open spec fn valid_count_from(scans: Seq<FileScan>, lo: int) -> nat
    decreases scans.len() - lo,
{
    if lo < 0 || lo >= scans.len() {
        0
    } else {
        (if scan_is_valid(scans[lo]) {
            1nat
        } else {
            0nat
        }) + valid_count_from(scans, lo + 1)
    }
}

/// How many scans validated.
pub open spec fn valid_count(scans: Seq<FileScan>) -> nat {
    valid_count_from(scans, 0)
}

/// No two valid scans share a name. Colliding plugin names are a
/// configuration error the operator must avoid; under this assumption the
/// constructor map is exactly one entry per valid file.
pub open spec fn names_distinct(scans: Seq<FileScan>) -> bool {
    forall|i: int, j: int|
        0 <= i < j < scans.len() && scan_is_valid(scans[i]) && scan_is_valid(scans[j])
            ==> scan_name(scans[i]) != scan_name(scans[j])
}

/// Build the constructor map from the scan outcomes: one entry per validated
/// name, keyed by name, the handle taken from the last scan that validated
/// that name (discovery order is platform-dependent, so colliding names are
/// an operator error; the choice is deliberately last-wins). Invalid files
/// contribute nothing and never abort the scan.
pub fn build_constructor_map(scans: &Vec<FileScan>) -> (map: Vec<(String, u64)>)
    ensures
        table::keys_unique(map@),
        forall|k: int| #![trigger map@[k]]
            0 <= k < map@.len() ==> assigns(scans@, map@[k].0@, map@[k].1),
        forall|k: int| #![trigger map@[k]]
            0 <= k < map@.len() ==> maps_to_last(scans@, 0, map@[k].0@, map@[k].1),
        forall|i: int| #![trigger scans@[i]]
            0 <= i < scans@.len() ==> (scan_is_valid(scans@[i]) ==> table::has_key(
                map@,
                scan_name(scans@[i]),
            )),
        names_distinct(scans@) ==> map@.len() == valid_count(scans@),
{
    let n = scans.len();
    let mut map: Vec<(String, u64)> = Vec::new();
    let mut i: usize = n;
    while i > 0
        invariant
            n == scans@.len(),
            i <= n,
            table::keys_unique(map@),
            forall|k: int| #![trigger map@[k]]
                0 <= k < map@.len() ==> assigns_from(scans@, i as int, map@[k].0@, map@[k].1),
            forall|k: int| #![trigger map@[k]]
                0 <= k < map@.len() ==> maps_to_last(scans@, i as int, map@[k].0@, map@[k].1),
            forall|j: int| #![trigger scans@[j]]
                i <= j < n ==> (scan_is_valid(scans@[j]) ==> table::has_key(
                    map@,
                    scan_name(scans@[j]),
                )),
            names_distinct(scans@) ==> map@.len() == valid_count_from(scans@, i as int),
        decreases i,
    {
        i -= 1;
        let ghost map_pre = map@;
        proof {
            assert forall|k: int| 0 <= k < map@.len() implies maps_to_last(
                scans@,
                i as int,
                (#[trigger] map@[k]).0@,
                map@[k].1,
            ) by {
                let j = choose|j: int|
                    is_last_match(scans@, i + 1, j, map@[k].0@) && map@[k].1 == scan_builder(
                        scans@[j],
                    );
                assert(is_last_match(scans@, i as int, j, map@[k].0@));
                assert(maps_to_last(scans@, i as int, map@[k].0@, map@[k].1));
            }
        }
        match &scans[i] {
            FileScan::Valid { name, builder } => {
                if !table::contains_key(&map, name) {
                    map.push((name.clone(), *builder));
                    assert(assigns_from(scans@, i as int, name@, *builder));
                    assert forall|l: int|
                        i < l < n implies !(scan_is_valid(#[trigger] scans@[l]) && scan_name(
                        scans@[l],
                    ) == name@) by {
                        if scan_is_valid(scans@[l]) && scan_name(scans@[l]) == name@ {
                            assert(table::has_key(map_pre, scan_name(scans@[l])));
                        }
                    }
                    assert(is_last_match(scans@, i as int, i as int, name@));
                    assert(scan_builder(scans@[i as int]) == *builder);
                    assert(maps_to_last(scans@, i as int, name@, *builder));
                    assert forall|k: int| 0 <= k < map@.len() implies maps_to_last(
                        scans@,
                        i as int,
                        (#[trigger] map@[k]).0@,
                        map@[k].1,
                    ) by {
                        if k < map_pre.len() {
                            assert(map@[k] == map_pre[k]);
                            assert(maps_to_last(scans@, i as int, map_pre[k].0@, map_pre[k].1));
                        } else {
                            assert(map@[k].0@ == name@ && map@[k].1 == *builder);
                        }
                    }
                    assert forall|j: int|
                        i <= j < n && scan_is_valid(scans@[j]) implies table::has_key(
                        map@,
                        scan_name(scans@[j]),
                    ) by {
                        if j == i as int {
                            assert(map@[map_pre.len() as int].0@ == name@);
                        } else {
                            assert(table::has_key(map_pre, scan_name(scans@[j])));
                            let k = choose|k: int|
                                0 <= k < map_pre.len() && map_pre[k].0@ == scan_name(scans@[j]);
                            assert(map@[k].0@ == scan_name(scans@[j]));
                        }
                    }
                } else {
                    proof {
                        if names_distinct(scans@) {
                            let k = choose|k: int|
                                0 <= k < map@.len() && map@[k].0@ == name@;
                            assert(assigns_from(scans@, i + 1, map@[k].0@, map@[k].1));
                            let j = choose|j: int|
                                i + 1 <= j < scans@.len() && scan_is_valid(scans@[j])
                                    && scan_name(scans@[j]) == map@[k].0@
                                    && scan_builder(scans@[j]) == map@[k].1;
                            assert(scan_name(scans@[i as int]) == scan_name(scans@[j]));
                            assert(false);
                        }
                    }
                }
            },
            FileScan::Invalid => {},
        }
    }
    map
}

/// The view of each name, in order.
pub open spec fn name_views(s: Seq<String>) -> Seq<Seq<char>> {
    s.map_values(|x: String| x@)
}

/// Whether `name` already occurs in `v`.
pub fn contains_name(v: &Vec<String>, name: &String) -> (r: bool)
    ensures
        r == name_views(v@).contains(name@),
{
    let n = v.len();
    let mut i: usize = 0;
    while i < n
        invariant
            n == v@.len(),
            i <= n,
            forall|j: int| 0 <= j < i ==> v@[j]@ != name@,
        decreases n - i,
    {
        if v[i] == *name {
            assert(name_views(v@)[i as int] == name@);
            return true;
        }
        i += 1;
    }
    assert forall|j: int| 0 <= j < name_views(v@).len() implies name_views(v@)[j] != name@ by {
        assert(name_views(v@)[j] == v@[j]@);
    }
    false
}

/// "Load all" mode: every name in the constructor map, in whatever order the
/// map happens to hold them. The order is explicitly arbitrary.
pub fn plan_all(map: &Vec<(String, u64)>) -> (r: Vec<String>)
    requires
        table::keys_unique(map@),
    ensures
        r@.len() == map@.len(),
        forall|k: int| #![trigger r@[k]] 0 <= k < map@.len() ==> r@[k]@ == map@[k].0@,
        forall|i: int, j: int| 0 <= i < j < r@.len() ==> r@[i]@ != r@[j]@,
{
    let n = map.len();
    let mut out: Vec<String> = Vec::new();
    let mut i: usize = 0;
    while i < n
        invariant
            n == map@.len(),
            i <= n,
            table::keys_unique(map@),
            out@.len() == i,
            forall|k: int| #![trigger out@[k]] 0 <= k < i ==> out@[k]@ == map@[k].0@,
        decreases n - i,
    {
        out.push(map[i].0.clone());
        i += 1;
    }
    out
}

/// "Explicit list" mode, on name views: the configured list in its written
/// order, keeping each name that the constructor map knows, once.
pub open spec fn explicit_plan(req: Seq<Seq<char>>, map: Seq<(String, u64)>) -> Seq<Seq<char>>
    decreases req.len(),
{
    if req.len() == 0 {
        Seq::empty()
    } else {
        let pre = explicit_plan(req.drop_last(), map);
        if table::has_key(map, req.last()) && !pre.contains(req.last()) {
            pre.push(req.last())
        } else {
            pre
        }
    }
}

/// The configured list filtered to names present in the map, order kept,
/// repeats kept.
pub open spec fn present_filter(req: Seq<Seq<char>>, map: Seq<(String, u64)>) -> Seq<Seq<char>>
    decreases req.len(),
{
    if req.len() == 0 {
        Seq::empty()
    } else {
        let pre = present_filter(req.drop_last(), map);
        if table::has_key(map, req.last()) {
            pre.push(req.last())
        } else {
            pre
        }
    }
}

/// "Explicit list" mode: walk the configured list in its written order; a
/// name the constructor map knows is kept (once), a name absent from
/// discovery is skipped without error.
pub fn plan_explicit(requested: &Vec<String>, map: &Vec<(String, u64)>) -> (r: Vec<String>)
    requires
        table::keys_unique(map@),
    ensures
        name_views(r@) == explicit_plan(name_views(requested@), map@),
        forall|i: int, j: int| 0 <= i < j < r@.len() ==> r@[i]@ != r@[j]@,
{
    let n = requested.len();
    let mut out: Vec<String> = Vec::new();
    let mut i: usize = 0;
    while i < n
        invariant
            n == requested@.len(),
            i <= n,
            table::keys_unique(map@),
            name_views(out@) == explicit_plan(name_views(requested@.take(i as int)), map@),
            forall|p: int, q: int| 0 <= p < q < out@.len() ==> out@[p]@ != out@[q]@,
        decreases n - i,
    {
        let ghost prev = name_views(requested@.take(i as int));
        let ghost cur = name_views(requested@.take(i + 1));
        assert(cur.drop_last() =~= prev);
        assert(cur.last() == requested@[i as int]@);
        let name = &requested[i];
        let ghost out_pre = out@;
        if table::contains_key(map, name) && !contains_name(&out, name) {
            out.push(name.clone());
            assert(name_views(out@) =~= name_views(out_pre).push(name@));
            assert forall|p: int| 0 <= p < out_pre.len() implies out_pre[p]@ != name@ by {
                if out_pre[p]@ == name@ {
                    assert(name_views(out_pre)[p] == name@);
                    assert(name_views(out_pre).contains(name@));
                }
            }
        }
        i += 1;
        assert(name_views(requested@.take(i as int)) == cur);
    }
    assert(requested@.take(n as int) =~= requested@);
    out
}

/// Which plan names actually enter the registry: those whose constructor
/// call, aligned by position, returned an instance.
pub open spec fn mask(names: Seq<Seq<char>>, ok: Seq<bool>) -> Seq<Seq<char>>
    decreases names.len(),
{
    if names.len() == 0 {
        Seq::empty()
    } else {
        let pre = mask(names.drop_last(), ok);
        if names.len() - 1 < ok.len() && ok[names.len() - 1] {
            pre.push(names.last())
        } else {
            pre
        }
    }
}

/// When every constructor succeeds, nothing is masked out.
pub proof fn lemma_mask_all_true(names: Seq<Seq<char>>, ok: Seq<bool>)
    requires
        names.len() <= ok.len(),
        forall|k: int| 0 <= k < ok.len() ==> ok[k],
    ensures
        mask(names, ok) == names,
    decreases names.len(),
{
    if names.len() > 0 {
        lemma_mask_all_true(names.drop_last(), ok);
        assert(mask(names, ok) =~= names);
    }
}

/// Every name the explicit plan keeps comes from the configured list.
pub proof fn lemma_explicit_plan_elements(req: Seq<Seq<char>>, map: Seq<(String, u64)>, n: Seq<char>)
    requires
        explicit_plan(req, map).contains(n),
    ensures
        req.contains(n),
    decreases req.len(),
{
    if req.len() > 0 {
        let pre = explicit_plan(req.drop_last(), map);
        if table::has_key(map, req.last()) && !pre.contains(req.last()) {
            if n == req.last() {
                assert(req[req.len() - 1] == n);
            } else {
                assert(pre.contains(n)) by {
                    let k = choose|k: int|
                        0 <= k < pre.push(req.last()).len() && pre.push(req.last())[k] == n;
                    assert(pre[k] == n);
                }
                lemma_explicit_plan_elements(req.drop_last(), map, n);
                let k = choose|k: int| 0 <= k < req.drop_last().len() && req.drop_last()[k] == n;
                assert(req[k] == n);
            }
        } else {
            lemma_explicit_plan_elements(req.drop_last(), map, n);
            let k = choose|k: int| 0 <= k < req.drop_last().len() && req.drop_last()[k] == n;
            assert(req[k] == n);
        }
    }
}

/// With pairwise-distinct configured names, the explicit plan is exactly the
/// configured list filtered to names present in discovery, in configured
/// order.
pub proof fn lemma_explicit_plan_is_filter(req: Seq<Seq<char>>, map: Seq<(String, u64)>)
    requires
        forall|i: int, j: int| 0 <= i < j < req.len() ==> req[i] != req[j],
    ensures
        explicit_plan(req, map) == present_filter(req, map),
    decreases req.len(),
{
    if req.len() > 0 {
        assert(forall|i: int, j: int|
            0 <= i < j < req.drop_last().len() ==> req.drop_last()[i] != req.drop_last()[j]);
        lemma_explicit_plan_is_filter(req.drop_last(), map);
        if table::has_key(map, req.last()) {
            let pre = explicit_plan(req.drop_last(), map);
            if pre.contains(req.last()) {
                lemma_explicit_plan_elements(req.drop_last(), map, req.last());
                let k = choose|k: int|
                    0 <= k < req.drop_last().len() && req.drop_last()[k] == req.last();
                assert(req[k] == req[req.len() - 1]);
                assert(false);
            }
        }
    }
}

/// Every name the mask keeps comes from the plan.
pub proof fn lemma_mask_elements(names: Seq<Seq<char>>, ok: Seq<bool>, x: Seq<char>)
    requires
        mask(names, ok).contains(x),
    ensures
        names.contains(x),
    decreases names.len(),
{
    if names.len() > 0 {
        let pre = mask(names.drop_last(), ok);
        if names.len() - 1 < ok.len() && ok[names.len() - 1] {
            if x == names.last() {
                assert(names[names.len() - 1] == x);
            } else {
                assert(pre.contains(x)) by {
                    let k = choose|k: int|
                        0 <= k < pre.push(names.last()).len() && pre.push(names.last())[k] == x;
                    assert(pre[k] == x);
                }
                lemma_mask_elements(names.drop_last(), ok, x);
                let k = choose|k: int|
                    0 <= k < names.drop_last().len() && names.drop_last()[k] == x;
                assert(names[k] == x);
            }
        } else {
            lemma_mask_elements(names.drop_last(), ok, x);
            let k = choose|k: int| 0 <= k < names.drop_last().len() && names.drop_last()[k] == x;
            assert(names[k] == x);
        }
    }
}

/// The configured list filtered to discovered names, order kept.
pub open spec fn discovered_filter(req: Seq<Seq<char>>, scans: Seq<FileScan>) -> Seq<Seq<char>>
    decreases req.len(),
{
    if req.len() == 0 {
        Seq::empty()
    } else {
        let pre = discovered_filter(req.drop_last(), scans);
        if discovered(scans, req.last()) {
            pre.push(req.last())
        } else {
            pre
        }
    }
}

/// With the constructor map built from the scans, filtering by map presence
/// is filtering by discovery.
pub proof fn lemma_present_filter_by_discovery(
    req: Seq<Seq<char>>,
    map: Seq<(String, u64)>,
    scans: Seq<FileScan>,
)
    requires
        forall|k: int| #![trigger map[k]] 0 <= k < map.len() ==> assigns(scans, map[k].0@, map[k].1),
        forall|i: int| #![trigger scans[i]]
            0 <= i < scans.len() ==> (scan_is_valid(scans[i]) ==> table::has_key(
                map,
                scan_name(scans[i]),
            )),
    ensures
        present_filter(req, map) == discovered_filter(req, scans),
    decreases req.len(),
{
    lemma_map_keys_are_discovered(scans, map);
    if req.len() > 0 {
        lemma_present_filter_by_discovery(req.drop_last(), map, scans);
        assert(table::has_key(map, req.last()) == discovered(scans, req.last()));
    }
}

/// Presence in the constructor map is exactly discovery.
pub proof fn lemma_map_keys_are_discovered(scans: Seq<FileScan>, map: Seq<(String, u64)>)
    requires
        forall|k: int| #![trigger map[k]] 0 <= k < map.len() ==> assigns(scans, map[k].0@, map[k].1),
        forall|i: int| #![trigger scans[i]]
            0 <= i < scans.len() ==> (scan_is_valid(scans[i]) ==> table::has_key(
                map,
                scan_name(scans[i]),
            )),
    ensures
        forall|n: Seq<char>| #![trigger table::has_key(map, n)] #![trigger discovered(scans, n)]
            table::has_key(map, n) <==> discovered(scans, n),
{
    assert forall|n: Seq<char>| table::has_key(map, n) implies discovered(scans, n) by {
        let k = choose|k: int| 0 <= k < map.len() && map[k].0@ == n;
        assert(assigns(scans, map[k].0@, map[k].1));
    }
    assert forall|n: Seq<char>| discovered(scans, n) implies table::has_key(map, n) by {
        let i = choose|i: int|
            0 <= i < scans.len() && scan_is_valid(scans[i]) && scan_name(scans[i]) == n;
        assert(table::has_key(map, scan_name(scans[i])));
    }
}

} // verus!

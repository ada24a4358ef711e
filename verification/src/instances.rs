//! Instance grouper: detect program names that recur as suspiciously many
//! running instances.
//!
//! The scan walks a sorted name list left to right. For each name not yet
//! reported and not blacklisted, it measures the contiguous run of identical
//! adjacent names starting there, stopping early once the run reaches the
//! cap. A run is reported only when the recorded count strictly exceeds the
//! minimum threshold; the recorded count may be the cap, not the true run
//! length. This undercounting at the cap boundary is deliberate, documented
//! behaviour, not an error to correct.

use vstd::prelude::*;
use crate::process::collect_process_names;
use crate::response::ResponseResult;
use crate::strutil::{sort_names, sorted_names, str_eq};

verus! {

/// One detected group: a program name and the count of contiguous identical
/// instances observed for it (possibly truncated at the cap).
pub struct ProcessManyInfo {
    pub name: String,
    pub count: i8,
}

/// Mathematical model of one group.
pub ghost struct GroupModel {
    pub name: Seq<char>,
    pub count: int,
}

impl View for ProcessManyInfo {
    type V = GroupModel;

    open spec fn view(&self) -> GroupModel {
        GroupModel { name: self.name@, count: self.count as int }
    }
}

/// The models of a list of groups.
pub open spec fn group_views(s: Seq<ProcessManyInfo>) -> Seq<GroupModel> {
    s.map_values(|p: ProcessManyInfo| p@)
}

/// Length of the contiguous run of names equal to `names[i]` starting at
/// position `i`.
pub open spec fn spec_run_len(names: Seq<Seq<char>>, i: int) -> int
    decreases names.len() - i,
{
    if i + 1 >= names.len() || names[i + 1] != names[i] {
        1
    } else {
        1 + spec_run_len(names, i + 1)
    }
}

/// The count recorded for the run starting at `i`: its length, truncated at
/// the cap `max`.
pub open spec fn spec_capped_count(names: Seq<Seq<char>>, i: int, max: int) -> int {
    if spec_run_len(names, i) >= max {
        max
    } else {
        spec_run_len(names, i)
    }
}

/// Whether some group in the list carries this name.
pub open spec fn spec_has_group(groups: Seq<GroupModel>, name: Seq<char>) -> bool {
    exists|j: int| 0 <= j < groups.len() && groups[j].name == name
}

/// Whether some group in the list carries this name with this count.
pub open spec fn spec_has_group_with(groups: Seq<GroupModel>, name: Seq<char>, count: int) -> bool {
    exists|j: int| 0 <= j < groups.len() && groups[j].name == name && groups[j].count == count
}

/// The scan from position `i` onward, with `acc` the groups already emitted:
/// a name that is blacklisted or already reported is skipped; otherwise its
/// capped run count is recorded when it strictly exceeds `min`.
pub open spec fn spec_scan(
    names: Seq<Seq<char>>,
    black_list: Seq<Seq<char>>,
    min: int,
    max: int,
    i: int,
    acc: Seq<GroupModel>,
) -> Seq<GroupModel>
    decreases names.len() - i,
{
    if i >= names.len() {
        acc
    } else if black_list.contains(names[i]) || spec_has_group(acc, names[i]) {
        spec_scan(names, black_list, min, max, i + 1, acc)
    } else if spec_capped_count(names, i, max) > min {
        spec_scan(
            names,
            black_list,
            min,
            max,
            i + 1,
            acc.push(GroupModel { name: names[i], count: spec_capped_count(names, i, max) }),
        )
    } else {
        spec_scan(names, black_list, min, max, i + 1, acc)
    }
}

/// The groups the scan detects in a name list.
pub open spec fn spec_groups(
    names: Seq<Seq<char>>,
    black_list: Seq<Seq<char>>,
    min: int,
    max: int,
) -> Seq<GroupModel> {
    spec_scan(names, black_list, min, max, 0, Seq::empty())
}

/// Appending a group adds exactly its name to the names present.
proof fn lemma_has_group_push(acc: Seq<GroupModel>, g: GroupModel, n: Seq<char>)
    ensures
        spec_has_group(acc.push(g), n) <==> (spec_has_group(acc, n) || g.name == n),
{
    if spec_has_group(acc.push(g), n) {
        let j = choose|j: int| 0 <= j < acc.push(g).len() && acc.push(g)[j].name == n;
        if j < acc.len() {
            assert(acc[j].name == n);
        }
    }
    if spec_has_group(acc, n) {
        let j = choose|j: int| 0 <= j < acc.len() && acc[j].name == n;
        assert(acc.push(g)[j].name == n);
    }
    if g.name == n {
        assert(acc.push(g)[acc.len() as int].name == n);
    }
}

/// A group already emitted stays in the scan's result.
proof fn lemma_scan_monotone(
    names: Seq<Seq<char>>,
    black_list: Seq<Seq<char>>,
    min: int,
    max: int,
    i: int,
    acc: Seq<GroupModel>,
    g: GroupModel,
)
    requires
        acc.contains(g),
    ensures
        spec_scan(names, black_list, min, max, i, acc).contains(g),
    decreases names.len() - i,
{
    if i < names.len() {
        if !(black_list.contains(names[i]) || spec_has_group(acc, names[i]))
            && spec_capped_count(names, i, max) > min {
            let g2 = GroupModel { name: names[i], count: spec_capped_count(names, i, max) };
            let j = choose|j: int| 0 <= j < acc.len() && acc[j] == g;
            assert(acc.push(g2)[j] == g);
            assert(acc.push(g2).contains(g));
            lemma_scan_monotone(names, black_list, min, max, i + 1, acc.push(g2), g);
        } else {
            lemma_scan_monotone(names, black_list, min, max, i + 1, acc, g);
        }
    }
}

/// A block of equal names reaching a run boundary is the whole run.
proof fn lemma_run_len_exact(names: Seq<Seq<char>>, start: int, j: int)
    requires
        0 <= start <= j < names.len(),
        forall|k: int| start <= k <= j ==> names[k] == names[start],
        j + 1 == names.len() || names[j + 1] != names[j],
    ensures
        spec_run_len(names, start) == j - start + 1,
    decreases j - start,
{
    if start < j {
        lemma_run_len_exact(names, start + 1, j);
    }
}

/// A run is never empty.
proof fn lemma_run_len_positive(names: Seq<Seq<char>>, i: int)
    ensures
        spec_run_len(names, i) >= 1,
    decreases names.len() - i,
{
    if !(i + 1 >= names.len() || names[i + 1] != names[i]) {
        lemma_run_len_positive(names, i + 1);
    }
}

/// A block of equal names bounds the run length from below.
proof fn lemma_run_len_at_least(names: Seq<Seq<char>>, start: int, j: int)
    requires
        0 <= start <= j < names.len(),
        forall|k: int| start <= k <= j ==> names[k] == names[start],
    ensures
        spec_run_len(names, start) >= j - start + 1,
    decreases j - start,
{
    if start < j {
        lemma_run_len_at_least(names, start + 1, j);
    } else {
        lemma_run_len_positive(names, start);
    }
}

/// A name that, from position `i` on, is everywhere blacklisted or within
/// threshold is never added by the scan.
proof fn lemma_scan_skips(
    names: Seq<Seq<char>>,
    black_list: Seq<Seq<char>>,
    min: int,
    max: int,
    i: int,
    acc: Seq<GroupModel>,
    n: Seq<char>,
)
    requires
        !spec_has_group(acc, n),
        forall|k: int|
            i <= k < names.len() && #[trigger] names[k] == n ==> (black_list.contains(n)
                || spec_capped_count(names, k, max) <= min),
    ensures
        !spec_has_group(spec_scan(names, black_list, min, max, i, acc), n),
    decreases names.len() - i,
{
    if i < names.len() {
        if !(black_list.contains(names[i]) || spec_has_group(acc, names[i]))
            && spec_capped_count(names, i, max) > min {
            let g = GroupModel { name: names[i], count: spec_capped_count(names, i, max) };
            assert(names[i] != n);
            lemma_has_group_push(acc, g, n);
            lemma_scan_skips(names, black_list, min, max, i + 1, acc.push(g), n);
        } else {
            lemma_scan_skips(names, black_list, min, max, i + 1, acc, n);
        }
    }
}

/// The scan reports the run starting at `lo` with its capped count, provided
/// its name is not blacklisted, not already reported, and does not occur
/// between `i` and `lo`.
proof fn lemma_scan_reports(
    names: Seq<Seq<char>>,
    black_list: Seq<Seq<char>>,
    min: int,
    max: int,
    i: int,
    acc: Seq<GroupModel>,
    lo: int,
    c: int,
)
    requires
        0 <= i <= lo < names.len(),
        !black_list.contains(names[lo]),
        !spec_has_group(acc, names[lo]),
        forall|k: int| i <= k < lo ==> names[k] != names[lo],
        spec_capped_count(names, lo, max) == c,
        c > min,
    ensures
        spec_has_group_with(spec_scan(names, black_list, min, max, i, acc), names[lo], c),
    decreases lo - i,
{
    if i == lo {
        let g = GroupModel { name: names[lo], count: c };
        assert(acc.push(g)[acc.len() as int] == g);
        assert(acc.push(g).contains(g));
        lemma_scan_monotone(names, black_list, min, max, i + 1, acc.push(g), g);
        let s = spec_scan(names, black_list, min, max, i, acc);
        let j = choose|j: int| 0 <= j < s.len() && s[j] == g;
        assert(s[j].name == names[lo] && s[j].count == c);
    } else {
        if !(black_list.contains(names[i]) || spec_has_group(acc, names[i]))
            && spec_capped_count(names, i, max) > min {
            let g = GroupModel { name: names[i], count: spec_capped_count(names, i, max) };
            lemma_has_group_push(acc, g, names[lo]);
            lemma_scan_reports(names, black_list, min, max, i + 1, acc.push(g), lo, c);
        } else {
            lemma_scan_reports(names, black_list, min, max, i + 1, acc, lo, c);
        }
    }
}

/// Every count the scan emits lies strictly above `min` and at most `max`.
proof fn lemma_scan_counts(
    names: Seq<Seq<char>>,
    black_list: Seq<Seq<char>>,
    min: int,
    max: int,
    i: int,
    acc: Seq<GroupModel>,
)
    requires
        forall|j: int| 0 <= j < acc.len() ==> min < #[trigger] acc[j].count <= max,
    ensures
        forall|j: int|
            0 <= j < spec_scan(names, black_list, min, max, i, acc).len() ==> min
                < #[trigger] spec_scan(names, black_list, min, max, i, acc)[j].count <= max,
    decreases names.len() - i,
{
    let s = spec_scan(names, black_list, min, max, i, acc);
    if i >= names.len() {
        assert(s == acc);
    } else if !(black_list.contains(names[i]) || spec_has_group(acc, names[i]))
        && spec_capped_count(names, i, max) > min {
        let g = GroupModel { name: names[i], count: spec_capped_count(names, i, max) };
        assert forall|j: int| 0 <= j < acc.push(g).len() implies min < #[trigger] acc.push(
            g,
        )[j].count <= max by {
            if j < acc.len() {
                assert(acc.push(g)[j] == acc[j]);
            }
        }
        lemma_scan_counts(names, black_list, min, max, i + 1, acc.push(g));
        assert(s == spec_scan(names, black_list, min, max, i + 1, acc.push(g)));
    } else {
        lemma_scan_counts(names, black_list, min, max, i + 1, acc);
        assert(s == spec_scan(names, black_list, min, max, i + 1, acc));
    }
}

/// The scan never reports one name twice.
proof fn lemma_scan_distinct(
    names: Seq<Seq<char>>,
    black_list: Seq<Seq<char>>,
    min: int,
    max: int,
    i: int,
    acc: Seq<GroupModel>,
)
    requires
        forall|a: int, b: int|
            0 <= a < b < acc.len() ==> (#[trigger] acc[a].name) != (#[trigger] acc[b].name),
    ensures
        forall|a: int, b: int|
            0 <= a < b < spec_scan(names, black_list, min, max, i, acc).len()
                ==> (#[trigger] spec_scan(names, black_list, min, max, i, acc)[a].name)
                != (#[trigger] spec_scan(names, black_list, min, max, i, acc)[b].name),
    decreases names.len() - i,
{
    let s = spec_scan(names, black_list, min, max, i, acc);
    if i >= names.len() {
        assert(s == acc);
    } else if !(black_list.contains(names[i]) || spec_has_group(acc, names[i]))
        && spec_capped_count(names, i, max) > min {
        let g = GroupModel { name: names[i], count: spec_capped_count(names, i, max) };
        assert forall|a: int, b: int|
            0 <= a < b < acc.push(g).len() implies (#[trigger] acc.push(g)[a].name)
            != (#[trigger] acc.push(g)[b].name) by {
            assert(acc.push(g)[a] == acc[a]);
            if b == acc.len() {
                if acc[a].name == g.name {
                    assert(spec_has_group(acc, names[i]));
                }
            } else {
                assert(acc.push(g)[b] == acc[b]);
            }
        }
        lemma_scan_distinct(names, black_list, min, max, i + 1, acc.push(g));
        assert(s == spec_scan(names, black_list, min, max, i + 1, acc.push(g)));
    } else {
        lemma_scan_distinct(names, black_list, min, max, i + 1, acc);
        assert(s == spec_scan(names, black_list, min, max, i + 1, acc));
    }
}

/// A name whose occurrences form one contiguous run of exactly `min` names
/// is not reported: the threshold is strictly greater-than.
pub proof fn lemma_run_at_threshold_not_reported(
    names: Seq<Seq<char>>,
    black_list: Seq<Seq<char>>,
    min: int,
    max: int,
    n: Seq<char>,
    lo: int,
)
    requires
        0 < min < max,
        0 <= lo,
        lo + min <= names.len(),
        forall|k: int| 0 <= k < names.len() ==> (#[trigger] names[k] == n <==> lo <= k < lo + min),
    ensures
        !spec_has_group(spec_groups(names, black_list, min, max), n),
{
    assert forall|k: int|
        0 <= k < names.len() && #[trigger] names[k] == n implies spec_capped_count(names, k, max)
        <= min by {
        assert(lo <= k < lo + min);
        lemma_run_len_exact(names, k, lo + min - 1);
        assert(spec_run_len(names, k) == lo + min - k);
    }
    lemma_scan_skips(names, black_list, min, max, 0, Seq::empty(), n);
}

/// A name whose occurrences form one contiguous run of exactly `min + 1`
/// names, and which is not blacklisted, is reported with count `min + 1`.
pub proof fn lemma_run_above_threshold_reported(
    names: Seq<Seq<char>>,
    black_list: Seq<Seq<char>>,
    min: int,
    max: int,
    n: Seq<char>,
    lo: int,
)
    requires
        0 < min < max,
        0 <= lo,
        lo + min + 1 <= names.len(),
        forall|k: int|
            0 <= k < names.len() ==> (#[trigger] names[k] == n <==> lo <= k < lo + min + 1),
        !black_list.contains(n),
    ensures
        spec_has_group_with(spec_groups(names, black_list, min, max), n, min + 1),
{
    lemma_run_len_exact(names, lo, lo + min);
    assert(spec_run_len(names, lo) == min + 1);
    assert(spec_capped_count(names, lo, max) == min + 1);
    lemma_scan_reports(names, black_list, min, max, 0, Seq::empty(), lo, min + 1);
}

/// A run longer than the cap `max` is reported with the capped count `max`,
/// never more.
pub proof fn lemma_long_run_capped(
    names: Seq<Seq<char>>,
    black_list: Seq<Seq<char>>,
    min: int,
    max: int,
    n: Seq<char>,
    lo: int,
    run: int,
)
    requires
        0 < min < max,
        0 <= lo,
        run > max,
        lo + run <= names.len(),
        forall|k: int| 0 <= k < names.len() ==> (#[trigger] names[k] == n <==> lo <= k < lo + run),
    ensures
        spec_has_group_with(spec_groups(names, black_list, min, max), n, max)
            || black_list.contains(n),
{
    if !black_list.contains(n) {
        lemma_run_len_exact(names, lo, lo + run - 1);
        assert(spec_run_len(names, lo) == run);
        assert(spec_capped_count(names, lo, max) == max);
        lemma_scan_reports(names, black_list, min, max, 0, Seq::empty(), lo, max);
    }
}

/// A blacklisted name is never reported, whatever its run length.
pub proof fn lemma_blacklisted_not_reported(
    names: Seq<Seq<char>>,
    black_list: Seq<Seq<char>>,
    min: int,
    max: int,
    n: Seq<char>,
)
    requires
        black_list.contains(n),
    ensures
        !spec_has_group(spec_groups(names, black_list, min, max), n),
{
    lemma_scan_skips(names, black_list, min, max, 0, Seq::empty(), n);
}

/// Every reported count lies strictly above `min` and at most `max`, and no
/// name is reported twice.
pub proof fn lemma_groups_well_formed(
    names: Seq<Seq<char>>,
    black_list: Seq<Seq<char>>,
    min: int,
    max: int,
)
    ensures
        forall|j: int|
            0 <= j < spec_groups(names, black_list, min, max).len() ==> min
                < #[trigger] spec_groups(names, black_list, min, max)[j].count <= max,
        forall|a: int, b: int|
            0 <= a < b < spec_groups(names, black_list, min, max).len()
                ==> (#[trigger] spec_groups(names, black_list, min, max)[a].name)
                != (#[trigger] spec_groups(names, black_list, min, max)[b].name),
{
    lemma_scan_counts(names, black_list, min, max, 0, Seq::empty());
    lemma_scan_distinct(names, black_list, min, max, 0, Seq::empty());
}

/// Membership of a name in the caller-supplied blacklist.
fn in_black_list(black_list: &Vec<&str>, name: &String) -> (r: bool)
    ensures
        r == black_list.deep_view().contains(name@),
{
    let mut i: usize = 0;
    while i < black_list.len()
        invariant
            i <= black_list@.len(),
            forall|j: int| 0 <= j < i ==> black_list.deep_view()[j] != name@,
        decreases black_list@.len() - i,
    {
        if str_eq(black_list[i], name.as_str()) {
            proof {
                assert(black_list.deep_view()[i as int] == name@);
            }
            return true;
        }
        i = i + 1;
    }
    proof {
        if black_list.deep_view().contains(name@) {
            let j = choose|j: int|
                0 <= j < black_list.deep_view().len() && black_list.deep_view()[j] == name@;
            assert(false);
        }
    }
    false
}

/// Whether a group for this name was already emitted.
fn has_group(groups: &Vec<ProcessManyInfo>, name: &String) -> (r: bool)
    ensures
        r == spec_has_group(group_views(groups@), name@),
{
    let mut i: usize = 0;
    while i < groups.len()
        invariant
            i <= groups@.len(),
            forall|j: int| 0 <= j < i ==> group_views(groups@)[j].name != name@,
        decreases groups@.len() - i,
    {
        if str_eq(groups[i].name.as_str(), name.as_str()) {
            proof {
                assert(group_views(groups@)[i as int].name == name@);
            }
            return true;
        }
        i = i + 1;
    }
    false
}

/// Counts the contiguous run of identical adjacent names starting at
/// `start`, stopping early once the count reaches the cap; the result is the
/// run length truncated at `max`.
fn run_count(names: &Vec<String>, start: usize, max: i8) -> (count: i8)
    requires
        start < names@.len(),
        max >= 1,
    ensures
        count as int == spec_capped_count(names.deep_view(), start as int, max as int),
{
    let ghost dv = names.deep_view();
    let mut count: i8 = 0;
    let mut j: usize = start;
    loop
        invariant
            start <= j < names@.len(),
            dv == names.deep_view(),
            dv.len() == names@.len(),
            max >= 1,
            count as int == j - start,
            count < max,
            forall|k: int| start <= k <= j ==> dv[k] == dv[start as int],
        decreases names@.len() - j,
    {
        count = count + 1;
        let at_end = j == names.len() - 1;
        let at_cap = count > max - 1;
        if at_end || at_cap || !str_eq(names[j].as_str(), names[j + 1].as_str()) {
            proof {
                if at_cap {
                    lemma_run_len_at_least(dv, start as int, j as int);
                    assert(spec_run_len(dv, start as int) >= max);
                } else {
                    assert(j + 1 == dv.len() || dv[j + 1] != dv[j as int]);
                    lemma_run_len_exact(dv, start as int, j as int);
                    assert(spec_run_len(dv, start as int) == count);
                }
            }
            return count;
        }
        proof {
            assert(dv[j as int] == names@[j as int]@);
            assert(dv[j + 1] == names@[j + 1]@);
        }
        j = j + 1;
    }
}

/// Scans a name list, sorted by the caller, and reports each name whose
/// contiguous run strictly exceeds `min_check_value`, with the run length
/// truncated at `max_check_value`; blacklisted names are never reported and
/// no name is reported twice.
pub fn group_sorted_names(
    names: &Vec<String>,
    min_check_value: i8,
    max_check_value: i8,
    black_list: &Vec<&str>,
) -> (r: Vec<ProcessManyInfo>)
    requires
        0 < min_check_value < max_check_value,
    ensures
        group_views(r@) == spec_groups(
            names.deep_view(),
            black_list.deep_view(),
            min_check_value as int,
            max_check_value as int,
        ),
{
    let ghost dv = names.deep_view();
    let ghost bl = black_list.deep_view();
    let ghost mi = min_check_value as int;
    let ghost ma = max_check_value as int;
    let mut groups: Vec<ProcessManyInfo> = Vec::new();
    proof {
        assert(group_views(groups@) =~= Seq::<GroupModel>::empty());
    }
    let mut i: usize = 0;
    while i < names.len()
        invariant
            i <= names@.len(),
            dv == names.deep_view(),
            dv.len() == names@.len(),
            mi == min_check_value as int,
            ma == max_check_value as int,
            bl == black_list.deep_view(),
            0 < min_check_value < max_check_value,
            spec_groups(dv, bl, mi, ma) == spec_scan(dv, bl, mi, ma, i as int, group_views(
                groups@,
            )),
        decreases names@.len() - i,
    {
        let ghost acc = group_views(groups@);
        proof {
            assert(names@[i as int]@ == dv[i as int]);
        }
        if !in_black_list(black_list, &names[i]) {
            if !has_group(&groups, &names[i]) {
                let count = run_count(names, i, max_check_value);
                if count > min_check_value {
                    let ghost g = GroupModel { name: dv[i as int], count: count as int };
                    groups.push(ProcessManyInfo { name: names[i].clone(), count });
                    proof {
                        assert(group_views(groups@) =~= acc.push(g));
                        assert(spec_scan(dv, bl, mi, ma, i as int, acc) == spec_scan(
                            dv,
                            bl,
                            mi,
                            ma,
                            i + 1,
                            acc.push(g),
                        ));
                    }
                } else {
                    proof {
                        assert(spec_scan(dv, bl, mi, ma, i as int, acc) == spec_scan(
                            dv,
                            bl,
                            mi,
                            ma,
                            i + 1,
                            acc,
                        ));
                    }
                }
            } else {
                proof {
                    assert(spec_scan(dv, bl, mi, ma, i as int, acc) == spec_scan(
                        dv,
                        bl,
                        mi,
                        ma,
                        i + 1,
                        acc,
                    ));
                }
            }
        } else {
            proof {
                assert(spec_scan(dv, bl, mi, ma, i as int, acc) == spec_scan(
                    dv,
                    bl,
                    mi,
                    ma,
                    i + 1,
                    acc,
                ));
            }
        }
        i = i + 1;
    }
    groups
}

/// Enumerates all live process names, sorts them, and reports the names that
/// recur as suspiciously many contiguous instances.
///
/// The name list is a fresh snapshot of the host's process table, so the
/// contract states what holds of every outcome: the result is exactly the
/// scan's report on some sorted name list, every reported count lies
/// strictly above the threshold and at most at the cap, no blacklisted name
/// is reported, and no name is reported twice. By name alone two different
/// invocations of one program are indistinguishable; this is an approximate
/// signal, not an exact census.
pub fn collect_many_process_instances(
    min_check_value: i8,
    max_check_value: i8,
    black_list: Vec<&str>,
) -> (r: Vec<ProcessManyInfo>)
    requires
        0 < min_check_value < max_check_value,
    ensures
        exists|names: Seq<Seq<char>>|
            sorted_names(names) && group_views(r@) == #[trigger] spec_groups(
                names,
                black_list.deep_view(),
                min_check_value as int,
                max_check_value as int,
            ),
        forall|j: int|
            0 <= j < r@.len() ==> min_check_value < #[trigger] group_views(r@)[j].count
                <= max_check_value,
        forall|n: Seq<char>|
            black_list.deep_view().contains(n) ==> !spec_has_group(group_views(r@), n),
        forall|a: int, b: int|
            0 <= a < b < r@.len() ==> (#[trigger] group_views(r@)[a].name)
                != (#[trigger] group_views(r@)[b].name),
{
    let process_list = sort_names(collect_process_names());
    let r = group_sorted_names(&process_list, min_check_value, max_check_value, &black_list);
    proof {
        let dv = process_list.deep_view();
        let bl = black_list.deep_view();
        let mi = min_check_value as int;
        let ma = max_check_value as int;
        assert(sorted_names(dv) && group_views(r@) == spec_groups(dv, bl, mi, ma));
        lemma_groups_well_formed(dv, bl, mi, ma);
        assert forall|n: Seq<char>| bl.contains(n) implies !spec_has_group(group_views(r@), n) by {
            lemma_blacklisted_not_reported(dv, bl, mi, ma, n);
        }
    }
    r
}

/// The built-in blacklist: program names expected to run many times, which
/// the grouper must never report.
pub open spec fn spec_default_black_list() -> Seq<Seq<char>> {
    seq![
        "zsh"@,
        "fish"@,
        "bash"@,
        "sh"@,
        "tmux"@,
        "vim"@,
        "nvim"@,
        "code"@,
        "mdworker_shared"@,
        "CategoriesServic"@,
    ]
}

/// Command-level wrapper of the grouper, with the built-in blacklist; always
/// succeeds with an empty error string, and its payload is exactly the
/// scan's report on some sorted name list under that blacklist.
pub fn get_many_processes(min_length: i8, max_length: i8) -> (r: ResponseResult<
    Vec<ProcessManyInfo>,
>)
    requires
        0 < min_length < max_length,
    ensures
        r.success,
        r.error@ == Seq::<char>::empty(),
        exists|names: Seq<Seq<char>>|
            sorted_names(names) && group_views(r.result@) == #[trigger] spec_groups(
                names,
                spec_default_black_list(),
                min_length as int,
                max_length as int,
            ),
        forall|j: int|
            0 <= j < r.result@.len() ==> min_length < #[trigger] group_views(r.result@)[j].count
                <= max_length,
        forall|n: Seq<char>|
            spec_default_black_list().contains(n) ==> !spec_has_group(group_views(r.result@), n),
        forall|a: int, b: int|
            0 <= a < b < r.result@.len() ==> (#[trigger] group_views(r.result@)[a].name)
                != (#[trigger] group_views(r.result@)[b].name),
{
    let black_list: Vec<&str> = vec![
        "zsh",
        "fish",
        "bash",
        "sh",
        "tmux",
        "vim",
        "nvim",
        "code",
        "mdworker_shared",
        "CategoriesServic",
    ];
    let ghost blv = black_list.deep_view();
    proof {
        assert(blv =~= spec_default_black_list());
    }
    let result = collect_many_process_instances(min_length, max_length, black_list);
    proof {
        let names = choose|names: Seq<Seq<char>>|
            sorted_names(names) && group_views(result@) == #[trigger] spec_groups(
                names,
                blv,
                min_length as int,
                max_length as int,
            );
        assert(sorted_names(names) && group_views(result@) == spec_groups(
            names,
            spec_default_black_list(),
            min_length as int,
            max_length as int,
        ));
    }
    ResponseResult { success: true, result, error: String::new() }
}

} // verus!

use vstd::prelude::*;
use crate::detect::option_seq;
use crate::model::{Group, Transition, distinct_targets};
use crate::text::{decimal, push_decimal};

verus! {

/// One outbound notification decided by the batching policy.
#[derive(Debug)]
pub enum Notice {
    /// A change reported on its own: an ungrouped target, or the only changed
    /// member of its group in this tick.
    Single { change: Transition },
    /// Every change of one group in this tick, when there is more than one.
    Grouped { group_id: i32, group_name: String, changes: Vec<Transition> },
}

/// The mathematical content of a [`Notice`].
pub enum NoticeModel {
    Single { change: Transition },
    Grouped { group_id: i32, group_name: Seq<char>, changes: Seq<Transition> },
}

impl View for Notice {
    type V = NoticeModel;

    open spec fn view(&self) -> NoticeModel {
        match self {
            Notice::Single { change } => NoticeModel::Single { change: *change },
            Notice::Grouped { group_id, group_name, changes } => NoticeModel::Grouped {
                group_id: *group_id,
                group_name: group_name@,
                changes: changes@,
            },
        }
    }
}

pub open spec fn notices_view(ns: Seq<Notice>) -> Seq<NoticeModel> {
    ns.map_values(|n: Notice| n@)
}

pub open spec fn in_group(t: Transition, gid: i32) -> bool {
    t.target.group_id == Some(gid)
}

/// The transitions of group `gid`, in order.
pub open spec fn group_members(ts: Seq<Transition>, gid: i32) -> Seq<Transition>
    decreases ts.len(),
{
    if ts.len() == 0 {
        Seq::empty()
    } else {
        group_members(ts.drop_last(), gid) + if in_group(ts.last(), gid) {
            seq![ts.last()]
        } else {
            Seq::empty()
        }
    }
}

/// Whether position `i` holds the first transition of its group.
pub open spec fn first_of_group(ts: Seq<Transition>, i: int) -> bool {
    forall|j: int| 0 <= j < i ==> (#[trigger] ts[j]).target.group_id != ts[i].target.group_id
}

/// The name shown for group `gid`: the name of the first listed group with
/// that id, or `#` and the id when no listed group has it.
pub open spec fn group_label(groups: Seq<Group>, gid: i32) -> Seq<char>
    decreases groups.len(),
{
    if groups.len() == 0 {
        seq!['#'] + decimal(gid as int)
    } else if groups[0].id == gid {
        groups[0].name@
    } else {
        group_label(groups.drop_first(), gid)
    }
}

/// The notice owed for position `i`: ungrouped changes and lone changes of a
/// group are reported singly; a group with several changes is reported once,
/// at the position of its first change.
pub open spec fn notice_at(ts: Seq<Transition>, groups: Seq<Group>, i: int) -> Option<NoticeModel> {
    match ts[i].target.group_id {
        None => Some(NoticeModel::Single { change: ts[i] }),
        Some(g) => if group_members(ts, g).len() <= 1 {
            Some(NoticeModel::Single { change: ts[i] })
        } else if first_of_group(ts, i) {
            Some(
                NoticeModel::Grouped {
                    group_id: g,
                    group_name: group_label(groups, g),
                    changes: group_members(ts, g),
                },
            )
        } else {
            None
        },
    }
}

/// The notices owed for the first `n` transitions.
pub open spec fn notices_upto(ts: Seq<Transition>, groups: Seq<Group>, n: int) -> Seq<NoticeModel>
    decreases n,
{
    if n <= 0 {
        Seq::empty()
    } else {
        notices_upto(ts, groups, n - 1) + option_seq(notice_at(ts, groups, n - 1))
    }
}

/// The notices of one tick, in the order of the transitions that cause them.
pub open spec fn batch_notices(ts: Seq<Transition>, groups: Seq<Group>) -> Seq<NoticeModel> {
    notices_upto(ts, groups, ts.len() as int)
}

/// Collects the transitions of group `gid`, in order.
pub fn collect_group(ts: &Vec<Transition>, gid: i32) -> (r: Vec<Transition>)
    ensures
        r@ == group_members(ts@, gid),
{
    let mut r: Vec<Transition> = Vec::new();
    let mut i: usize = 0;
    while i < ts.len()
        invariant
            i <= ts@.len(),
            r@ == group_members(ts@.take(i as int), gid),
        decreases ts@.len() - i,
    {
        assert(ts@.take(i as int + 1).drop_last() =~= ts@.take(i as int));
        if ts[i].target.group_id == Some(gid) {
            r.push(ts[i].clone());
        }
        assert(r@ =~= group_members(ts@.take(i as int + 1), gid));
        i = i + 1;
    }
    assert(ts@.take(i as int) =~= ts@);
    r
}

fn is_first_of_group(ts: &Vec<Transition>, i: usize) -> (r: bool)
    requires
        i < ts@.len(),
    ensures
        r == first_of_group(ts@, i as int),
{
    let g = ts[i].target.group_id;
    let mut j: usize = 0;
    while j < i
        invariant
            j <= i < ts@.len(),
            g == ts@[i as int].target.group_id,
            forall|k: int| 0 <= k < j ==> (#[trigger] ts@[k]).target.group_id != g,
        decreases i - j,
    {
        if ts[j].target.group_id == g {
            return false;
        }
        j = j + 1;
    }
    true
}

/// Looks up the name shown for group `gid`.
pub fn label_of_group(groups: &Vec<Group>, gid: i32) -> (r: String)
    ensures
        r@ == group_label(groups@, gid),
{
    let mut i: usize = 0;
    assert(groups@.subrange(0, groups@.len() as int) =~= groups@);
    while i < groups.len()
        invariant
            i <= groups@.len(),
            group_label(groups@, gid) == group_label(groups@.subrange(i as int, groups@.len() as int), gid),
        decreases groups@.len() - i,
    {
        let ghost rest = groups@.subrange(i as int, groups@.len() as int);
        assert(rest.drop_first() =~= groups@.subrange(i as int + 1, groups@.len() as int));
        assert(rest[0] == groups@[i as int]);
        if groups[i].id == gid {
            return groups[i].name.clone();
        }
        i = i + 1;
    }
    let mut r = String::new();
    proof {
        reveal_strlit("#");
    }
    r.append("#");
    push_decimal(&mut r, gid as i64);
    assert(r@ =~= group_label(groups@.subrange(i as int, groups@.len() as int), gid));
    r
}

/// Applies the batching policy to one tick's transitions: changes are
/// partitioned by group; a group with more than one change yields a single
/// aggregated notice; every other change yields a notice of its own.
pub fn batch(ts: &Vec<Transition>, groups: &Vec<Group>) -> (out: Vec<Notice>)
    ensures
        notices_view(out@) == batch_notices(ts@, groups@),
{
    let mut out: Vec<Notice> = Vec::new();
    let mut i: usize = 0;
    while i < ts.len()
        invariant
            i <= ts@.len(),
            notices_view(out@) == notices_upto(ts@, groups@, i as int),
        decreases ts@.len() - i,
    {
        let ghost before = out@;
        match ts[i].target.group_id {
            None => {
                out.push(Notice::Single { change: ts[i].clone() });
            },
            Some(g) => {
                let members = collect_group(ts, g);
                if members.len() <= 1 {
                    out.push(Notice::Single { change: ts[i].clone() });
                } else if is_first_of_group(ts, i) {
                    let name = label_of_group(groups, g);
                    out.push(Notice::Grouped { group_id: g, group_name: name, changes: members });
                }
            },
        }
        assert(notices_view(out@) =~= notices_view(before) + option_seq(
            notice_at(ts@, groups@, i as int),
        ));
        i = i + 1;
    }
    out
}

proof fn lemma_notice_origin(ts: Seq<Transition>, groups: Seq<Group>, n: int, m: int)
    requires
        0 <= n <= ts.len(),
        0 <= m < notices_upto(ts, groups, n).len(),
    ensures
        exists|i: int|
            0 <= i < n && notice_at(ts, groups, i) == Some(
                #[trigger] notices_upto(ts, groups, n)[m],
            ),
    decreases n,
{
    let prev = notices_upto(ts, groups, n - 1);
    if m < prev.len() {
        lemma_notice_origin(ts, groups, n - 1, m);
        let i = choose|i: int|
            0 <= i < n - 1 && notice_at(ts, groups, i) == Some(
                #[trigger] notices_upto(ts, groups, n - 1)[m],
            );
        assert(notices_upto(ts, groups, n)[m] == prev[m]);
    } else {
        assert(notice_at(ts, groups, n - 1) == Some(notices_upto(ts, groups, n)[m]));
    }
}

proof fn lemma_notice_present(ts: Seq<Transition>, groups: Seq<Group>, n: int, i: int)
    requires
        0 <= i < n <= ts.len(),
        notice_at(ts, groups, i) is Some,
    ensures
        exists|m: int|
            0 <= m < notices_upto(ts, groups, n).len() && Some(
                #[trigger] notices_upto(ts, groups, n)[m],
            ) == notice_at(ts, groups, i),
    decreases n,
{
    let prev = notices_upto(ts, groups, n - 1);
    if i < n - 1 {
        lemma_notice_present(ts, groups, n - 1, i);
        let m = choose|m: int|
            0 <= m < prev.len() && Some(#[trigger] prev[m]) == notice_at(ts, groups, i);
        assert(notices_upto(ts, groups, n)[m] == prev[m]);
    } else {
        assert(notices_upto(ts, groups, n)[prev.len() as int] == notice_at(ts, groups, i)->Some_0);
    }
}

/// When at most one position owes a notice with property `p`, at most one
/// notice has it.
proof fn lemma_notice_unique(
    ts: Seq<Transition>,
    groups: Seq<Group>,
    n: int,
    p: spec_fn(NoticeModel) -> bool,
)
    requires
        0 <= n <= ts.len(),
        forall|i1: int, i2: int|
            0 <= i1 < n && 0 <= i2 < n && #[trigger] notice_at(ts, groups, i1) is Some
                && #[trigger] notice_at(ts, groups, i2) is Some && p(
                notice_at(ts, groups, i1)->Some_0,
            ) && p(notice_at(ts, groups, i2)->Some_0) ==> i1 == i2,
    ensures
        forall|m1: int, m2: int|
            0 <= m1 < notices_upto(ts, groups, n).len() && 0 <= m2 < notices_upto(
                ts,
                groups,
                n,
            ).len() && p(#[trigger] notices_upto(ts, groups, n)[m1]) && p(
                #[trigger] notices_upto(ts, groups, n)[m2],
            ) ==> m1 == m2,
    decreases n,
{
    if n > 0 {
        lemma_notice_unique(ts, groups, n - 1, p);
        let prev = notices_upto(ts, groups, n - 1);
        let all = notices_upto(ts, groups, n);
        assert forall|m1: int, m2: int|
            0 <= m1 < all.len() && 0 <= m2 < all.len() && p(#[trigger] all[m1]) && p(
                #[trigger] all[m2],
            ) implies m1 == m2 by {
            if m1 < prev.len() && m2 < prev.len() {
                assert(all[m1] == prev[m1] && all[m2] == prev[m2]);
            } else if m1 < prev.len() || m2 < prev.len() {
                let m = if m1 < prev.len() {
                    m1
                } else {
                    m2
                };
                assert(all[m] == prev[m]);
                lemma_notice_origin(ts, groups, n - 1, m);
                let i = choose|i: int|
                    0 <= i < n - 1 && notice_at(ts, groups, i) == Some(
                        #[trigger] notices_upto(ts, groups, n - 1)[m],
                    );
                let last = all[prev.len() as int];
                assert(notice_at(ts, groups, n - 1) == Some(last));
                assert(notice_at(ts, groups, i) is Some && notice_at(ts, groups, n - 1) is Some);
            }
        }
    }
}

proof fn lemma_member_exists(ts: Seq<Transition>, gid: i32, j: int)
    requires
        0 <= j < ts.len(),
        in_group(ts[j], gid),
    ensures
        group_members(ts, gid).len() > 0,
    decreases ts.len(),
{
    if j < ts.len() - 1 {
        assert(ts.drop_last()[j] == ts[j]);
        lemma_member_exists(ts.drop_last(), gid, j);
    }
}

/// Every transition of group `gid` is one of its members.
proof fn lemma_member_included(ts: Seq<Transition>, gid: i32, j: int)
    requires
        0 <= j < ts.len(),
        in_group(ts[j], gid),
    ensures
        group_members(ts, gid).contains(ts[j]),
    decreases ts.len(),
{
    let prev = group_members(ts.drop_last(), gid);
    if j < ts.len() - 1 {
        assert(ts.drop_last()[j] == ts[j]);
        lemma_member_included(ts.drop_last(), gid, j);
        let k = choose|k: int| 0 <= k < prev.len() && prev[k] == ts[j];
        assert(group_members(ts, gid)[k] == ts[j]);
    } else {
        assert(group_members(ts, gid)[prev.len() as int] == ts[j]);
    }
}

/// Every member of group `gid` is a transition of that group.
proof fn lemma_member_in_group(ts: Seq<Transition>, gid: i32, k: int)
    requires
        0 <= k < group_members(ts, gid).len(),
    ensures
        in_group(group_members(ts, gid)[k], gid),
        ts.contains(group_members(ts, gid)[k]),
    decreases ts.len(),
{
    let prev = group_members(ts.drop_last(), gid);
    if k < prev.len() {
        lemma_member_in_group(ts.drop_last(), gid, k);
        assert(group_members(ts, gid)[k] == prev[k]);
        let j = choose|j: int| 0 <= j < ts.drop_last().len() && ts.drop_last()[j] == prev[k];
        assert(ts[j] == prev[k]);
    } else {
        assert(ts[ts.len() - 1] == group_members(ts, gid)[k]);
    }
}

proof fn lemma_first_member(ts: Seq<Transition>, gid: i32)
    requires
        group_members(ts, gid).len() > 0,
    ensures
        exists|i: int| 0 <= i < ts.len() && in_group(ts[i], gid) && #[trigger] first_of_group(ts, i),
    decreases ts.len(),
{
    let rest = ts.drop_last();
    if group_members(rest, gid).len() > 0 {
        lemma_first_member(rest, gid);
        let i = choose|i: int| 0 <= i < rest.len() && in_group(rest[i], gid) && #[trigger] first_of_group(rest, i);
        assert(ts[i] == rest[i]);
        assert forall|j: int| 0 <= j < i implies (#[trigger] ts[j]).target.group_id != ts[i].target.group_id by {
            assert(ts[j] == rest[j]);
        }
        assert(first_of_group(ts, i));
    } else {
        let i = ts.len() - 1;
        assert forall|j: int| 0 <= j < i implies (#[trigger] ts[j]).target.group_id != ts[i].target.group_id by {
            assert(ts[j] == rest[j]);
            if in_group(rest[j], gid) {
                lemma_member_exists(rest, gid, j);
            }
        }
        assert(first_of_group(ts, i));
    }
}

pub open spec fn is_grouped_for(n: NoticeModel, gid: i32) -> bool {
    n matches NoticeModel::Grouped { group_id, .. } && group_id == gid
}

pub open spec fn is_single_for(n: NoticeModel, t: Transition) -> bool {
    n matches NoticeModel::Single { change } && change.target.id == t.target.id
}

/// A group with more than one transition in a tick yields exactly one
/// aggregated notice, which lists exactly the transitions of the group, and
/// none of its members is reported singly.
pub proof fn several_changes_yield_one_aggregate(ts: Seq<Transition>, groups: Seq<Group>, gid: i32)
    requires
        group_members(ts, gid).len() > 1,
    ensures
        exists|k: int|
            0 <= k < batch_notices(ts, groups).len() && #[trigger] batch_notices(ts, groups)[k]
                == (NoticeModel::Grouped {
                group_id: gid,
                group_name: group_label(groups, gid),
                changes: group_members(ts, gid),
            }) && forall|m: int|
                0 <= m < batch_notices(ts, groups).len() && is_grouped_for(
                    #[trigger] batch_notices(ts, groups)[m],
                    gid,
                ) ==> m == k,
        forall|j: int| 0 <= j < ts.len() && in_group(ts[j], gid) ==> group_members(ts, gid).contains(#[trigger] ts[j]),
        forall|k: int|
            0 <= k < group_members(ts, gid).len() ==> in_group(#[trigger] group_members(ts, gid)[k], gid)
                && ts.contains(group_members(ts, gid)[k]),
        forall|m: int|
            0 <= m < batch_notices(ts, groups).len() ==> !(#[trigger] batch_notices(ts, groups)[m] matches NoticeModel::Single { change } && in_group(change, gid)),
{
    let n = ts.len() as int;
    let out = batch_notices(ts, groups);
    lemma_first_member(ts, gid);
    let i = choose|i: int| 0 <= i < ts.len() && in_group(ts[i], gid) && #[trigger] first_of_group(ts, i);
    lemma_notice_present(ts, groups, n, i);
    let k = choose|k: int| 0 <= k < out.len() && Some(#[trigger] out[k]) == notice_at(ts, groups, i);
    let p = |x: NoticeModel| is_grouped_for(x, gid);
    assert forall|i1: int, i2: int|
        0 <= i1 < n && 0 <= i2 < n && #[trigger] notice_at(ts, groups, i1) is Some
            && #[trigger] notice_at(ts, groups, i2) is Some && p(notice_at(ts, groups, i1)->Some_0)
            && p(notice_at(ts, groups, i2)->Some_0) implies i1 == i2 by {
        if i1 < i2 {
            assert(ts[i1].target.group_id == ts[i2].target.group_id);
        } else if i2 < i1 {
            assert(ts[i1].target.group_id == ts[i2].target.group_id);
        }
    }
    lemma_notice_unique(ts, groups, n, p);
    assert forall|m: int| 0 <= m < out.len() && is_grouped_for(#[trigger] out[m], gid) implies m == k by {
        assert(p(out[m]) && p(out[k]));
    }
    assert forall|j: int| 0 <= j < ts.len() && in_group(ts[j], gid) implies group_members(ts, gid).contains(#[trigger] ts[j]) by {
        lemma_member_included(ts, gid, j);
    }
    assert forall|k: int| 0 <= k < group_members(ts, gid).len() implies in_group(#[trigger] group_members(ts, gid)[k], gid)
        && ts.contains(group_members(ts, gid)[k]) by {
        lemma_member_in_group(ts, gid, k);
    }
    assert forall|m: int| 0 <= m < out.len() implies !(#[trigger] out[m] matches NoticeModel::Single { change } && in_group(change, gid)) by {
        lemma_notice_origin(ts, groups, n, m);
    }
}

/// A group with exactly one transition in a tick yields exactly one notice
/// for that target, an individual one, and no aggregated notice.
pub proof fn lone_change_yields_single_notice(ts: Seq<Transition>, groups: Seq<Group>, gid: i32, j: int)
    requires
        0 <= j < ts.len(),
        in_group(ts[j], gid),
        group_members(ts, gid).len() == 1,
        distinct_targets(ts),
    ensures
        exists|k: int|
            0 <= k < batch_notices(ts, groups).len() && #[trigger] batch_notices(ts, groups)[k]
                == (NoticeModel::Single { change: ts[j] }) && forall|m: int|
                0 <= m < batch_notices(ts, groups).len() && is_single_for(
                    #[trigger] batch_notices(ts, groups)[m],
                    ts[j],
                ) ==> m == k,
        forall|m: int|
            0 <= m < batch_notices(ts, groups).len() ==> !is_grouped_for(
                #[trigger] batch_notices(ts, groups)[m],
                gid,
            ),
{
    let n = ts.len() as int;
    let out = batch_notices(ts, groups);
    lemma_notice_present(ts, groups, n, j);
    let k = choose|k: int| 0 <= k < out.len() && Some(#[trigger] out[k]) == notice_at(ts, groups, j);
    let p = |x: NoticeModel| is_single_for(x, ts[j]);
    assert forall|i1: int, i2: int|
        0 <= i1 < n && 0 <= i2 < n && #[trigger] notice_at(ts, groups, i1) is Some
            && #[trigger] notice_at(ts, groups, i2) is Some && p(notice_at(ts, groups, i1)->Some_0)
            && p(notice_at(ts, groups, i2)->Some_0) implies i1 == i2 by {
        assert(ts[i1].target.id == ts[j].target.id && ts[i2].target.id == ts[j].target.id);
    }
    lemma_notice_unique(ts, groups, n, p);
    assert forall|m: int| 0 <= m < out.len() && is_single_for(#[trigger] out[m], ts[j]) implies m == k by {
        assert(p(out[m]) && p(out[k]));
    }
    assert forall|m: int| 0 <= m < out.len() implies !is_grouped_for(#[trigger] out[m], gid) by {
        lemma_notice_origin(ts, groups, n, m);
    }
}

/// Whether a notice reports the change of `t`'s target.
pub open spec fn reports(n: NoticeModel, t: Transition) -> bool {
    match n {
        NoticeModel::Single { change } => change.target.id == t.target.id,
        NoticeModel::Grouped { changes, .. } => exists|k: int|
            0 <= k < changes.len() && (#[trigger] changes[k]).target.id == t.target.id,
    }
}

/// The notice that reports the transition at `j`: an individual one for an
/// ungrouped change or the lone change of its group, else its group's
/// aggregated notice.
pub open spec fn notice_for(ts: Seq<Transition>, groups: Seq<Group>, j: int) -> NoticeModel {
    match ts[j].target.group_id {
        Some(g) => if group_members(ts, g).len() > 1 {
            NoticeModel::Grouped {
                group_id: g,
                group_name: group_label(groups, g),
                changes: group_members(ts, g),
            }
        } else {
            NoticeModel::Single { change: ts[j] }
        },
        None => NoticeModel::Single { change: ts[j] },
    }
}

/// A position whose notice reports the change at `j` is `j` itself, or,
/// when `j`'s group has several changes, the first change of that group.
proof fn lemma_reporting_position(ts: Seq<Transition>, groups: Seq<Group>, j: int, i: int)
    requires
        distinct_targets(ts),
        0 <= j < ts.len(),
        0 <= i < ts.len(),
        notice_at(ts, groups, i) is Some,
        reports(notice_at(ts, groups, i)->Some_0, ts[j]),
    ensures
        notice_for(ts, groups, j) is Single ==> i == j,
        notice_for(ts, groups, j) is Grouped ==> ts[i].target.group_id == ts[j].target.group_id
            && first_of_group(ts, i),
{
    match notice_at(ts, groups, i)->Some_0 {
        NoticeModel::Single { change } => {
            assert(change == ts[i]);
            if i != j {
                assert(ts[i].target.id != ts[j].target.id);
            }
        },
        NoticeModel::Grouped { group_id, changes, .. } => {
            let k = choose|k: int| 0 <= k < changes.len() && (#[trigger] changes[k]).target.id == ts[j].target.id;
            lemma_member_in_group(ts, group_id, k);
            let a = choose|a: int| 0 <= a < ts.len() && ts[a] == group_members(ts, group_id)[k];
            if a != j {
                assert(ts[a].target.id != ts[j].target.id);
            }
            assert(in_group(ts[j], group_id));
        },
    }
}

/// Every change of a tick is reported by exactly one notice: an ungrouped
/// change, and the only change of its group, by an individual notice of its
/// own; a change of a group with several changes by that group's
/// aggregated notice.
pub proof fn each_change_reported_once(ts: Seq<Transition>, groups: Seq<Group>, j: int)
    requires
        distinct_targets(ts),
        0 <= j < ts.len(),
    ensures
        exists|k: int|
            0 <= k < batch_notices(ts, groups).len() && #[trigger] batch_notices(ts, groups)[k]
                == notice_for(ts, groups, j) && forall|m: int|
                0 <= m < batch_notices(ts, groups).len() && reports(
                    #[trigger] batch_notices(ts, groups)[m],
                    ts[j],
                ) ==> m == k,
        reports(notice_for(ts, groups, j), ts[j]),
{
    let n = ts.len() as int;
    let out = batch_notices(ts, groups);
    let expected = notice_for(ts, groups, j);
    let i0 = if expected is Grouped {
        let g = ts[j].target.group_id->Some_0;
        lemma_member_exists(ts, g, j);
        lemma_first_member(ts, g);
        choose|i: int| 0 <= i < ts.len() && in_group(ts[i], g) && #[trigger] first_of_group(ts, i)
    } else {
        j
    };
    assert(notice_at(ts, groups, i0) == Some(expected));
    lemma_notice_present(ts, groups, n, i0);
    let k = choose|k: int| 0 <= k < out.len() && Some(#[trigger] out[k]) == notice_at(ts, groups, i0);
    match expected {
        NoticeModel::Grouped { group_id, changes, .. } => {
            lemma_member_included(ts, group_id, j);
            let c = choose|c: int| 0 <= c < changes.len() && changes[c] == ts[j];
            assert(changes[c].target.id == ts[j].target.id);
        },
        NoticeModel::Single { .. } => {},
    }
    let p = |x: NoticeModel| reports(x, ts[j]);
    assert forall|i1: int, i2: int|
        0 <= i1 < n && 0 <= i2 < n && #[trigger] notice_at(ts, groups, i1) is Some
            && #[trigger] notice_at(ts, groups, i2) is Some && p(notice_at(ts, groups, i1)->Some_0)
            && p(notice_at(ts, groups, i2)->Some_0) implies i1 == i2 by {
        lemma_reporting_position(ts, groups, j, i1);
        lemma_reporting_position(ts, groups, j, i2);
        if i1 < i2 {
            assert(ts[i1].target.group_id == ts[i2].target.group_id);
        } else if i2 < i1 {
            assert(ts[i1].target.group_id == ts[i2].target.group_id);
        }
    }
    lemma_notice_unique(ts, groups, n, p);
    assert forall|m: int| 0 <= m < out.len() && reports(#[trigger] out[m], ts[j]) implies m == k by {
        assert(p(out[m]) && p(out[k]));
    }
}

} // verus!

//! Grouping of records by a pair of labels, in the order in which the labels first occur.
use vstd::prelude::*;
use crate::text::same;

verus! {

/// A pair of labels.
pub type Label = (Seq<char>, Seq<char>);

/// A group: its label and the positions of its members.
#[verifier::ext_equal]
pub struct GroupView {
    pub label: Label,
    pub members: Seq<int>,
}

/// A group of records.
pub struct Group {
    pub label: (String, String),
    pub members: Vec<usize>,
}

impl View for Group {
    type V = GroupView;

    open spec fn view(&self) -> GroupView {
        GroupView {
            label: (self.label.0@, self.label.1@),
            members: self.members@.map_values(|m: usize| m as int),
        }
    }
}

/// The models of a list of groups.
pub open spec fn group_views(v: Seq<Group>) -> Seq<GroupView> {
    v.map_values(|g: Group| g@)
}

/// The models of a list of labels.
pub open spec fn label_views(v: Seq<(String, String)>) -> Seq<Label> {
    v.map_values(|p: (String, String)| (p.0@, p.1@))
}

/// The groups with one more record: it joins the first group with its label, or begins a new one.
pub open spec fn add_member(gs: Seq<GroupView>, label: Label, n: int) -> Seq<GroupView>
    decreases gs.len(),
{
    if gs.len() == 0 {
        seq![GroupView { label, members: seq![n] }]
    } else if gs[0].label == label {
        seq![GroupView { label, members: gs[0].members.push(n) }] + gs.skip(1)
    } else {
        seq![gs[0]] + add_member(gs.skip(1), label, n)
    }
}

/// The groups of records with these labels.
pub open spec fn grouped(labels: Seq<Label>) -> Seq<GroupView>
    decreases labels.len(),
{
    if labels.len() == 0 {
        Seq::empty()
    } else {
        add_member(grouped(labels.drop_last()), labels.last(), labels.len() - 1)
    }
}

/// The group that a record joins, counted from `k` on.
proof fn lemma_add_member_at(gs: Seq<GroupView>, label: Label, n: int, k: int)
    requires
        0 <= k <= gs.len(),
        forall|i: int| 0 <= i < k ==> (#[trigger] gs[i]).label != label,
    ensures
        k < gs.len() && gs[k].label == label ==> add_member(gs, label, n) == gs.update(
            k,
            GroupView { label, members: gs[k].members.push(n) },
        ),
        k == gs.len() ==> add_member(gs, label, n) == gs.push(
            GroupView { label, members: seq![n] },
        ),
    decreases gs.len(),
{
    if gs.len() == 0 {
        assert(add_member(gs, label, n) =~= gs.push(GroupView { label, members: seq![n] }));
    } else if k == 0 {
        if gs[0].label == label {
            assert(add_member(gs, label, n) =~= gs.update(
                0,
                GroupView { label, members: gs[0].members.push(n) },
            ));
        }
    } else {
        let t = gs.skip(1);
        assert forall|i: int| 0 <= i < k - 1 implies (#[trigger] t[i]).label != label by {
            assert(t[i] == gs[i + 1]);
        }
        lemma_add_member_at(t, label, n, k - 1);
        if k < gs.len() && gs[k].label == label {
            assert(t[k - 1] == gs[k]);
            assert(add_member(gs, label, n) =~= gs.update(
                k,
                GroupView { label, members: gs[k].members.push(n) },
            ));
        }
        if k == gs.len() {
            assert(add_member(gs, label, n) =~= gs.push(GroupView { label, members: seq![n] }));
        }
    }
}

/// The groups of records with these labels, in the order in which the labels first occur.
pub fn group_by(labels: &Vec<(String, String)>) -> (r: Vec<Group>)
    ensures
        group_views(r@) == grouped(label_views(labels@)),
{
    let mut r: Vec<Group> = Vec::new();
    let ghost all = label_views(labels@);
    let mut n: usize = 0;
    assert(group_views(r@) =~= grouped(all.take(0)));
    while n < labels.len()
        invariant
            all == label_views(labels@),
            n <= labels@.len(),
            group_views(r@) == grouped(all.take(n as int)),
        decreases labels@.len() - n,
    {
        let ghost gs = group_views(r@);
        let ghost label = all[n as int];
        assert(all.take(n + 1).drop_last() =~= all.take(n as int));
        let mut k: usize = 0;
        while k < r.len() && !(same(r[k].label.0.as_str(), labels[n as usize].0.as_str()) && same(
            r[k].label.1.as_str(),
            labels[n as usize].1.as_str(),
        ))
            invariant
                n < labels@.len(),
                label == (labels@[n as int].0@, labels@[n as int].1@),
                gs == group_views(r@),
                k <= r@.len(),
                forall|i: int| 0 <= i < k ==> (#[trigger] gs[i]).label != label,
            decreases r@.len() - k,
        {
            assert(gs[k as int] == r@[k as int]@);
            k += 1;
        }
        proof {
            lemma_add_member_at(gs, label, n as int, k as int);
        }
        if k < r.len() {
            let mut g = r.remove(k);
            let ghost old_members = g.members@;
            g.members.push(n);
            assert(g@.members =~= gs[k as int].members.push(n as int));
            r.insert(k, g);
            assert(group_views(r@) =~= gs.update(
                k as int,
                GroupView { label, members: gs[k as int].members.push(n as int) },
            ));
        } else {
            let mut members: Vec<usize> = Vec::new();
            members.push(n);
            let g = Group { label: (labels[n].0.clone(), labels[n].1.clone()), members };
            assert(g@.members =~= seq![n as int]);
            r.push(g);
            assert(group_views(r@) =~= gs.push(GroupView { label, members: seq![n as int] }));
        }
        n += 1;
    }
    assert(all.take(all.len() as int) =~= all);
    r
}

// ---------------------------------------------------------------------------
// Laws
// ---------------------------------------------------------------------------

/// `n` is a member of the group.
pub open spec fn in_group(g: GroupView, n: int) -> bool {
    g.members.contains(n)
}

/// `n` is a member of one of the groups.
pub open spec fn in_some_group(gs: Seq<GroupView>, n: int) -> bool {
    exists|k: int| 0 <= k < gs.len() && #[trigger] in_group(gs[k], n)
}

/// Each group has members; its members bear its label and stand in ascending order; no two groups
/// bear one label; and every record is in the group with its label.
pub open spec fn is_partition(labels: Seq<Label>, gs: Seq<GroupView>) -> bool {
    &&& forall|k: int| 0 <= k < gs.len() ==> (#[trigger] gs[k]).members.len() > 0
    &&& forall|k: int, m: int|
        0 <= k < gs.len() && 0 <= m < gs[k].members.len() ==> 0 <= #[trigger] gs[k].members[m]
            < labels.len() && labels[gs[k].members[m]] == gs[k].label
    &&& forall|k: int, a: int, b: int|
        0 <= k < gs.len() && 0 <= a < b < gs[k].members.len() ==> #[trigger] gs[k].members[a]
            < #[trigger] gs[k].members[b]
    &&& forall|j: int, k: int|
        0 <= j < k < gs.len() ==> (#[trigger] gs[j]).label != (#[trigger] gs[k]).label
    &&& forall|n: int| 0 <= n < labels.len() ==> #[trigger] in_some_group(gs, n)
}

/// The place of the first group with a label from `k` on, or the number of groups.
spec fn label_place(gs: Seq<GroupView>, label: Label, k: int) -> int
    decreases gs.len() - k,
{
    if k < 0 || k >= gs.len() || gs[k].label == label {
        k
    } else {
        label_place(gs, label, k + 1)
    }
}

proof fn lemma_label_place(gs: Seq<GroupView>, label: Label, k: int)
    requires
        0 <= k <= gs.len(),
        forall|i: int| 0 <= i < k ==> (#[trigger] gs[i]).label != label,
    ensures
        k <= label_place(gs, label, k) <= gs.len(),
        forall|i: int| 0 <= i < label_place(gs, label, k) ==> (#[trigger] gs[i]).label != label,
        label_place(gs, label, k) < gs.len() ==> gs[label_place(gs, label, k)].label == label,
    decreases gs.len() - k,
{
    if k < gs.len() && gs[k].label != label {
        lemma_label_place(gs, label, k + 1);
    }
}

/// Grouping puts every record into exactly one group, the one with its label.
pub proof fn law_grouped_is_partition(labels: Seq<Label>)
    ensures
        is_partition(labels, grouped(labels)),
    decreases labels.len(),
{
    if labels.len() > 0 {
        let rest = labels.drop_last();
        let gs = grouped(rest);
        let label = labels.last();
        let n = labels.len() - 1;
        law_grouped_is_partition(rest);
        lemma_label_place(gs, label, 0);
        let k = label_place(gs, label, 0);
        lemma_add_member_at(gs, label, n, k);
        let out = grouped(labels);
        if k < gs.len() {
            assert(out == gs.update(k, GroupView { label, members: gs[k].members.push(n) }));
        } else {
            assert(out == gs.push(GroupView { label, members: seq![n] }));
        }
        assert forall|j: int, m: int| 0 <= j < out.len() && 0 <= m < out[j].members.len() implies 0
            <= #[trigger] out[j].members[m] < labels.len() && labels[out[j].members[m]]
            == out[j].label by {
            if j < gs.len() && (j != k || m < gs[j].members.len()) {
                assert(out[j].members[m] == gs[j].members[m]);
            }
        }
        assert forall|j: int, a: int, b: int|
            0 <= j < out.len() && 0 <= a < b < out[j].members.len() implies #[trigger] out[j].members[a]
            < #[trigger] out[j].members[b] by {
            if j < gs.len() {
                assert(out[j].members[a] == gs[j].members[a]);
                if j != k || b < gs[j].members.len() {
                    assert(out[j].members[b] == gs[j].members[b]);
                }
            }
        }
        assert forall|x: int| 0 <= x < labels.len() implies #[trigger] in_some_group(out, x) by {
            if x < n {
                assert(in_some_group(gs, x));
                let j = choose|j: int| 0 <= j < gs.len() && #[trigger] in_group(gs[j], x);
                let m = choose|m: int| 0 <= m < gs[j].members.len() && gs[j].members[m] == x;
                assert(out[j].members[m] == x);
                assert(in_group(out[j], x));
            } else {
                let m = out[k].members.len() - 1;
                assert(out[k].members[m] == x);
                assert(in_group(out[k], x));
            }
        }
    }
}

/// Sum of the values of the members.
pub open spec fn sum_members(members: Seq<int>, value: spec_fn(int) -> int) -> int
    decreases members.len(),
{
    if members.len() == 0 {
        0
    } else {
        sum_members(members.drop_last(), value) + value(members.last())
    }
}

/// Sum over the groups whose label is wanted.
pub open spec fn sum_groups(
    gs: Seq<GroupView>,
    value: spec_fn(int) -> int,
    wanted: spec_fn(Label) -> bool,
) -> int
    decreases gs.len(),
{
    if gs.len() == 0 {
        0
    } else {
        (if wanted(gs[0].label) {
            sum_members(gs[0].members, value)
        } else {
            0
        }) + sum_groups(gs.skip(1), value, wanted)
    }
}

/// Sum over the records whose label is wanted.
pub open spec fn sum_records(
    labels: Seq<Label>,
    value: spec_fn(int) -> int,
    wanted: spec_fn(Label) -> bool,
) -> int
    decreases labels.len(),
{
    if labels.len() == 0 {
        0
    } else {
        sum_records(labels.drop_last(), value, wanted) + (if wanted(labels.last()) {
            value(labels.len() - 1)
        } else {
            0
        })
    }
}

proof fn lemma_add_member_sum(
    gs: Seq<GroupView>,
    label: Label,
    n: int,
    value: spec_fn(int) -> int,
    wanted: spec_fn(Label) -> bool,
)
    ensures
        sum_groups(add_member(gs, label, n), value, wanted) == sum_groups(gs, value, wanted) + (
        if wanted(label) {
            value(n)
        } else {
            0
        }),
    decreases gs.len(),
{
    let out = add_member(gs, label, n);
    if gs.len() == 0 {
        assert(out.skip(1) =~= Seq::<GroupView>::empty());
        assert(out[0].members.drop_last() =~= Seq::<int>::empty());
        assert(sum_members(out[0].members.drop_last(), value) == 0);
        assert(sum_members(out[0].members, value) == value(n));
        assert(sum_groups(out.skip(1), value, wanted) == 0);
    } else if gs[0].label == label {
        assert(out.skip(1) =~= gs.skip(1));
        assert(out[0].members.drop_last() =~= gs[0].members);
    } else {
        lemma_add_member_sum(gs.skip(1), label, n, value, wanted);
        assert(out.skip(1) =~= add_member(gs.skip(1), label, n));
    }
}

/// Whatever the records are worth, the groups with wanted labels are worth together what the
/// records with wanted labels are: grouping neither loses nor doubles anything.
pub proof fn law_group_sums(
    labels: Seq<Label>,
    value: spec_fn(int) -> int,
    wanted: spec_fn(Label) -> bool,
)
    ensures
        sum_groups(grouped(labels), value, wanted) == sum_records(labels, value, wanted),
    decreases labels.len(),
{
    if labels.len() > 0 {
        law_group_sums(labels.drop_last(), value, wanted);
        lemma_add_member_sum(
            grouped(labels.drop_last()),
            labels.last(),
            labels.len() - 1,
            value,
            wanted,
        );
    }
}

/// Groups stand in the order in which their first records do.
pub proof fn law_groups_by_first_record(labels: Seq<Label>, j: int, k: int)
    requires
        0 <= j < k < grouped(labels).len(),
    ensures
        grouped(labels)[j].members.len() > 0,
        grouped(labels)[k].members.len() > 0,
        grouped(labels)[j].members[0] < grouped(labels)[k].members[0],
    decreases labels.len(),
{
    law_grouped_is_partition(labels);
    let rest = labels.drop_last();
    let gs = grouped(rest);
    let label = labels.last();
    let n = labels.len() - 1;
    let out = grouped(labels);
    law_grouped_is_partition(rest);
    lemma_label_place(gs, label, 0);
    let at = label_place(gs, label, 0);
    lemma_add_member_at(gs, label, n, at);
    assert(out[j].members.len() > 0 && out[k].members.len() > 0);
    if k < gs.len() {
        law_groups_by_first_record(rest, j, k);
        assert(gs[j].members.len() > 0 && gs[k].members.len() > 0);
        assert(out[j].members[0] == gs[j].members[0]);
        assert(out[k].members[0] == gs[k].members[0]);
    } else {
        assert(gs[j].members.len() > 0);
        assert(out[j].members[0] == gs[j].members[0]);
        assert(gs[j].members[0] < rest.len());
    }
}

} // verus!

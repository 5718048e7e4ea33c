//! Peptides in groups: which sample columns a group lacks, and groups that
//! lack the same columns put together.

use crate::parser::{Peptide, PeptideView};
use crate::text::same_text;
use vstd::prelude::*;

verus! {

/// Peptides that are measured together, and a flag for each sample column
/// that says whether any of them lacks a reading there.
#[derive(Debug, Clone)]
pub struct PeptideGroup {
    pub peptides: Vec<Peptide>,
    pub na_columns: Vec<bool>,
}

/// Peptides that lack readings in the same sample columns.
#[derive(Debug, Clone)]
pub struct NAGroup {
    pub peptides: Vec<Peptide>,
    pub na_columns: Vec<bool>,
}

/// A group as plain values.
pub struct GroupView {
    pub peptides: Seq<PeptideView>,
    pub na_columns: Seq<bool>,
}

impl DeepView for PeptideGroup {
    type V = GroupView;

    open spec fn deep_view(&self) -> GroupView {
        GroupView { peptides: self.peptides.deep_view(), na_columns: self.na_columns@ }
    }
}

impl DeepView for NAGroup {
    type V = GroupView;

    open spec fn deep_view(&self) -> GroupView {
        GroupView { peptides: self.peptides.deep_view(), na_columns: self.na_columns@ }
    }
}

/// Some peptide among the first `upto` lacks a reading in column `column`.
pub open spec fn lacks_reading(peptides: Seq<PeptideView>, column: int, upto: int) -> bool {
    exists|k: int|
        0 <= k < upto && column < (#[trigger] peptides[k]).intensities.len()
            && peptides[k].intensities[column] is None
}

/// The flags of a group of `peptides`: one per sample column of the first
/// peptide, set where any peptide lacks a reading.
pub open spec fn na_columns_of(peptides: Seq<PeptideView>) -> Seq<bool> {
    if peptides.len() == 0 {
        Seq::empty()
    } else {
        Seq::new(
            peptides[0].intensities.len(),
            |column: int| lacks_reading(peptides, column, peptides.len() as int),
        )
    }
}

/// A copy of `values`.
pub fn copy_values<T: Copy>(values: &Vec<T>) -> (copy: Vec<T>)
    ensures
        copy@ == values@,
{
    let mut copy: Vec<T> = Vec::new();
    let mut i: usize = 0;
    while i < values.len()
        invariant
            i <= values.len(),
            copy@ == values@.take(i as int),
        decreases values.len() - i,
    {
        copy.push(values[i]);
        i += 1;
    }
    assert(values@.take(i as int) =~= values@);
    copy
}

/// A copy of `peptide`.
pub fn copy_peptide(peptide: &Peptide) -> (copy: Peptide)
    ensures
        copy.deep_view() == peptide.deep_view(),
{
    Peptide {
        name: peptide.name.clone(),
        protein: peptide.protein.clone(),
        mass_charge_ratio: peptide.mass_charge_ratio.clone(),
        intensities: copy_values(&peptide.intensities),
    }
}

/// Appends copies of `more` to `peptides`.
pub fn append_peptides(peptides: &mut Vec<Peptide>, more: &Vec<Peptide>)
    ensures
        final(peptides).deep_view() == old(peptides).deep_view() + more.deep_view(),
{
    let mut k: usize = 0;
    while k < more.len()
        invariant
            k <= more.len(),
            peptides.deep_view() == old(peptides).deep_view() + more.deep_view().take(k as int),
        decreases more.len() - k,
    {
        let ghost before = peptides.deep_view();
        peptides.push(copy_peptide(&more[k]));
        assert(peptides.deep_view() =~= before.push(more[k as int].deep_view()));
        assert(more.deep_view().take(k + 1) =~= more.deep_view().take(k as int).push(
            more[k as int].deep_view(),
        ));
        assert(peptides.deep_view() =~= old(peptides).deep_view() + more.deep_view().take(
            k + 1,
        ));
        k += 1;
    }
    assert(more.deep_view().take(k as int) =~= more.deep_view());
}

/// Makes a group of `peptides` and flags the sample columns in which any of
/// them lacks a reading.
pub fn create_peptide_group(peptides: &Vec<Peptide>) -> (group: PeptideGroup)
    ensures
        group.peptides.deep_view() == peptides.deep_view(),
        group.na_columns@ == na_columns_of(peptides.deep_view()),
{
    let ghost all = peptides.deep_view();
    let width = if peptides.len() == 0 {
        0
    } else {
        peptides[0].intensities.len()
    };
    let mut na_columns: Vec<bool> = Vec::new();
    let mut column: usize = 0;
    while column < width
        invariant
            column <= width,
            all == peptides.deep_view(),
            peptides.len() > 0 ==> width == all[0].intensities.len(),
            peptides.len() == 0 ==> width == 0,
            na_columns.len() == column,
            forall|c: int|
                0 <= c < column ==> #[trigger] na_columns[c] == lacks_reading(
                    all,
                    c,
                    all.len() as int,
                ),
        decreases width - column,
    {
        let mut lacking = false;
        let mut k: usize = 0;
        while k < peptides.len()
            invariant
                k <= peptides.len(),
                all == peptides.deep_view(),
                lacking == lacks_reading(all, column as int, k as int),
            decreases peptides.len() - k,
        {
            assert(all[k as int].intensities == peptides[k as int].intensities@);
            if column < peptides[k].intensities.len() && peptides[k].intensities[column].is_none() {
                lacking = true;
            }
            k += 1;
        }
        na_columns.push(lacking);
        column += 1;
    }
    assert(na_columns@ =~= na_columns_of(all));
    let mut copies: Vec<Peptide> = Vec::new();
    assert(copies.deep_view() =~= Seq::<PeptideView>::empty());
    append_peptides(&mut copies, peptides);
    assert(copies.deep_view() =~= all);
    PeptideGroup { peptides: copies, na_columns }
}

/// Some peptide among `peptides` bears the name `name`.
pub open spec fn holds_name(peptides: Seq<PeptideView>, name: Seq<char>) -> bool {
    exists|k: int| 0 <= k < peptides.len() && (#[trigger] peptides[k]).name == name
}

/// `bucket` takes `group` in: both lack the same columns, and the bucket
/// holds no peptide with the name of the group's first peptide.
pub open spec fn accepts(bucket: GroupView, group: GroupView) -> bool {
    &&& bucket.na_columns == group.na_columns
    &&& group.peptides.len() > 0 ==> !holds_name(bucket.peptides, group.peptides[0].name)
}

/// The position of the first bucket at or after `from` that accepts `group`;
/// the number of buckets if there is none.
pub open spec fn first_accepting(buckets: Seq<GroupView>, group: GroupView, from: int) -> int
    decreases buckets.len() - from,
{
    if from < 0 || from >= buckets.len() {
        buckets.len() as int
    } else if accepts(buckets[from], group) {
        from
    } else {
        first_accepting(buckets, group, from + 1)
    }
}

/// The buckets after `group` has been placed: its peptides join the first
/// bucket that accepts it, or it opens a bucket of its own behind the others.
pub open spec fn placed(buckets: Seq<GroupView>, group: GroupView) -> Seq<GroupView> {
    let at = first_accepting(buckets, group, 0);
    if at < buckets.len() {
        buckets.update(
            at,
            GroupView {
                peptides: buckets[at].peptides + group.peptides,
                na_columns: buckets[at].na_columns,
            },
        )
    } else {
        buckets.push(group)
    }
}

/// The buckets after the first `upto` groups have been placed, one after the
/// other.
pub open spec fn grouped(groups: Seq<GroupView>, upto: int) -> Seq<GroupView>
    decreases upto,
{
    if upto <= 0 {
        Seq::empty()
    } else {
        placed(grouped(groups, upto - 1), groups[upto - 1])
    }
}

/// The bucket that group `g` goes to: the position of the first bucket that
/// accepts it among those the groups before it have made, or, if none does,
/// the position behind them, where it opens its own.
pub open spec fn bucket_of(groups: Seq<GroupView>, g: int) -> int {
    first_accepting(grouped(groups, g), groups[g], 0)
}

/// The peptides of those among the first `upto` groups that go to the bucket
/// `bucket`, group after group.
pub open spec fn members(groups: Seq<GroupView>, upto: int, bucket: int) -> Seq<PeptideView>
    decreases upto,
{
    if upto <= 0 {
        Seq::empty()
    } else if bucket_of(groups, upto - 1) == bucket {
        members(groups, upto - 1, bucket) + groups[upto - 1].peptides
    } else {
        members(groups, upto - 1, bucket)
    }
}

/// Some group among the first `upto` goes to the bucket `bucket`.
pub open spec fn has_group(groups: Seq<GroupView>, upto: int, bucket: int) -> bool {
    exists|g: int| 0 <= g < upto && #[trigger] bucket_of(groups, g) == bucket
}

/// Where the first accepting bucket stands: among the buckets on one that
/// accepts the group, or behind them.
pub proof fn lemma_first_accepting(buckets: Seq<GroupView>, group: GroupView, from: int)
    requires
        0 <= from <= buckets.len(),
    ensures
        from <= first_accepting(buckets, group, from) <= buckets.len(),
        first_accepting(buckets, group, from) < buckets.len() ==> accepts(
            buckets[first_accepting(buckets, group, from)],
            group,
        ),
    decreases buckets.len() - from,
{
    if from < buckets.len() && !accepts(buckets[from], group) {
        lemma_first_accepting(buckets, group, from + 1);
    }
}

/// A bucket that none of the first `upto` groups goes to has no members.
pub proof fn lemma_no_members(groups: Seq<GroupView>, upto: int, bucket: int)
    requires
        forall|g: int| 0 <= g < upto ==> bucket_of(groups, g) != bucket,
    ensures
        members(groups, upto, bucket) == Seq::<PeptideView>::empty(),
    decreases upto,
{
    if upto > 0 {
        lemma_no_members(groups, upto - 1, bucket);
    }
}

/// What grouping achieves. Every group goes to exactly one bucket and every
/// bucket has a group that goes to it; a bucket holds the peptides of the
/// groups that go to it, each once and in the order of the groups, and
/// nothing else; and it bears the flags of every group that goes to it.
pub proof fn lemma_grouped_partitions(groups: Seq<GroupView>, upto: int)
    requires
        0 <= upto <= groups.len(),
    ensures
        grouped(groups, upto).len() <= upto,
        forall|g: int|
            0 <= g < upto ==> 0 <= #[trigger] bucket_of(groups, g) < grouped(groups, upto).len(),
        forall|b: int|
            0 <= b < grouped(groups, upto).len() ==> (#[trigger] grouped(groups, upto)[b]).peptides
                == members(groups, upto, b),
        forall|g: int|
            0 <= g < upto ==> grouped(groups, upto)[#[trigger] bucket_of(groups, g)].na_columns
                == groups[g].na_columns,
        forall|b: int|
            0 <= b < grouped(groups, upto).len() ==> #[trigger] has_group(groups, upto, b),
    decreases upto,
{
    if upto > 0 {
        lemma_grouped_partitions(groups, upto - 1);
        let before = grouped(groups, upto - 1);
        let after = grouped(groups, upto);
        let group = groups[upto - 1];
        let at = bucket_of(groups, upto - 1);
        lemma_first_accepting(before, group, 0);
        if at == before.len() {
            lemma_no_members(groups, upto - 1, at);
            assert(members(groups, upto, at) =~= group.peptides);
        }
        assert forall|b: int| 0 <= b < after.len() implies (#[trigger] after[b]).peptides
            == members(groups, upto, b) by {
            if b != at {
                assert(after[b] == before[b]);
            }
        }
        assert forall|b: int| 0 <= b < after.len() implies #[trigger] has_group(
            groups,
            upto,
            b,
        ) by {
            if b < before.len() {
                assert(has_group(groups, upto - 1, b));
                let g = choose|g: int| 0 <= g < upto - 1 && #[trigger] bucket_of(groups, g) == b;
                assert(bucket_of(groups, g) == b);
            } else {
                assert(bucket_of(groups, upto - 1) == b);
            }
        }
        assert forall|g: int| 0 <= g < upto implies after[#[trigger] bucket_of(
            groups,
            g,
        )].na_columns == groups[g].na_columns by {
            if g < upto - 1 {
                assert(after[bucket_of(groups, g)].na_columns == before[bucket_of(
                    groups,
                    g,
                )].na_columns);
            }
        }
    }
}

/// A group with peptides that goes to a bucket leaves the name of its first
/// peptide among the bucket's members.
pub proof fn lemma_members_hold_first_name(groups: Seq<GroupView>, upto: int, g: int)
    requires
        0 <= g < upto,
        groups[g].peptides.len() > 0,
    ensures
        holds_name(members(groups, upto, bucket_of(groups, g)), groups[g].peptides[0].name),
    decreases upto,
{
    let bucket = bucket_of(groups, g);
    let name = groups[g].peptides[0].name;
    if g == upto - 1 {
        let all = members(groups, upto, bucket);
        let front = members(groups, upto - 1, bucket);
        assert(all[front.len() as int] == groups[g].peptides[0]);
    } else {
        lemma_members_hold_first_name(groups, upto - 1, g);
        let earlier = members(groups, upto - 1, bucket);
        let k = choose|k: int| 0 <= k < earlier.len() && (#[trigger] earlier[k]).name == name;
        assert(members(groups, upto, bucket)[k] == earlier[k]);
    }
}

/// Two groups whose first peptides share a name never go to the same bucket.
pub proof fn lemma_same_first_name_apart(groups: Seq<GroupView>, g: int, h: int)
    requires
        0 <= g < h < groups.len(),
        groups[g].peptides.len() > 0,
        groups[h].peptides.len() > 0,
        groups[g].peptides[0].name == groups[h].peptides[0].name,
    ensures
        bucket_of(groups, g) != bucket_of(groups, h),
{
    lemma_grouped_partitions(groups, h);
    lemma_members_hold_first_name(groups, h, g);
    lemma_first_accepting(grouped(groups, h), groups[h], 0);
}

/// Whether two rows of flags are the same.
pub fn same_flags(a: &Vec<bool>, b: &Vec<bool>) -> (same: bool)
    ensures
        same == (a@ == b@),
{
    if a.len() != b.len() {
        return false;
    }
    let mut i: usize = 0;
    while i < a.len()
        invariant
            i <= a.len(),
            a.len() == b.len(),
            forall|j: int| 0 <= j < i ==> a[j] == b[j],
        decreases a.len() - i,
    {
        if a[i] != b[i] {
            return false;
        }
        i += 1;
    }
    assert(a@ =~= b@);
    true
}

/// Whether some peptide among `peptides` bears the name `name`.
pub fn has_name(peptides: &Vec<Peptide>, name: &str) -> (found: bool)
    ensures
        found == holds_name(peptides.deep_view(), name@),
{
    let mut k: usize = 0;
    while k < peptides.len()
        invariant
            k <= peptides.len(),
            forall|j: int| 0 <= j < k ==> (#[trigger] peptides.deep_view()[j]).name != name@,
        decreases peptides.len() - k,
    {
        assert(peptides.deep_view()[k as int].name == peptides[k as int].name@);
        if same_text(peptides[k].name.as_str(), name) {
            return true;
        }
        k += 1;
    }
    false
}

/// Puts together the groups that lack readings in the same sample columns.
/// Two groups whose first peptides share a name are kept apart: a group joins
/// the first bucket of its columns that holds no peptide of that name. The
/// buckets come out in the order in which they were opened.
pub fn group_by_na_columns(groups: Vec<PeptideGroup>) -> (out: Vec<NAGroup>)
    ensures
        out.deep_view() == grouped(groups.deep_view(), groups.len() as int),
{
    let ghost all = groups.deep_view();
    let mut buckets: Vec<NAGroup> = Vec::new();
    assert(buckets.deep_view() =~= Seq::<GroupView>::empty());
    let mut i: usize = 0;
    while i < groups.len()
        invariant
            i <= groups.len(),
            all == groups.deep_view(),
            buckets.deep_view() == grouped(all, i as int),
        decreases groups.len() - i,
    {
        let group = &groups[i];
        let ghost incoming = group.deep_view();
        let ghost before = buckets.deep_view();
        assert(all[i as int] == incoming);
        let mut at: usize = 0;
        while at < buckets.len()
            invariant
                at <= buckets.len(),
                incoming == group.deep_view(),
                before == buckets.deep_view(),
                first_accepting(before, incoming, 0) == first_accepting(
                    before,
                    incoming,
                    at as int,
                ),
            ensures
                at <= buckets.len(),
                at == first_accepting(before, incoming, 0),
            decreases buckets.len() - at,
        {
            assert(before[at as int] == buckets[at as int].deep_view());
            if same_flags(&buckets[at].na_columns, &group.na_columns) {
                if group.peptides.len() == 0 {
                    break;
                }
                assert(incoming.peptides[0].name == group.peptides[0].name@);
                if !has_name(&buckets[at].peptides, group.peptides[0].name.as_str()) {
                    break;
                }
            }
            at += 1;
        }
        if at < buckets.len() {
            let mut peptides: Vec<Peptide> = Vec::new();
            assert(peptides.deep_view() =~= Seq::<PeptideView>::empty());
            append_peptides(&mut peptides, &buckets[at].peptides);
            append_peptides(&mut peptides, &group.peptides);
            let na_columns = copy_values(&buckets[at].na_columns);
            assert(peptides.deep_view() =~= before[at as int].peptides + incoming.peptides);
            buckets.set(at, NAGroup { peptides, na_columns });
        } else {
            let mut peptides: Vec<Peptide> = Vec::new();
            assert(peptides.deep_view() =~= Seq::<PeptideView>::empty());
            append_peptides(&mut peptides, &group.peptides);
            assert(peptides.deep_view() =~= incoming.peptides);
            buckets.push(NAGroup { peptides, na_columns: copy_values(&group.na_columns) });
        }
        assert(buckets.deep_view() =~= placed(before, incoming));
        i += 1;
    }
    buckets
}

} // verus!

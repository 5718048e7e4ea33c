//! Tables as rows of fields, and the one operation the pipeline performs on
//! their columns: leaving some of them out while keeping the rest in order.

use vstd::prelude::*;

verus! {

/// The positions below `width` that are not in `dropped`, ascending.
pub open spec fn kept_positions(width: nat, dropped: Set<int>) -> Seq<int>
    decreases width,
{
    if width == 0 {
        Seq::empty()
    } else if dropped.contains(width - 1) {
        kept_positions((width - 1) as nat, dropped)
    } else {
        kept_positions((width - 1) as nat, dropped).push(width - 1)
    }
}

/// `row` without the entries whose position is in `dropped`.
pub open spec fn without_columns<T>(row: Seq<T>, dropped: Set<int>) -> Seq<T>
    decreases row.len(),
{
    if row.len() == 0 {
        row
    } else if dropped.contains(row.len() - 1) {
        without_columns(row.drop_last(), dropped)
    } else {
        without_columns(row.drop_last(), dropped).push(row.last())
    }
}

/// The positions at which `mask` is set.
pub open spec fn flagged(mask: Seq<bool>) -> Set<int> {
    Set::new(|p: int| 0 <= p < mask.len() && mask[p])
}

/// The positions that `list` names.
pub open spec fn index_set(list: Seq<usize>) -> Set<int> {
    Set::new(|p: int| exists|i: int| 0 <= i < list.len() && #[trigger] list[i] as int == p)
}

/// The positions of `set`, each moved up by `offset`.
pub open spec fn shifted(set: Set<int>, offset: int) -> Set<int> {
    Set::new(|p: int| set.contains(p - offset))
}

/// What is kept is exactly what was not dropped: the kept positions ascend,
/// none of them is dropped, every position that is not dropped is among them,
/// and the reduced row holds the entries at those positions in that order.
pub proof fn lemma_without_columns_selects<T>(row: Seq<T>, dropped: Set<int>)
    ensures
        without_columns(row, dropped).len() == kept_positions(row.len(), dropped).len(),
        without_columns(row, dropped).len() <= row.len(),
        forall|i: int|
            0 <= i < kept_positions(row.len(), dropped).len() ==> {
                let p = #[trigger] kept_positions(row.len(), dropped)[i];
                &&& 0 <= p < row.len()
                &&& !dropped.contains(p)
                &&& without_columns(row, dropped)[i] == row[p]
            },
        forall|i: int, j: int|
            0 <= i < j < kept_positions(row.len(), dropped).len() ==> #[trigger] kept_positions(
                row.len(),
                dropped,
            )[i] < #[trigger] kept_positions(row.len(), dropped)[j],
        forall|p: int|
            0 <= p < row.len() && !dropped.contains(p) ==> #[trigger] kept_positions(
                row.len(),
                dropped,
            ).contains(p),
    decreases row.len(),
{
    if row.len() > 0 {
        let shorter = row.drop_last();
        lemma_without_columns_selects(shorter, dropped);
        let kept = kept_positions(row.len(), dropped);
        let before = kept_positions(shorter.len(), dropped);
        let last = row.len() - 1;
        assert forall|p: int| 0 <= p < row.len() && !dropped.contains(p) implies kept.contains(
            p,
        ) by {
            if p < last {
                assert(before.contains(p));
                let i = choose|i: int| 0 <= i < before.len() && before[i] == p;
                assert(kept[i] == p);
            } else {
                assert(kept[kept.len() - 1] == p);
            }
        }
    }
}

/// Two sets that agree inside a row drop the same entries from it.
pub proof fn lemma_without_columns_agree<T>(row: Seq<T>, a: Set<int>, b: Set<int>)
    requires
        forall|p: int| 0 <= p < row.len() ==> a.contains(p) == b.contains(p),
    ensures
        without_columns(row, a) == without_columns(row, b),
    decreases row.len(),
{
    if row.len() > 0 {
        lemma_without_columns_agree(row.drop_last(), a, b);
    }
}

/// Every entry of `list` is smaller than the next one.
pub open spec fn strictly_ascending(list: Seq<usize>) -> bool {
    forall|i: int, j: int| 0 <= i < j < list.len() ==> list[i] < list[j]
}

/// Where `columns` ascends and each column, moved up by `offset`, lies inside
/// the row, the row loses exactly as many entries as there are columns.
pub proof fn lemma_dropped_count<T>(row: Seq<T>, columns: Seq<usize>, offset: int)
    requires
        0 <= offset,
        strictly_ascending(columns),
        forall|i: int| 0 <= i < columns.len() ==> #[trigger] columns[i] + offset < row.len(),
    ensures
        without_columns(row, shifted(index_set(columns), offset)).len() + columns.len()
            == row.len(),
    decreases row.len(),
{
    let dropped = shifted(index_set(columns), offset);
    if row.len() == 0 {
        if columns.len() > 0 {
            assert(columns[0] + offset < row.len());
        }
    } else {
        let last = row.len() - 1;
        let shorter = row.drop_last();
        if dropped.contains(last) {
            let i = choose|i: int|
                0 <= i < columns.len() && #[trigger] columns[i] as int == last - offset;
            assert(i == columns.len() - 1) by {
                if i < columns.len() - 1 {
                    assert(columns[columns.len() - 1] + offset < row.len());
                }
            }
            let fewer = columns.drop_last();
            assert forall|k: int| 0 <= k < fewer.len() implies #[trigger] fewer[k] + offset
                < shorter.len() by {
                assert(columns[k] < columns[i]);
            }
            lemma_dropped_count(shorter, fewer, offset);
            assert forall|p: int| 0 <= p < shorter.len() implies dropped.contains(p) == shifted(
                index_set(fewer),
                offset,
            ).contains(p) by {
                if dropped.contains(p) {
                    let k = choose|k: int|
                        0 <= k < columns.len() && #[trigger] columns[k] as int == p - offset;
                    assert(fewer[k] as int == p - offset);
                }
                if shifted(index_set(fewer), offset).contains(p) {
                    let k = choose|k: int|
                        0 <= k < fewer.len() && #[trigger] fewer[k] as int == p - offset;
                    assert(columns[k] as int == p - offset);
                }
            }
            lemma_without_columns_agree(shorter, dropped, shifted(index_set(fewer), offset));
        } else {
            assert forall|k: int| 0 <= k < columns.len() implies #[trigger] columns[k] + offset
                < shorter.len() by {
                assert(columns[k] + offset < row.len());
                if columns[k] + offset == last {
                    assert(index_set(columns).contains(last - offset));
                }
            }
            lemma_dropped_count(shorter, columns, offset);
        }
    }
}

/// How many of the positions below `width` are in `dropped`: the number of
/// entries that a row of that width loses.
pub open spec fn omitted(width: nat, dropped: Set<int>) -> nat {
    (width - kept_positions(width, dropped).len()) as nat
}

/// A row loses as many entries as positions inside it are dropped, so rows of
/// one width all lose the same number.
pub proof fn lemma_omitted_is_lost<T>(row: Seq<T>, dropped: Set<int>)
    ensures
        without_columns(row, dropped).len() + omitted(row.len(), dropped) == row.len(),
{
    lemma_without_columns_selects(row, dropped);
}

/// Where `columns` ascends and each column, moved up by `offset`, lies below
/// `width`, as many positions are dropped as there are columns.
pub proof fn lemma_omitted_counts_columns(width: nat, columns: Seq<usize>, offset: int)
    requires
        0 <= offset,
        strictly_ascending(columns),
        forall|i: int| 0 <= i < columns.len() ==> #[trigger] columns[i] + offset < width,
    ensures
        omitted(width, shifted(index_set(columns), offset)) == columns.len(),
{
    let row = Seq::new(width, |i: int| i);
    lemma_dropped_count(row, columns, offset);
    lemma_omitted_is_lost(row, shifted(index_set(columns), offset));
}

/// Counts the positions below `width` that the columns `columns`, each moved
/// up by `offset`, occupy.
pub fn omitted_columns(columns: &Vec<usize>, offset: usize, width: usize) -> (count: usize)
    ensures
        count == omitted(width as nat, shifted(index_set(columns@), offset as int)),
{
    let ghost dropped = shifted(index_set(columns@), offset as int);
    let mut count: usize = 0;
    let mut p: usize = 0;
    while p < width
        invariant
            p <= width,
            dropped == shifted(index_set(columns@), offset as int),
            count + kept_positions(p as nat, dropped).len() == p,
        decreases width - p,
    {
        proof {
            if p < offset {
                assert(!index_set(columns@).contains(p - offset));
            }
        }
        if p >= offset && contains_index(columns, p - offset) {
            count += 1;
        }
        p += 1;
    }
    count
}

/// Whether `list` holds `x`.
pub fn contains_index(list: &Vec<usize>, x: usize) -> (found: bool)
    ensures
        found == index_set(list@).contains(x as int),
{
    let mut i: usize = 0;
    while i < list.len()
        invariant
            i <= list.len(),
            forall|j: int| 0 <= j < i ==> list[j] != x,
        decreases list.len() - i,
    {
        if list[i] == x {
            return true;
        }
        i += 1;
    }
    false
}

/// A mask of `width` flags that is set at `offset + c` for each `c` in
/// `columns` that still falls below `width`.
pub fn column_mask(columns: &Vec<usize>, offset: usize, width: usize) -> (mask: Vec<bool>)
    ensures
        mask.len() == width,
        forall|p: int|
            0 <= p < width ==> #[trigger] mask[p] == shifted(
                index_set(columns@),
                offset as int,
            ).contains(p),
{
    let mut mask: Vec<bool> = Vec::new();
    let mut p: usize = 0;
    while p < width
        invariant
            p <= width,
            mask.len() == p,
            forall|q: int|
                0 <= q < p ==> #[trigger] mask[q] == shifted(
                    index_set(columns@),
                    offset as int,
                ).contains(q),
        decreases width - p,
    {
        let flag = p >= offset && contains_index(columns, p - offset);
        proof {
            if p < offset {
                assert(!index_set(columns@).contains(p - offset));
            }
        }
        mask.push(flag);
        p += 1;
    }
    mask
}

/// The text fields of `row` at the positions where `mask` is not set.
pub fn text_without_columns(row: &Vec<String>, mask: &Vec<bool>) -> (kept: Vec<String>)
    ensures
        kept.deep_view() == without_columns(row.deep_view(), flagged(mask@)),
{
    let mut kept: Vec<String> = Vec::new();
    let mut i: usize = 0;
    while i < row.len()
        invariant
            i <= row.len(),
            kept.deep_view() == without_columns(row.deep_view().take(i as int), flagged(mask@)),
        decreases row.len() - i,
    {
        let ghost before = kept.deep_view();
        let ghost prefix = row.deep_view().take(i + 1);
        assert(prefix.drop_last() =~= row.deep_view().take(i as int));
        assert(prefix.last() == row[i as int]@);
        if !(i < mask.len() && mask[i]) {
            kept.push(row[i].clone());
            assert(kept.deep_view() =~= before.push(row[i as int]@));
        }
        i += 1;
    }
    assert(row.deep_view().take(i as int) =~= row.deep_view());
    kept
}

/// The values of `row` at the positions where `mask` is not set.
pub fn values_without_columns<T: Copy>(row: &Vec<T>, mask: &Vec<bool>) -> (kept: Vec<T>)
    ensures
        kept@ == without_columns(row@, flagged(mask@)),
{
    let mut kept: Vec<T> = Vec::new();
    let mut i: usize = 0;
    while i < row.len()
        invariant
            i <= row.len(),
            kept@ == without_columns(row@.take(i as int), flagged(mask@)),
        decreases row.len() - i,
    {
        assert(row@.take(i + 1).drop_last() =~= row@.take(i as int));
        if !(i < mask.len() && mask[i]) {
            kept.push(row[i]);
        }
        i += 1;
    }
    assert(row@.take(i as int) =~= row@);
    kept
}

} // verus!

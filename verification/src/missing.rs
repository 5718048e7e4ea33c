//! Which peptides lack readings, and in which sample columns.

use crate::parser::{Peptide, PeptideView};
use crate::text::same_text;
use vstd::prelude::*;

verus! {

/// The sample columns in which one peptide lacks a reading.
pub struct MissingColumns {
    pub peptide: String,
    pub columns: Vec<usize>,
}

/// For each affected peptide, by name, the sample columns in which it lacks a
/// reading. A name occurs at most once.
pub struct MissingMap {
    entries: Vec<MissingColumns>,
}

/// The positions of `intensities` that hold no reading, ascending.
pub open spec fn absent_columns(intensities: Seq<Option<u64>>) -> Seq<usize>
    decreases intensities.len(),
{
    if intensities.len() == 0 {
        Seq::empty()
    } else if intensities.last() is None {
        absent_columns(intensities.drop_last()).push((intensities.len() - 1) as usize)
    } else {
        absent_columns(intensities.drop_last())
    }
}

/// The map that the peptides give, taken in order: a peptide with an absent
/// reading enters under its name, in place of an earlier one of that name.
pub open spec fn missing_of(peptides: Seq<PeptideView>) -> Map<Seq<char>, Seq<usize>>
    decreases peptides.len(),
{
    if peptides.len() == 0 {
        Map::empty()
    } else if absent_columns(peptides.last().intensities).len() > 0 {
        missing_of(peptides.drop_last()).insert(
            peptides.last().name,
            absent_columns(peptides.last().intensities),
        )
    } else {
        missing_of(peptides.drop_last())
    }
}

/// The position of the first entry at or after `from` with the name `name`;
/// the number of entries if there is none.
pub open spec fn position_of(entries: Seq<(Seq<char>, Seq<usize>)>, name: Seq<char>, from: int)
    -> int
    decreases entries.len() - from,
{
    if from < 0 || from >= entries.len() {
        entries.len() as int
    } else if entries[from].0 == name {
        from
    } else {
        position_of(entries, name, from + 1)
    }
}

/// The entries after `columns` has been recorded for `name`: in place of the
/// entry of that name, or at the end if there is none.
pub open spec fn recorded(
    entries: Seq<(Seq<char>, Seq<usize>)>,
    name: Seq<char>,
    columns: Seq<usize>,
) -> Seq<(Seq<char>, Seq<usize>)> {
    if position_of(entries, name, 0) < entries.len() {
        entries.update(position_of(entries, name, 0), (name, columns))
    } else {
        entries.push((name, columns))
    }
}

/// The affected peptides in the order in which their names first occur, each
/// with the absent columns of the last peptide of that name that has any.
pub open spec fn missing_entries_of(peptides: Seq<PeptideView>) -> Seq<(Seq<char>, Seq<usize>)>
    decreases peptides.len(),
{
    if peptides.len() == 0 {
        Seq::empty()
    } else if absent_columns(peptides.last().intensities).len() > 0 {
        recorded(
            missing_entries_of(peptides.drop_last()),
            peptides.last().name,
            absent_columns(peptides.last().intensities),
        )
    } else {
        missing_entries_of(peptides.drop_last())
    }
}

/// The absent columns of a peptide are the positions without a reading, each
/// once and in ascending order.
pub proof fn lemma_absent_columns(intensities: Seq<Option<u64>>)
    requires
        intensities.len() <= usize::MAX,
    ensures
        absent_columns(intensities).len() <= intensities.len(),
        forall|k: int|
            0 <= k < absent_columns(intensities).len() ==> {
                let c = #[trigger] absent_columns(intensities)[k];
                c < intensities.len() && intensities[c as int] is None
            },
        forall|k: int, l: int|
            0 <= k < l < absent_columns(intensities).len() ==> #[trigger] absent_columns(
                intensities,
            )[k] < #[trigger] absent_columns(intensities)[l],
        forall|i: int|
            0 <= i < intensities.len() && intensities[i] is None ==> absent_columns(
                intensities,
            ).contains(i as usize),
    decreases intensities.len(),
{
    if intensities.len() > 0 {
        let shorter = intensities.drop_last();
        lemma_absent_columns(shorter);
        let all = absent_columns(intensities);
        let before = absent_columns(shorter);
        assert forall|i: int|
            0 <= i < intensities.len() && intensities[i] is None implies all.contains(
            i as usize,
        ) by {
            if i < shorter.len() {
                assert(shorter[i] is None);
                assert(before.contains(i as usize));
                let k = choose|k: int| 0 <= k < before.len() && before[k] == i as usize;
                assert(all[k] == i as usize);
            } else {
                assert(all[all.len() - 1] == i as usize);
            }
        }
    }
}

/// A name is in the map exactly if some peptide of that name lacks a reading,
/// and what it maps to is never empty.
pub proof fn lemma_missing_only_affected(peptides: Seq<PeptideView>, name: Seq<char>)
    ensures
        missing_of(peptides).contains_key(name) <==> exists|k: int|
            0 <= k < peptides.len() && (#[trigger] peptides[k]).name == name && absent_columns(
                peptides[k].intensities,
            ).len() > 0,
        missing_of(peptides).contains_key(name) ==> missing_of(peptides)[name].len() > 0,
    decreases peptides.len(),
{
    if peptides.len() > 0 {
        let shorter = peptides.drop_last();
        lemma_missing_only_affected(shorter, name);
        let last = peptides.last();
        if missing_of(peptides).contains_key(name) {
            if last.name == name && absent_columns(last.intensities).len() > 0 {
                assert(peptides[peptides.len() - 1].name == name);
            } else {
                assert(missing_of(shorter).contains_key(name));
                let k = choose|k: int|
                    0 <= k < shorter.len() && (#[trigger] shorter[k]).name == name
                        && absent_columns(shorter[k].intensities).len() > 0;
                assert(peptides[k].name == name);
            }
        }
        if exists|k: int|
            0 <= k < peptides.len() && (#[trigger] peptides[k]).name == name && absent_columns(
                peptides[k].intensities,
            ).len() > 0 {
            let k = choose|k: int|
                0 <= k < peptides.len() && (#[trigger] peptides[k]).name == name
                    && absent_columns(peptides[k].intensities).len() > 0;
            if k < shorter.len() {
                assert(shorter[k].name == name);
            }
        }
    }
}

/// Where the entry of a name stands, if it has one: inside the entries, on
/// an entry of that name.
pub proof fn lemma_position_of(entries: Seq<(Seq<char>, Seq<usize>)>, name: Seq<char>, from: int)
    requires
        0 <= from <= entries.len(),
    ensures
        from <= position_of(entries, name, from) <= entries.len(),
        position_of(entries, name, from) < entries.len() ==> entries[position_of(
            entries,
            name,
            from,
        )].0 == name,
    decreases entries.len() - from,
{
    if from < entries.len() && entries[from].0 != name {
        lemma_position_of(entries, name, from + 1);
    }
}

/// Every entry stands for a peptide: one of the peptides bears its name and
/// lacks readings in exactly its columns, of which there is at least one.
pub proof fn lemma_entries_stand_for_peptides(peptides: Seq<PeptideView>, i: int)
    requires
        0 <= i < missing_entries_of(peptides).len(),
    ensures
        missing_entries_of(peptides)[i].1.len() > 0,
        exists|k: int|
            0 <= k < peptides.len() && (#[trigger] peptides[k]).name == missing_entries_of(
                peptides,
            )[i].0 && absent_columns(peptides[k].intensities) == missing_entries_of(peptides)[i].1,
    decreases peptides.len(),
{
    let shorter = peptides.drop_last();
    let last = peptides.last();
    let before = missing_entries_of(shorter);
    let columns = absent_columns(last.intensities);
    if columns.len() > 0 {
        lemma_position_of(before, last.name, 0);
        let at = position_of(before, last.name, 0);
        if i == at {
            assert(peptides[peptides.len() - 1].name == missing_entries_of(peptides)[i].0);
        } else {
            lemma_entries_stand_for_peptides(shorter, i);
            let k = choose|k: int|
                0 <= k < shorter.len() && (#[trigger] shorter[k]).name == before[i].0
                    && absent_columns(shorter[k].intensities) == before[i].1;
            assert(peptides[k].name == missing_entries_of(peptides)[i].0);
        }
    } else {
        lemma_entries_stand_for_peptides(shorter, i);
        let k = choose|k: int|
            0 <= k < shorter.len() && (#[trigger] shorter[k]).name == before[i].0
                && absent_columns(shorter[k].intensities) == before[i].1;
        assert(peptides[k].name == missing_entries_of(peptides)[i].0);
    }
}

impl MissingMap {
    /// No name occurs twice.
    pub closed spec fn wf(&self) -> bool {
        forall|i: int, j: int|
            0 <= i < j < self.entries.len() ==> (#[trigger] self.entries[i]).peptide@
                != (#[trigger] self.entries[j]).peptide@
    }

    /// The entries in the order in which their names first entered.
    pub closed spec fn entries(&self) -> Seq<(Seq<char>, Seq<usize>)> {
        Seq::new(
            self.entries.len() as nat,
            |i: int| (self.entries[i].peptide@, self.entries[i].columns@),
        )
    }

    /// The map from name to columns.
    pub closed spec fn view(&self) -> Map<Seq<char>, Seq<usize>> {
        Map::new(
            |name: Seq<char>|
                exists|i: int| 0 <= i < self.entries.len() && self.entries[i].peptide@ == name,
            |name: Seq<char>|
                self.entries[choose|i: int|
                    0 <= i < self.entries.len() && self.entries[i].peptide@ == name].columns@,
        )
    }

    /// The entries are the map: each entry's name maps to its columns, every
    /// name of the map has an entry, and no two entries share a name.
    pub proof fn lemma_entries_are_map(&self)
        requires
            self.wf(),
        ensures
            forall|i: int|
                0 <= i < self.entries().len() ==> self@.contains_key(
                    (#[trigger] self.entries()[i]).0,
                ) && self@[self.entries()[i].0] == self.entries()[i].1,
            forall|name: Seq<char>|
                self@.contains_key(name) ==> exists|i: int|
                    0 <= i < self.entries().len() && (#[trigger] self.entries()[i]).0 == name,
            forall|i: int, j: int|
                0 <= i < j < self.entries().len() ==> (#[trigger] self.entries()[i]).0
                    != (#[trigger] self.entries()[j]).0,
    {
        assert forall|i: int| 0 <= i < self.entries().len() implies self@.contains_key(
            (#[trigger] self.entries()[i]).0,
        ) && self@[self.entries()[i].0] == self.entries()[i].1 by {
            let name = self.entries[i].peptide@;
            let c = choose|c: int| 0 <= c < self.entries.len() && self.entries[c].peptide@ == name;
            assert(c == i);
        }
        assert forall|name: Seq<char>| self@.contains_key(name) implies exists|i: int|
            0 <= i < self.entries().len() && (#[trigger] self.entries()[i]).0 == name by {
            let c = choose|c: int| 0 <= c < self.entries.len() && self.entries[c].peptide@ == name;
            assert(self.entries()[c].0 == name);
        }
    }

    /// The entries can be counted.
    pub proof fn lemma_entries_fit(&self)
        ensures
            self.entries().len() <= usize::MAX,
    {
    }

    /// A map without entries.
    pub fn new() -> (map: MissingMap)
        ensures
            map.wf(),
            map@ == Map::<Seq<char>, Seq<usize>>::empty(),
            map.entries() == Seq::<(Seq<char>, Seq<usize>)>::empty(),
    {
        let map = MissingMap { entries: Vec::new() };
        assert(map@ =~= Map::<Seq<char>, Seq<usize>>::empty());
        assert(map.entries() =~= Seq::empty());
        map
    }

    /// The number of affected peptides.
    pub fn len(&self) -> (n: usize)
        ensures
            n == self.entries().len(),
    {
        self.entries.len()
    }

    /// The name of the `i`-th entry.
    pub fn peptide_at(&self, i: usize) -> (name: &String)
        requires
            i < self.entries().len(),
        ensures
            name@ == self.entries()[i as int].0,
    {
        &self.entries[i].peptide
    }

    /// The columns of the `i`-th entry.
    pub fn columns_at(&self, i: usize) -> (columns: &Vec<usize>)
        requires
            i < self.entries().len(),
        ensures
            columns@ == self.entries()[i as int].1,
    {
        &self.entries[i].columns
    }

    fn position(&self, name: &str) -> (at: usize)
        ensures
            at <= self.entries.len(),
            at == position_of(self.entries(), name@, 0),
            at < self.entries.len() ==> self.entries[at as int].peptide@ == name@,
            forall|i: int| 0 <= i < at ==> (#[trigger] self.entries[i]).peptide@ != name@,
    {
        let mut i: usize = 0;
        while i < self.entries.len()
            invariant
                i <= self.entries.len(),
                forall|k: int| 0 <= k < i ==> (#[trigger] self.entries[k]).peptide@ != name@,
                position_of(self.entries(), name@, 0) == position_of(
                    self.entries(),
                    name@,
                    i as int,
                ),
            decreases self.entries.len() - i,
        {
            assert(self.entries()[i as int].0 == self.entries[i as int].peptide@);
            if same_text(self.entries[i].peptide.as_str(), name) {
                return i;
            }
            i += 1;
        }
        i
    }

    /// The columns recorded for `name`, if it is affected.
    pub fn get(&self, name: &str) -> (columns: Option<&Vec<usize>>)
        requires
            self.wf(),
        ensures
            match columns {
                Some(found) => self@.contains_key(name@) && self@[name@] == found@,
                None => !self@.contains_key(name@),
            },
    {
        let at = self.position(name);
        proof {
            self.lemma_entries_are_map();
        }
        if at < self.entries.len() {
            assert(self.entries()[at as int].0 == name@);
            Some(&self.entries[at].columns)
        } else {
            assert(!self@.contains_key(name@)) by {
                if self@.contains_key(name@) {
                    let i = choose|i: int|
                        0 <= i < self.entries().len() && (#[trigger] self.entries()[i]).0 == name@;
                    assert(self.entries[i].peptide@ == name@);
                }
            }
            None
        }
    }

    /// Records `columns` for `peptide`, in place of what was recorded for
    /// that name before.
    pub fn insert(&mut self, peptide: String, columns: Vec<usize>)
        requires
            old(self).wf(),
        ensures
            final(self).wf(),
            final(self)@ == old(self)@.insert(peptide@, columns@),
            final(self).entries() == recorded(old(self).entries(), peptide@, columns@),
    {
        let at = self.position(peptide.as_str());
        let ghost before = self.entries@;
        let ghost name = peptide@;
        let ghost cols = columns@;
        if at < self.entries.len() {
            self.entries.set(at, MissingColumns { peptide, columns });
        } else {
            self.entries.push(MissingColumns { peptide, columns });
        }
        let ghost after = self.entries@;
        proof {
            assert(after[at as int].peptide@ == name && after[at as int].columns@ == cols);
            assert(forall|i: int| 0 <= i < before.len() && i != at ==> after[i] == before[i]);
            assert forall|key: Seq<char>| #[trigger]
                self@.contains_key(key) == old(self)@.insert(name, cols).contains_key(key) by {
                if key == name {
                    assert(after[at as int].peptide@ == key);
                } else {
                    if self@.contains_key(key) {
                        let i = choose|i: int| 0 <= i < after.len() && after[i].peptide@ == key;
                        assert(before[i].peptide@ == key);
                    }
                    if old(self)@.contains_key(key) {
                        let i = choose|i: int| 0 <= i < before.len() && before[i].peptide@ == key;
                        assert(after[i].peptide@ == key);
                    }
                }
            }
            assert forall|key: Seq<char>| self@.contains_key(key) implies #[trigger] self@[key]
                == old(self)@.insert(name, cols)[key] by {
                let c = choose|c: int| 0 <= c < after.len() && after[c].peptide@ == key;
                if key == name {
                    assert(c == at);
                } else {
                    let b = choose|b: int| 0 <= b < before.len() && before[b].peptide@ == key;
                    assert(before[c].peptide@ == key);
                    assert(b == c);
                }
            }
            assert(self@ =~= old(self)@.insert(name, cols));
            assert(self.entries() =~= recorded(old(self).entries(), name, cols));
        }
    }
}

/// The sample columns in which `intensities` holds no reading.
pub fn absent_in(intensities: &Vec<Option<u64>>) -> (columns: Vec<usize>)
    ensures
        columns@ == absent_columns(intensities@),
{
    let mut columns: Vec<usize> = Vec::new();
    let mut i: usize = 0;
    while i < intensities.len()
        invariant
            i <= intensities.len(),
            columns@ == absent_columns(intensities@.take(i as int)),
        decreases intensities.len() - i,
    {
        assert(intensities@.take(i + 1).drop_last() =~= intensities@.take(i as int));
        if intensities[i].is_none() {
            columns.push(i);
        }
        i += 1;
    }
    assert(intensities@.take(i as int) =~= intensities@);
    columns
}

/// Finds the peptides that lack a reading in some sample column. A peptide
/// without an absent reading does not enter the map.
pub fn get_na_peptides(peptides: &Vec<Peptide>) -> (map: MissingMap)
    ensures
        map.wf(),
        map@ == missing_of(peptides.deep_view()),
        map.entries() == missing_entries_of(peptides.deep_view()),
{
    let mut map = MissingMap::new();
    let mut k: usize = 0;
    while k < peptides.len()
        invariant
            k <= peptides.len(),
            map.wf(),
            map@ == missing_of(peptides.deep_view().take(k as int)),
            map.entries() == missing_entries_of(peptides.deep_view().take(k as int)),
        decreases peptides.len() - k,
    {
        let ghost upto = peptides.deep_view().take(k + 1);
        assert(upto.drop_last() =~= peptides.deep_view().take(k as int));
        assert(upto.last() == peptides[k as int].deep_view());
        let columns = absent_in(&peptides[k].intensities);
        if columns.len() > 0 {
            map.insert(peptides[k].name.clone(), columns);
        }
        k += 1;
    }
    assert(peptides.deep_view().take(k as int) =~= peptides.deep_view());
    map
}

} // verus!

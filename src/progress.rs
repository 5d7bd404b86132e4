//! The progress store: one record per opened exercise, with whether its last
//! verification passed. Records are kept in curriculum order.
use std::cmp::Ordering;
use vstd::prelude::*;

use crate::definition::{
    definition_of, is_dir_name, position_cmp, DefinitionView, ExerciseDefinition,
};

verus! {

/// An exercise that has been opened, and whether its last verification run
/// succeeded.
pub struct OpenedExercise {
    pub definition: ExerciseDefinition,
    pub solved: bool,
}

impl View for OpenedExercise {
    type V = (DefinitionView, bool);

    open spec fn view(&self) -> (DefinitionView, bool) {
        (self.definition@, self.solved)
    }
}

impl Clone for OpenedExercise {
    fn clone(&self) -> (r: Self)
        ensures
            r@ == self@,
    {
        OpenedExercise { definition: self.definition.clone(), solved: self.solved }
    }
}

impl PartialEq for OpenedExercise {
    fn eq(&self, other: &OpenedExercise) -> (r: bool) {
        self.solved == other.solved && self.definition == other.definition
    }
}

impl vstd::std_specs::cmp::PartialEqSpecImpl for OpenedExercise {
    open spec fn obeys_eq_spec() -> bool {
        true
    }

    open spec fn eq_spec(&self, other: &OpenedExercise) -> bool {
        self@ == other@
    }
}

impl Eq for OpenedExercise {}

/// Opened exercises are ordered by their definitions.
impl PartialOrd for OpenedExercise {
    fn partial_cmp(&self, other: &OpenedExercise) -> (r: Option<Ordering>) {
        self.definition.partial_cmp(&other.definition)
    }
}

impl vstd::std_specs::cmp::PartialOrdSpecImpl for OpenedExercise {
    open spec fn obeys_partial_cmp_spec() -> bool {
        true
    }

    open spec fn partial_cmp_spec(&self, other: &OpenedExercise) -> Option<Ordering> {
        Some(position_cmp(self.definition@, other.definition@))
    }
}

/// The records as plain values.
pub open spec fn records_view(rows: Seq<OpenedExercise>) -> Seq<(DefinitionView, bool)> {
    rows.map_values(|r: OpenedExercise| r@)
}

/// Some record is kept for exactly `d`.
pub open spec fn has_record(records: Seq<(DefinitionView, bool)>, d: DefinitionView) -> bool {
    exists|i: int| 0 <= i < records.len() && (#[trigger] records[i]).0 == d
}

/// Some record stands at the position of `d`, whatever its names.
pub open spec fn has_position(records: Seq<(DefinitionView, bool)>, d: DefinitionView) -> bool {
    exists|i: int| 0 <= i < records.len() && (#[trigger] records[i]).0.same_position(d)
}

/// Records in curriculum order (those at one position in the order they
/// came), one record per identifier.
pub open spec fn records_wf(records: Seq<(DefinitionView, bool)>) -> bool {
    &&& forall|i: int, j: int|
        0 <= i < j < records.len() ==> !(#[trigger] records[j]).0.precedes((#[trigger] records[i]).0)
    &&& forall|i: int, j: int|
        0 <= i < j < records.len() ==> (#[trigger] records[i]).0 != (#[trigger] records[j]).0
}

/// Where a record for `d` is placed: after every record that does not come
/// after `d`.
pub open spec fn insertion_point(records: Seq<(DefinitionView, bool)>, d: DefinitionView) -> nat
    decreases records.len(),
{
    if records.len() == 0 {
        0
    } else if d.precedes(records.last().0) {
        insertion_point(records.drop_last(), d)
    } else {
        records.len()
    }
}

/// The records once `d` is recorded with `solved`, unless a record for `d`
/// exists already, in which case nothing changes.
pub open spec fn with_record(
    records: Seq<(DefinitionView, bool)>,
    d: DefinitionView,
    solved: bool,
) -> Seq<(DefinitionView, bool)> {
    if has_record(records, d) {
        records
    } else {
        records.insert(insertion_point(records, d) as int, (d, solved))
    }
}

/// Opening `d`: a new record, not solved, unless one exists already.
pub open spec fn opened_with(records: Seq<(DefinitionView, bool)>, d: DefinitionView) -> Seq<
    (DefinitionView, bool),
> {
    with_record(records, d, false)
}

/// The records once the record for `d`, if any, holds `solved`.
pub open spec fn marked(records: Seq<(DefinitionView, bool)>, d: DefinitionView, solved: bool) -> Seq<
    (DefinitionView, bool),
> {
    records.map_values(
        |r: (DefinitionView, bool)|
            if r.0 == d {
                (d, solved)
            } else {
                r
            },
    )
}

/// The records that the rows of the progress table give, read in order.
pub open spec fn records_from_rows(rows: Seq<(String, String, i64)>) -> Seq<(DefinitionView, bool)>
    decreases rows.len(),
{
    if rows.len() == 0 {
        seq![]
    } else {
        with_record(
            records_from_rows(rows.drop_last()),
            definition_of(rows.last().0@, rows.last().1@),
            rows.last().2 != 0,
        )
    }
}

/// A stored row whose keys are not of the form `NN_name`.
#[derive(Debug)]
pub struct InvalidRecord {
    pub chapter: String,
    pub exercise: String,
}

/// The opened exercises, in curriculum order.
pub struct ProgressStore {
    rows: Vec<OpenedExercise>,
}

impl View for ProgressStore {
    type V = Seq<(DefinitionView, bool)>;

    closed spec fn view(&self) -> Seq<(DefinitionView, bool)> {
        records_view(self.rows@)
    }
}

pub(crate) proof fn lemma_insertion_point(records: Seq<(DefinitionView, bool)>, d: DefinitionView)
    requires
        records_wf(records),
    ensures
        insertion_point(records, d) <= records.len(),
        forall|k: int|
            0 <= k < insertion_point(records, d) ==> !d.precedes(#[trigger] records[k].0),
        forall|k: int|
            insertion_point(records, d) <= k < records.len() ==> d.precedes(
                #[trigger] records[k].0,
            ),
    decreases records.len(),
{
    if records.len() > 0 {
        let last = records.len() - 1;
        if d.precedes(records.last().0) {
            let init = records.drop_last();
            assert forall|i: int, j: int|
                0 <= i < j < init.len() implies !(#[trigger] init[j]).0.precedes(
                (#[trigger] init[i]).0,
            ) by {
                assert(init[i] == records[i] && init[j] == records[j]);
            }
            assert forall|i: int, j: int|
                0 <= i < j < init.len() implies (#[trigger] init[i]).0 != (#[trigger] init[j]).0 by {
                assert(init[i] == records[i] && init[j] == records[j]);
            }
            lemma_insertion_point(init, d);
            assert forall|k: int| 0 <= k < insertion_point(records, d) implies !d.precedes(
                #[trigger] records[k].0,
            ) by {
                assert(records[k] == init[k]);
            }
            assert forall|k: int|
                insertion_point(records, d) <= k < records.len() implies d.precedes(
                #[trigger] records[k].0,
            ) by {
                if k < last {
                    assert(records[k] == init[k]);
                }
            }
        } else {
            assert forall|k: int| 0 <= k < records.len() implies !d.precedes(
                #[trigger] records[k].0,
            ) by {
                if k < last {
                    assert(!records[last].0.precedes(records[k].0));
                }
            }
        }
    }
}

pub(crate) proof fn lemma_with_record_wf(records: Seq<(DefinitionView, bool)>, d: DefinitionView, solved: bool)
    requires
        records_wf(records),
    ensures
        records_wf(with_record(records, d, solved)),
{
    if !has_record(records, d) {
        lemma_insertion_point(records, d);
        let p = insertion_point(records, d) as int;
        let r = with_record(records, d, solved);
        assert forall|i: int, j: int| 0 <= i < j < r.len() implies !(#[trigger] r[j]).0.precedes(
            (#[trigger] r[i]).0,
        ) by {
            if j < p {
            } else if j == p {
                assert(!d.precedes(records[i].0));
            } else if i < p {
                assert(!d.precedes(records[i].0));
                assert(d.precedes(records[j - 1].0));
            } else if i == p {
                assert(d.precedes(records[j - 1].0));
            } else {
                assert(!records[j - 1].0.precedes(records[i - 1].0));
            }
        }
        assert forall|i: int, j: int| 0 <= i < j < r.len() implies (#[trigger] r[i]).0 != (
        #[trigger] r[j]).0 by {
            if j < p {
            } else if j == p {
                assert(records[i].0 != d);
            } else if i < p {
                assert(records[j - 1].0 != d);
            } else if i == p {
                assert(records[j - 1].0 != d);
            } else {
                assert(records[i - 1].0 != records[j - 1].0);
            }
        }
    }
}

/// Opening an exercise a second time changes nothing: exactly one record is
/// kept for it, and its solved flag is whatever it was before.
pub proof fn lemma_open_idempotent(records: Seq<(DefinitionView, bool)>, d: DefinitionView)
    requires
        records_wf(records),
    ensures
        opened_with(opened_with(records, d), d) == opened_with(records, d),
        has_record(records, d) ==> opened_with(records, d) == records,
        exists|i: int|
            0 <= i < opened_with(records, d).len() && (#[trigger] opened_with(records, d)[i]).0 == d
                && forall|j: int|
                0 <= j < opened_with(records, d).len() && (#[trigger] opened_with(records, d)[j]).0
                    == d ==> j == i,
{
    let r = opened_with(records, d);
    lemma_with_record_wf(records, d, false);
    if !has_record(records, d) {
        lemma_insertion_point(records, d);
        let p = insertion_point(records, d) as int;
        assert(r[p].0 == d);
    }
    assert(has_record(r, d));
    let i = choose|i: int| 0 <= i < r.len() && (#[trigger] r[i]).0 == d;
    assert forall|j: int| 0 <= j < r.len() && (#[trigger] r[j]).0 == d implies j == i by {
        if j < i {
            assert(r[j].0 != r[i].0);
        } else if j > i {
            assert(r[i].0 != r[j].0);
        }
    }
}

/// Marking an exercise solved, then unsolved, then solved again leaves the
/// records as marking it solved once does: no trace of the intermediate
/// states remains.
pub proof fn lemma_mark_converges(records: Seq<(DefinitionView, bool)>, d: DefinitionView)
    ensures
        marked(marked(marked(records, d, true), d, false), d, true) == marked(records, d, true),
        forall|i: int|
            0 <= i < records.len() && (#[trigger] records[i]).0 == d ==> marked(records, d, true)[i]
                == (d, true),
{
    assert(marked(marked(marked(records, d, true), d, false), d, true) =~= marked(
        records,
        d,
        true,
    ));
}

impl ProgressStore {
    /// Records in curriculum order, one per identifier.
    pub closed spec fn wf(&self) -> bool {
        records_wf(self@)
    }

    /// A store without records.
    pub fn new() -> (r: ProgressStore)
        ensures
            r.wf(),
            r@ == Seq::<(DefinitionView, bool)>::empty(),
    {
        let r = ProgressStore { rows: Vec::new() };
        assert(r@ =~= Seq::<(DefinitionView, bool)>::empty());
        r
    }

    /// The number of records.
    pub fn len(&self) -> (r: usize)
        ensures
            r == self@.len(),
    {
        self.rows.len()
    }

    /// Whether a record is kept for exactly `d`.
    pub fn contains(&self, d: &ExerciseDefinition) -> (r: bool)
        ensures
            r == has_record(self@, d@),
    {
        let mut i: usize = 0;
        while i < self.rows.len()
            invariant
                i <= self.rows@.len(),
                forall|k: int| 0 <= k < i ==> (#[trigger] self@[k]).0 != d@,
            decreases self.rows@.len() - i,
        {
            if self.rows[i].definition == *d {
                assert(self@[i as int].0 == d@);
                return true;
            }
            i = i + 1;
        }
        false
    }

    /// Whether some record stands at the position of `d`, whatever its names.
    pub fn contains_position(&self, d: &ExerciseDefinition) -> (r: bool)
        ensures
            r == has_position(self@, d@),
    {
        let mut i: usize = 0;
        while i < self.rows.len()
            invariant
                i <= self.rows@.len(),
                forall|k: int| 0 <= k < i ==> !(#[trigger] self@[k]).0.same_position(d@),
            decreases self.rows@.len() - i,
        {
            if self.rows[i].definition.same_position(d) {
                assert(self@[i as int].0.same_position(d@));
                return true;
            }
            i = i + 1;
        }
        false
    }

    /// Record `d` with `solved`, unless a record for it exists already.
    pub fn insert(&mut self, d: ExerciseDefinition, solved: bool)
        requires
            old(self).wf(),
        ensures
            final(self).wf(),
            final(self)@ == with_record(old(self)@, d@, solved),
    {
        if self.contains(&d) {
            return ;
        }
        let mut p: usize = self.rows.len();
        assert(self@.subrange(0, p as int) =~= self@);
        while p > 0 && d.precedes(&self.rows[p - 1].definition)
            invariant
                p <= self.rows@.len(),
                self@ == old(self)@,
                insertion_point(self@, d@) == insertion_point(self@.subrange(0, p as int), d@),
            decreases p,
        {
            assert(self@.subrange(0, p as int).drop_last() =~= self@.subrange(0, p - 1));
            p = p - 1;
        }
        if p > 0 {
            assert(self@.subrange(0, p as int).last() == self@[p - 1]);
        }
        let ghost before = self@;
        let ghost d_view = d@;
        self.rows.insert(p, OpenedExercise { definition: d, solved });
        proof {
            lemma_with_record_wf(before, d_view, solved);
            assert(self@ =~= with_record(before, d_view, solved));
        }
    }

    /// Set the `solved` flag of the record for `d`; without such a record
    /// nothing changes.
    pub fn set_solved(&mut self, d: &ExerciseDefinition, solved: bool)
        requires
            old(self).wf(),
        ensures
            final(self).wf(),
            final(self)@ == marked(old(self)@, d@, solved),
    {
        let mut i: usize = 0;
        while i < self.rows.len()
            invariant
                i <= self.rows@.len(),
                self.rows@.len() == old(self).rows@.len(),
                forall|k: int|
                    0 <= k < i ==> (#[trigger] self.rows@[k])@ == marked(old(self)@, d@, solved)[k],
                forall|k: int|
                    i <= k < self.rows@.len() ==> (#[trigger] self.rows@[k]) == old(self).rows@[k],
            decreases self.rows@.len() - i,
        {
            if self.rows[i].definition == *d {
                let definition = self.rows[i].definition.clone();
                self.rows.set(i, OpenedExercise { definition, solved });
            }
            assert(self.rows@[i as int]@ == marked(old(self)@, d@, solved)[i as int]);
            i = i + 1;
        }
        proof {
            assert(self@ =~= marked(old(self)@, d@, solved));
        }
    }

    /// The records, in curriculum order.
    pub fn records(&self) -> (r: Vec<OpenedExercise>)
        ensures
            records_view(r@) == self@,
    {
        let r = self.rows.clone();
        assert(records_view(r@) =~= self@);
        r
    }

    /// Build the store from the rows of the progress table, each a chapter
    /// key, an exercise key and a solved flag (zero for false). It fails on
    /// the first row whose keys are not of the form `NN_name`.
    pub fn from_rows(rows: &Vec<(String, String, i64)>) -> (r: Result<ProgressStore, InvalidRecord>)
        ensures
            r is Ok <==> forall|i: int|
                0 <= i < rows@.len() ==> is_dir_name((#[trigger] rows@[i]).0@) && is_dir_name(
                    rows@[i].1@,
                ),
            r matches Ok(store) ==> store.wf() && store@ == records_from_rows(rows@),
            r matches Err(e) ==> exists|i: int|
                0 <= i < rows@.len() && !(is_dir_name((#[trigger] rows@[i]).0@) && is_dir_name(
                    rows@[i].1@,
                )) && e.chapter@ == rows@[i].0@ && e.exercise@ == rows@[i].1@,
    {
        let mut store = ProgressStore::new();
        let mut j: usize = 0;
        while j < rows.len()
            invariant
                j <= rows@.len(),
                store.wf(),
                store@ == records_from_rows(rows@.subrange(0, j as int)),
                forall|i: int|
                    0 <= i < j ==> is_dir_name((#[trigger] rows@[i]).0@) && is_dir_name(
                        rows@[i].1@,
                    ),
            decreases rows@.len() - j,
        {
            let row = &rows[j];
            match ExerciseDefinition::new(row.0.as_str(), row.1.as_str()) {
                Ok(d) => {
                    store.insert(d, row.2 != 0);
                    assert(rows@.subrange(0, j + 1).drop_last() =~= rows@.subrange(0, j as int));
                },
                Err(_) => {
                    return Err(
                        InvalidRecord {
                            chapter: row.0.clone(),
                            exercise: row.1.clone(),
                        },
                    );
                },
            }
            j = j + 1;
        }
        assert(rows@.subrange(0, j as int) =~= rows@);
        Ok(store)
    }
}

} // verus!

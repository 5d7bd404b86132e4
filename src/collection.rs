//! The exercise collection: the discovered exercises together with the
//! progress store, and the curriculum rules that join them.
use vstd::prelude::*;

use crate::definition::{DefinitionView, ExerciseDefinition};
use crate::discovery::{discover, discovered_from, strictly_ascending};
use crate::progress::{
    has_position, has_record, insertion_point, lemma_insertion_point, lemma_open_idempotent,
    lemma_with_record_wf, marked, opened_with, records_from_rows, records_view, records_wf,
    InvalidRecord, OpenedExercise, ProgressStore,
};

verus! {

/// Why an operation on the collection was refused.
#[derive(Clone, Copy, Debug, PartialEq, Eq, Structural)]
pub enum CollectionError {
    /// The exercise is not one of the discovered exercises.
    UnknownExercise,
    /// Every discovered exercise has been opened already.
    NothingLeft,
}

/// Exercise `i` is the first, in curriculum order, that no record covers:
/// every exercise before it is covered and it is not.
pub open spec fn is_next_unopened(
    exercises: Seq<ExerciseDefinition>,
    records: Seq<(DefinitionView, bool)>,
    i: int,
) -> bool {
    &&& 0 <= i < exercises.len()
    &&& !has_position(records, exercises[i]@)
    &&& forall|k: int| 0 <= k < i ==> has_position(records, (#[trigger] exercises[k])@)
}

/// Every exercise is covered by a record at its position.
pub open spec fn all_opened(
    exercises: Seq<ExerciseDefinition>,
    records: Seq<(DefinitionView, bool)>,
) -> bool {
    forall|k: int| 0 <= k < exercises.len() ==> has_position(records, (#[trigger] exercises[k])@)
}

/// `d` is one of the exercises.
pub open spec fn is_member(exercises: Seq<ExerciseDefinition>, d: DefinitionView) -> bool {
    exists|i: int| 0 <= i < exercises.len() && (#[trigger] exercises[i])@ == d
}

/// The records after opening each of `exercises` in turn.
pub open spec fn opened_all(
    records: Seq<(DefinitionView, bool)>,
    exercises: Seq<ExerciseDefinition>,
) -> Seq<(DefinitionView, bool)>
    decreases exercises.len(),
{
    if exercises.len() == 0 {
        records
    } else {
        opened_with(opened_all(records, exercises.drop_last()), exercises.last()@)
    }
}

proof fn lemma_opened_with_keeps(records: Seq<(DefinitionView, bool)>, d: DefinitionView, x: DefinitionView)
    requires
        records_wf(records),
    ensures
        has_record(opened_with(records, d), d),
        has_record(records, x) ==> has_record(opened_with(records, d), x),
        records_wf(opened_with(records, d)),
{
    lemma_open_idempotent(records, d);
    lemma_with_record_wf(records, d, false);
    if has_record(records, x) && !has_record(records, d) {
        let i = choose|i: int| 0 <= i < records.len() && (#[trigger] records[i]).0 == x;
        lemma_insertion_point(records, d);
        let p = insertion_point(records, d) as int;
        let r = opened_with(records, d);
        if i < p {
            assert(r[i] == records[i]);
        } else {
            assert(r[i + 1] == records[i]);
        }
    }
}

proof fn lemma_opened_all(records: Seq<(DefinitionView, bool)>, exercises: Seq<ExerciseDefinition>)
    requires
        records_wf(records),
    ensures
        records_wf(opened_all(records, exercises)),
        forall|k: int|
            0 <= k < exercises.len() ==> has_record(
                opened_all(records, exercises),
                (#[trigger] exercises[k])@,
            ),
    decreases exercises.len(),
{
    if exercises.len() > 0 {
        let init = exercises.drop_last();
        lemma_opened_all(records, init);
        let before = opened_all(records, init);
        let d = exercises.last()@;
        assert forall|k: int| 0 <= k < exercises.len() implies has_record(
            opened_all(records, exercises),
            (#[trigger] exercises[k])@,
        ) by {
            lemma_opened_with_keeps(before, d, exercises[k]@);
            if k < exercises.len() - 1 {
                assert(exercises[k] == init[k]);
            }
        }
        lemma_opened_with_keeps(before, d, d);
    }
}

/// Once each discovered exercise has been opened, nothing is left to open:
/// `next` then returns `None`.
pub proof fn lemma_nothing_next_after_opening_all(
    records: Seq<(DefinitionView, bool)>,
    exercises: Seq<ExerciseDefinition>,
)
    requires
        records_wf(records),
    ensures
        all_opened(exercises, opened_all(records, exercises)),
{
    lemma_opened_all(records, exercises);
    let r = opened_all(records, exercises);
    assert forall|k: int| 0 <= k < exercises.len() implies has_position(
        r,
        (#[trigger] exercises[k])@,
    ) by {
        let i = choose|i: int| 0 <= i < r.len() && (#[trigger] r[i]).0 == exercises[k]@;
        assert(r[i].0.same_position(exercises[k]@));
    }
}

/// With no exercise opened, the next exercise is the first discovered one,
/// which precedes every other.
pub proof fn lemma_next_when_none_opened(exercises: Seq<ExerciseDefinition>)
    requires
        strictly_ascending(exercises),
        exercises.len() > 0,
    ensures
        is_next_unopened(exercises, Seq::empty(), 0),
        forall|k: int| 0 < k < exercises.len() ==> exercises[0]@.precedes((#[trigger] exercises[k])@),
{
}

/// At most one exercise is the next one to open.
pub proof fn lemma_next_unique(
    exercises: Seq<ExerciseDefinition>,
    records: Seq<(DefinitionView, bool)>,
    i: int,
    j: int,
)
    requires
        is_next_unopened(exercises, records, i),
        is_next_unopened(exercises, records, j),
    ensures
        i == j,
{
    if i < j {
        assert(has_position(records, exercises[i]@));
    } else if j < i {
        assert(has_position(records, exercises[j]@));
    }
}

/// The exercises found under one root directory, and the progress made on
/// them.
pub struct ExerciseCollection {
    exercises_dir: String,
    exercises: Vec<ExerciseDefinition>,
    progress: ProgressStore,
}

impl ExerciseCollection {
    /// The root directory of the collection.
    pub closed spec fn dir(&self) -> Seq<char> {
        self.exercises_dir@
    }

    /// The discovered exercises, in curriculum order.
    pub closed spec fn exercises(&self) -> Seq<ExerciseDefinition> {
        self.exercises@
    }

    /// The progress records, in curriculum order.
    pub closed spec fn records(&self) -> Seq<(DefinitionView, bool)> {
        self.progress@
    }

    /// The exercises are strictly ascending and the records well formed.
    pub closed spec fn wf(&self) -> bool {
        strictly_ascending(self.exercises@) && self.progress.wf()
    }

    /// Assemble a collection from the entries found under `exercises_dir`
    /// (pairs of a chapter directory name and an entry name in it) and the
    /// rows of its progress table. A row whose keys do not parse is an
    /// error; entries that do not parse are left out.
    pub fn new(
        exercises_dir: String,
        entries: &Vec<(String, String)>,
        rows: &Vec<(String, String, i64)>,
    ) -> (r: Result<Self, InvalidRecord>)
        ensures
            r is Ok <==> forall|i: int|
                0 <= i < rows@.len() ==> crate::definition::is_dir_name((#[trigger] rows@[i]).0@)
                    && crate::definition::is_dir_name(rows@[i].1@),
            r matches Ok(c) ==> {
                &&& c.wf()
                &&& c.dir() == exercises_dir@
                &&& discovered_from(entries@, c.exercises())
                &&& c.records() == records_from_rows(rows@)
            },
            r matches Err(e) ==> exists|i: int|
                0 <= i < rows@.len() && !(crate::definition::is_dir_name(
                    (#[trigger] rows@[i]).0@,
                ) && crate::definition::is_dir_name(rows@[i].1@)) && e.chapter@ == rows@[i].0@
                    && e.exercise@ == rows@[i].1@,
    {
        let exercises = discover(entries);
        match ProgressStore::from_rows(rows) {
            Ok(progress) => Ok(ExerciseCollection { exercises_dir, exercises, progress }),
            Err(e) => Err(e),
        }
    }

    /// How many exercises have been opened.
    pub fn n_opened(&self) -> (r: usize)
        ensures
            r == self.records().len(),
    {
        self.progress.len()
    }

    /// Every opened exercise with its solved flag, in curriculum order.
    pub fn opened(&self) -> (r: Vec<OpenedExercise>)
        ensures
            records_view(r@) == self.records(),
    {
        self.progress.records()
    }

    /// The exercise to open next when going through the collection in
    /// order: the first discovered exercise whose position no record covers.
    pub fn next(&self) -> (r: Option<ExerciseDefinition>)
        requires
            self.wf(),
        ensures
            r is None <==> all_opened(self.exercises(), self.records()),
            r matches Some(d) ==> exists|i: int|
                is_next_unopened(self.exercises(), self.records(), i) && (#[trigger] self.exercises()[i])@
                    == d@,
    {
        let mut i: usize = 0;
        while i < self.exercises.len()
            invariant
                i <= self.exercises@.len(),
                forall|k: int|
                    0 <= k < i ==> has_position(self.progress@, (#[trigger] self.exercises@[k])@),
            decreases self.exercises@.len() - i,
        {
            if !self.progress.contains_position(&self.exercises[i]) {
                let d = self.exercises[i].clone();
                assert(is_next_unopened(self.exercises@, self.progress@, i as int));
                return Some(d);
            }
            i = i + 1;
        }
        None
    }

    /// Open `exercise`: record it, not solved, unless it is open already.
    /// Only a discovered exercise can be opened.
    pub fn open(&mut self, exercise: &ExerciseDefinition) -> (r: Result<(), CollectionError>)
        requires
            old(self).wf(),
        ensures
            final(self).wf(),
            final(self).dir() == old(self).dir(),
            final(self).exercises() == old(self).exercises(),
            r is Ok <==> is_member(old(self).exercises(), exercise@),
            r is Ok ==> final(self).records() == opened_with(old(self).records(), exercise@),
            r is Err ==> r == Err::<(), CollectionError>(CollectionError::UnknownExercise)
                && final(self).records() == old(self).records(),
    {
        let mut i: usize = 0;
        let mut found = false;
        while i < self.exercises.len()
            invariant
                i <= self.exercises@.len(),
                found == exists|k: int|
                    0 <= k < i && (#[trigger] self.exercises@[k])@ == exercise@,
            decreases self.exercises@.len() - i,
        {
            if self.exercises[i] == *exercise {
                found = true;
            }
            i = i + 1;
        }
        if !found {
            return Err(CollectionError::UnknownExercise);
        }
        self.progress.insert(exercise.clone(), false);
        Ok(())
    }

    /// Open the next exercise in curriculum order and return it.
    pub fn open_next(&mut self) -> (r: Result<ExerciseDefinition, CollectionError>)
        requires
            old(self).wf(),
        ensures
            final(self).wf(),
            final(self).dir() == old(self).dir(),
            final(self).exercises() == old(self).exercises(),
            r is Err <==> all_opened(old(self).exercises(), old(self).records()),
            r is Err ==> r == Err::<ExerciseDefinition, CollectionError>(
                CollectionError::NothingLeft,
            ) && final(self).records() == old(self).records(),
            r matches Ok(d) ==> exists|i: int|
                is_next_unopened(old(self).exercises(), old(self).records(), i) && (
                #[trigger] old(self).exercises()[i])@ == d@ && final(self).records()
                    == opened_with(old(self).records(), d@),
    {
        match self.next() {
            None => Err(CollectionError::NothingLeft),
            Some(d) => {
                let ghost i = choose|i: int|
                    is_next_unopened(self.exercises@, self.progress@, i) && (
                    #[trigger] self.exercises@[i])@ == d@;
                let opened = self.open(&d);
                assert(opened is Ok);
                Ok(d)
            },
        }
    }

    /// Record that the last verification of `exercise` succeeded. Without a
    /// record for it nothing changes.
    pub fn mark_as_solved(&mut self, exercise: &ExerciseDefinition)
        requires
            old(self).wf(),
        ensures
            final(self).wf(),
            final(self).dir() == old(self).dir(),
            final(self).exercises() == old(self).exercises(),
            final(self).records() == marked(old(self).records(), exercise@, true),
    {
        self.progress.set_solved(exercise, true);
    }

    /// Record that the last verification of `exercise` failed. Without a
    /// record for it nothing changes.
    pub fn mark_as_unsolved(&mut self, exercise: &ExerciseDefinition)
        requires
            old(self).wf(),
        ensures
            final(self).wf(),
            final(self).dir() == old(self).dir(),
            final(self).exercises() == old(self).exercises(),
            final(self).records() == marked(old(self).records(), exercise@, false),
    {
        self.progress.set_solved(exercise, false);
    }

    /// The root directory of the collection.
    pub fn exercises_dir(&self) -> (r: &str)
        ensures
            r@ == self.dir(),
    {
        self.exercises_dir.as_str()
    }

    /// The discovered exercises, opened or not, in curriculum order.
    pub fn iter(&self) -> (r: std::slice::Iter<'_, ExerciseDefinition>)
        ensures
            vstd::std_specs::slice::into_iter_elts(r) == self.exercises(),
    {
        self.exercises.as_slice().iter()
    }
}

} // verus!

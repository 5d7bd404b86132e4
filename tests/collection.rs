use wr::{CollectionError, ExerciseCollection, ExerciseDefinition, ProgressStore};

fn def(chapter: &str, exercise: &str) -> ExerciseDefinition {
    ExerciseDefinition::new(chapter, exercise).ok().unwrap()
}

fn entries(pairs: &[(&str, &str)]) -> Vec<(String, String)> {
    pairs.iter().map(|(c, e)| (c.to_string(), e.to_string())).collect()
}

fn rows(rows: &[(&str, &str, i64)]) -> Vec<(String, String, i64)> {
    rows.iter().map(|(c, e, s)| (c.to_string(), e.to_string(), *s)).collect()
}

fn collection(pairs: &[(&str, &str)], stored: &[(&str, &str, i64)]) -> ExerciseCollection {
    ExerciseCollection::new("exercises".to_string(), &entries(pairs), &rows(stored)).ok().unwrap()
}

fn opened(c: &ExerciseCollection) -> Vec<(String, String, bool)> {
    c.opened().iter().map(|o| (o.definition.chapter(), o.definition.exercise(), o.solved)).collect()
}

fn row(chapter: &str, exercise: &str, solved: bool) -> (String, String, bool) {
    (chapter.to_string(), exercise.to_string(), solved)
}

const THREE: [(&str, &str); 3] = [("02_next", "00_c"), ("01_intro", "01_world"), ("01_intro", "00_hello")];

#[test]
fn next_on_nothing_opened_is_the_smallest() {
    let c = collection(&THREE, &[]);
    let next = c.next().unwrap();
    assert_eq!((next.chapter(), next.exercise()), ("01_intro".to_string(), "00_hello".to_string()));
    assert_eq!(c.n_opened(), 0);
}

#[test]
fn next_after_opening_everything_is_none() {
    let mut c = collection(&THREE, &[]);
    for _ in 0..3 {
        c.open_next().ok().unwrap();
    }
    assert!(c.next().is_none());
    assert_eq!(c.open_next().err(), Some(CollectionError::NothingLeft));
    assert_eq!(c.n_opened(), 3);
}

#[test]
fn next_skips_opened_positions_regardless_of_insertion_order() {
    let c = collection(&THREE, &[("02_next", "00_c", 0), ("01_intro", "00_hello", 1)]);
    let next = c.next().unwrap();
    assert_eq!(next.exercise(), "01_world");
    assert_eq!(
        opened(&c),
        vec![row("01_intro", "00_hello", true), row("02_next", "00_c", false)]
    );
}

#[test]
fn open_twice_keeps_one_record_and_its_flag() {
    let mut c = collection(&THREE, &[]);
    let d = def("01_intro", "01_world");
    c.open(&d).ok().unwrap();
    c.mark_as_solved(&d);
    c.open(&d).ok().unwrap();
    assert_eq!(c.n_opened(), 1);
    assert_eq!(opened(&c), vec![row("01_intro", "01_world", true)]);
}

#[test]
fn open_an_unknown_exercise_fails() {
    let mut c = collection(&THREE, &[]);
    assert_eq!(c.open(&def("09_nowhere", "00_x")).err(), Some(CollectionError::UnknownExercise));
    assert_eq!(c.open(&def("01_renamed", "00_hello")).err(), Some(CollectionError::UnknownExercise));
    assert_eq!(c.n_opened(), 0);
}

#[test]
fn marking_converges_to_the_last_flag() {
    let mut c = collection(&THREE, &[]);
    let d = c.open_next().ok().unwrap();
    c.mark_as_solved(&d);
    c.mark_as_unsolved(&d);
    c.mark_as_solved(&d);
    assert_eq!(opened(&c), vec![row("01_intro", "00_hello", true)]);
}

#[test]
fn marking_without_a_record_changes_nothing() {
    let mut c = collection(&THREE, &[]);
    c.mark_as_solved(&def("01_intro", "00_hello"));
    assert_eq!(c.n_opened(), 0);
}

#[test]
fn a_stored_row_that_does_not_parse_is_an_error() {
    let err = ExerciseCollection::new(
        "exercises".to_string(),
        &entries(&THREE),
        &rows(&[("01_intro", "00_hello", 0), ("01_intro", "hello", 1)]),
    )
    .err()
    .unwrap();
    assert_eq!(err.chapter, "01_intro");
    assert_eq!(err.exercise, "hello");
}

#[test]
fn stored_rows_are_kept_in_curriculum_order() {
    let store = ProgressStore::from_rows(&rows(&[
        ("03_c", "00_x", 0),
        ("01_a", "02_y", 7),
        ("01_a", "01_z", 0),
    ]))
    .ok()
    .unwrap();
    let got: Vec<(String, bool)> =
        store.records().iter().map(|o| (o.definition.exercise(), o.solved)).collect();
    assert_eq!(
        got,
        vec![("01_z".to_string(), false), ("02_y".to_string(), true), ("00_x".to_string(), false)]
    );
    assert_eq!(store.len(), 3);
}

#[test]
fn iteration_covers_every_exercise_in_order() {
    let c = collection(&THREE, &[("01_intro", "00_hello", 0)]);
    let names: Vec<String> = c.iter().map(|d| d.to_string()).collect();
    assert_eq!(
        names,
        vec!["(01) intro - (00) hello", "(01) intro - (01) world", "(02) next - (00) c"]
    );
    assert_eq!(c.exercises_dir(), "exercises");
}

#[test]
fn store_lookups_by_identity_and_by_position() {
    let mut store = ProgressStore::new();
    let hello = def("01_intro", "00_hello");
    store.insert(hello.clone(), false);
    store.insert(def("01_intro", "00_hello"), true);
    assert_eq!(store.len(), 1);
    assert!(store.contains(&hello));
    assert!(!store.contains(&def("01_renamed", "00_hello")));
    assert!(store.contains_position(&def("01_renamed", "00_hello")));
    assert!(!store.contains_position(&def("01_intro", "01_hello")));
    store.set_solved(&hello, true);
    assert!(store.records()[0].solved);
}

#[test]
fn opened_exercises_are_ordered_by_definition() {
    let c = collection(&THREE, &[("02_next", "00_c", 1), ("01_intro", "01_world", 0)]);
    let records = c.opened();
    assert!(records[0] < records[1]);
    assert!(records[0] != records[1]);
    assert!(records[0] == records[0].clone());
}

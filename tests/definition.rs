use std::cmp::Ordering;

use wr::{discover, ExerciseDefinition, NameKind};

fn def(chapter: &str, exercise: &str) -> ExerciseDefinition {
    ExerciseDefinition::new(chapter, exercise).ok().unwrap()
}

fn entries(pairs: &[(&str, &str)]) -> Vec<(String, String)> {
    pairs.iter().map(|(c, e)| (c.to_string(), e.to_string())).collect()
}

#[test]
fn parse_then_render_gives_back_the_names() {
    for (chapter, exercise) in [
        ("01_intro", "00_hello"),
        ("00_a", "99_z"),
        ("07_structured_logging", "10__x"),
        ("42_Ünïcödé", "03_日本"),
    ] {
        let d = def(chapter, exercise);
        assert_eq!(d.chapter(), chapter);
        assert_eq!(d.exercise(), exercise);
    }
}

#[test]
fn parse_reads_numbers_and_names() {
    let d = def("12_chapter", "07_exercise");
    assert_eq!(d.chapter_number(), 12);
    assert_eq!(d.exercise_number(), 7);
    assert_eq!(d.to_string(), "(12) chapter - (07) exercise");
}

#[test]
fn parse_rejects_malformed_names() {
    for bad in ["x_broken", "1_a", "001_a", "01-a", "01_", "01", "", "01_a b", "a01_b", "01_a-b", "٠١_a"] {
        let err = ExerciseDefinition::new("01_ok", bad).err().unwrap();
        assert_eq!(err.kind, NameKind::Exercise);
        assert_eq!(err.name, bad);
        let err = ExerciseDefinition::new(bad, "01_ok").err().unwrap();
        assert_eq!(err.kind, NameKind::Chapter);
        assert_eq!(err.name, bad);
    }
}

#[test]
fn parse_reports_the_exercise_name_first() {
    let err = ExerciseDefinition::new("bad_chapter", "bad_exercise").err().unwrap();
    assert_eq!(err.kind, NameKind::Exercise);
    assert_eq!(err.name, "bad_exercise");
}

#[test]
fn order_follows_numbers_not_names() {
    let a = def("01_a", "05_x");
    let b = def("02_a", "00_y");
    assert!(a.precedes(&b));
    assert!(!b.precedes(&a));
    assert!(a < b);
    assert_eq!(a.partial_cmp(&b), Some(Ordering::Less));
    assert_eq!(b.partial_cmp(&a), Some(Ordering::Greater));

    let c = def("01_zzz", "05_aaa");
    assert!(!a.precedes(&c) && !c.precedes(&a));
    assert!(a.same_position(&c));
    assert_eq!(a.partial_cmp(&c), Some(Ordering::Equal));
    assert!(a != c);
    assert!(a == def("01_a", "05_x"));
    assert!(!a.precedes(&a));

    let d = def("01_a", "06_x");
    assert!(a.precedes(&d) && d.precedes(&b) && a.precedes(&b));
}

#[test]
fn manifest_paths_join_the_directory_names() {
    let d = def("01_intro", "00_hello");
    assert_eq!(d.manifest_folder_path("exercises"), "exercises/01_intro/00_hello");
    assert_eq!(d.manifest_path("exercises"), "exercises/01_intro/00_hello/Cargo.toml");
    assert_eq!(d.manifest_folder_path("/root/"), "/root/01_intro/00_hello");
    assert_eq!(d.manifest_folder_path(""), "01_intro/00_hello");
}

#[test]
fn discovery_drops_malformed_entries_and_keeps_valid_siblings() {
    let found = discover(&entries(&[
        ("02_bad", "x_broken"),
        ("02_bad", "01_fine"),
        ("01_intro", "01_world"),
        ("01_intro", "00_hello"),
        ("notes", "00_readme"),
        ("01_intro", "Cargo.toml"),
    ]));
    let names: Vec<(String, String)> = found.iter().map(|d| (d.chapter(), d.exercise())).collect();
    assert_eq!(
        names,
        vec![
            ("01_intro".to_string(), "00_hello".to_string()),
            ("01_intro".to_string(), "01_world".to_string()),
            ("02_bad".to_string(), "01_fine".to_string()),
        ]
    );
}

#[test]
fn discovery_keeps_the_first_entry_at_a_position() {
    let found = discover(&entries(&[("01_intro", "00_hello"), ("01_other", "00_again")]));
    assert_eq!(found.len(), 1);
    assert_eq!(found[0].chapter(), "01_intro");
    assert_eq!(found[0].exercise(), "00_hello");
}

#[test]
fn discovery_of_nothing_is_empty() {
    assert!(discover(&Vec::new()).is_empty());
    assert!(discover(&entries(&[("x", "y")])).is_empty());
}

use wr::{
    effective_verification, exercises_to_verify, record_outcome, render_command_line,
    verification_plan, ExerciseCollection, ExerciseConfig, ExerciseDefinition, ExercisesConfig,
    Invocation, PipelineRun, Stage, StepReport, TestOutcome, Verification,
};

fn entries(pairs: &[(&str, &str)]) -> Vec<(String, String)> {
    pairs.iter().map(|(c, e)| (c.to_string(), e.to_string())).collect()
}

fn step(command: &str, args: &[&str]) -> Verification {
    Verification { command: command.to_string(), args: args.iter().map(|a| a.to_string()).collect() }
}

fn args_of(inv: &Invocation) -> Vec<&str> {
    inv.args.iter().map(|a| a.as_str()).collect()
}

fn report(success: bool, stdout: &[u8], stderr: &[u8]) -> StepReport {
    StepReport { success, stdout: stdout.to_vec(), stderr: stderr.to_vec() }
}

/// Run a plan, answering each command with the next report.
fn run(plan: Vec<Invocation>, mut reports: Vec<StepReport>) -> (TestOutcome, usize) {
    let mut run = PipelineRun::new(plan);
    let mut ran = 0;
    loop {
        let _ = run.current();
        ran += 1;
        if let Some(outcome) = run.record(reports.remove(0)) {
            assert!(run.finished());
            return (outcome, ran);
        }
    }
}

fn opened(c: &ExerciseCollection) -> Vec<(String, bool)> {
    c.opened().iter().map(|o| (o.definition.exercise(), o.solved)).collect()
}

#[test]
fn passing_check_marks_the_exercise_solved_and_unlocks_the_next() {
    let mut c = ExerciseCollection::new(
        "root".to_string(),
        &entries(&[("01_intro", "00_hello"), ("01_intro", "01_world")]),
        &Vec::new(),
    )
    .ok()
    .unwrap();
    let next = c.next().unwrap();
    assert_eq!(next.exercise(), "00_hello");
    let d = c.open_next().ok().unwrap();
    assert_eq!(opened(&c), vec![("00_hello".to_string(), false)]);

    let steps = vec![step("true", &[])];
    let plan = verification_plan(&d, c.exercises_dir(), &steps, true, false, true);
    assert_eq!(plan.len(), 1);
    assert_eq!(plan[0].program, "true");
    assert!(plan[0].args.is_empty());
    assert_eq!(plan[0].current_dir.as_deref(), Some("root/01_intro/00_hello"));
    let (outcome, ran) = run(plan, vec![report(true, b"", b"")]);
    assert_eq!(ran, 1);
    assert!(matches!(outcome, TestOutcome::Success));
    record_outcome(&mut c, &d, &outcome);
    assert_eq!(opened(&c), vec![("00_hello".to_string(), true)]);
    assert_eq!(c.next().unwrap().exercise(), "01_world");
}

#[test]
fn failing_check_records_the_command_and_its_output() {
    let mut c = ExerciseCollection::new(
        "root".to_string(),
        &entries(&[("01_intro", "00_hello"), ("01_intro", "01_world")]),
        &vec![("01_intro".to_string(), "00_hello".to_string(), 1)],
    )
    .ok()
    .unwrap();
    let d = ExerciseDefinition::new("01_intro", "00_hello").ok().unwrap();
    let steps = vec![step("false", &[])];
    let plan = verification_plan(&d, c.exercises_dir(), &steps, true, false, true);
    let (outcome, _) = run(plan, vec![report(false, b"out", b"err ")]);
    match &outcome {
        TestOutcome::Failure { command, details } => {
            assert_eq!(command, "false");
            assert_eq!(details.as_slice(), b"err out");
        }
        TestOutcome::Success => panic!("expected a failure"),
    }
    record_outcome(&mut c, &d, &outcome);
    assert_eq!(opened(&c), vec![("00_hello".to_string(), false)]);
}

#[test]
fn first_failure_stops_the_run() {
    let d = ExerciseDefinition::new("01_intro", "00_hello").ok().unwrap();
    let steps = vec![step("a", &["1"]), step("b", &["2", "x y"]), step("c", &[])];
    let plan = verification_plan(&d, "root", &steps, true, true, false);
    assert_eq!(plan.len(), 3);
    let (outcome, ran) =
        run(plan, vec![report(true, b"", b""), report(false, b"", b"boom"), report(true, b"", b"")]);
    assert_eq!(ran, 2);
    match outcome {
        TestOutcome::Failure { command, details } => {
            assert_eq!(command, "b 2 x y");
            assert_eq!(details, b"boom".to_vec());
        }
        TestOutcome::Success => panic!("expected a failure"),
    }
}

#[test]
fn build_comes_first_and_default_test_runner_fills_in() {
    let d = ExerciseDefinition::new("01_intro", "00_hello").ok().unwrap();
    let plan = verification_plan(&d, "ex", &[], false, false, true);
    assert_eq!(plan.len(), 2);
    assert_eq!(plan[0].stage, Stage::Build);
    assert_eq!(plan[0].program, "cargo");
    assert_eq!(
        args_of(&plan[0]),
        vec!["build", "--manifest-path", "ex/01_intro/00_hello/Cargo.toml", "--all-targets", "--color", "always", "-q"]
    );
    assert!(plan[0].current_dir.is_none());
    assert_eq!(plan[1].stage, Stage::Check);
    assert_eq!(plan[1].program, "cargo");
    assert_eq!(args_of(&plan[1]), vec!["test", "--color", "always", "-q"]);
    assert_eq!(plan[1].current_dir.as_deref(), Some("ex/01_intro/00_hello"));
    assert_eq!(
        render_command_line(&plan[0]),
        "cargo build --manifest-path ex/01_intro/00_hello/Cargo.toml --all-targets --color always -q"
    );

    let verbose = verification_plan(&d, "ex", &[], false, true, false);
    assert_eq!(args_of(&verbose[1]), vec!["test", "--color", "never"]);
}

#[test]
fn failing_build_is_reported_with_the_build_command() {
    let d = ExerciseDefinition::new("01_intro", "00_hello").ok().unwrap();
    let plan = verification_plan(&d, "ex", &[step("true", &[])], false, true, false);
    let (outcome, ran) = run(plan, vec![report(false, b"o", b"e"), report(true, b"", b"")]);
    assert_eq!(ran, 1);
    match outcome {
        TestOutcome::Failure { command, details } => {
            assert_eq!(
                command,
                "cargo build --manifest-path ex/01_intro/00_hello/Cargo.toml --all-targets --color never"
            );
            assert_eq!(details, b"eo".to_vec());
        }
        TestOutcome::Success => panic!("expected a failure"),
    }
}

#[test]
fn exercise_steps_replace_the_collection_steps() {
    let config = ExercisesConfig::new(None, vec![step("global", &[])], false);
    assert_eq!(config.exercises_dir(), "exercises");
    assert!(!config.skip_build());
    let own = ExerciseConfig { verification: vec![step("own", &["--flag"])] };
    let empty = ExerciseConfig { verification: Vec::new() };
    let picked = effective_verification(config.verification(), Some(&own));
    assert_eq!(picked.len(), 1);
    assert_eq!(picked[0].command, "own");
    assert_eq!(effective_verification(config.verification(), Some(&empty))[0].command, "global");
    assert_eq!(effective_verification(config.verification(), None)[0].command, "global");
    assert!(effective_verification(&[], Some(&empty)).is_empty());
}

#[test]
fn configuration_keeps_its_values() {
    let config = ExercisesConfig::new(Some("course".to_string()), Vec::new(), true);
    assert_eq!(config.exercises_dir(), "course");
    assert!(config.verification().is_empty());
    assert!(config.skip_build());
    assert_eq!(wr::default_exercise_dir(), "exercises");
}

#[test]
fn recheck_selects_solved_exercises_too() {
    let c = ExerciseCollection::new(
        "root".to_string(),
        &entries(&[("01_a", "00_x"), ("01_a", "01_y"), ("02_b", "00_z")]),
        &vec![
            ("02_b".to_string(), "00_z".to_string(), 0),
            ("01_a".to_string(), "00_x".to_string(), 1),
            ("01_a".to_string(), "01_y".to_string(), 0),
        ],
    )
    .ok()
    .unwrap();
    let pending: Vec<String> =
        exercises_to_verify(&c.opened(), false).iter().map(|d| d.to_string()).collect();
    assert_eq!(pending, vec!["(01) a - (01) y", "(02) b - (00) z"]);
    let all: Vec<String> =
        exercises_to_verify(&c.opened(), true).iter().map(|d| d.exercise()).collect();
    assert_eq!(all, vec!["00_x", "01_y", "00_z"]);
}

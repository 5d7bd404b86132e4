//! Configuration values: where the exercises live, which commands verify
//! them, and how a per-exercise list overrides the collection's.
use vstd::prelude::*;

verus! {

/// One verification command with its arguments.
pub struct Verification {
    pub command: String,
    pub args: Vec<String>,
}

/// A list of strings as plain values.
pub open spec fn strings_view(v: Seq<String>) -> Seq<Seq<char>> {
    v.map_values(|s: String| s@)
}

/// A verification command as plain values: the command and its arguments.
impl View for Verification {
    type V = (Seq<char>, Seq<Seq<char>>);

    open spec fn view(&self) -> (Seq<char>, Seq<Seq<char>>) {
        (self.command@, strings_view(self.args@))
    }
}

/// A list of verification commands as plain values.
pub open spec fn steps_view(v: Seq<Verification>) -> Seq<(Seq<char>, Seq<Seq<char>>)> {
    v.map_values(|s: Verification| s@)
}

/// The configuration of one exercise.
pub struct ExerciseConfig {
    /// The commands that verify this exercise. When there are any, they
    /// replace those of the collection.
    pub verification: Vec<Verification>,
}

/// The configuration of a whole collection.
pub struct ExercisesConfig {
    exercises_dir: String,
    verification: Vec<Verification>,
    skip_build: bool,
}

/// The exercise directory used when the configuration names none.
pub fn default_exercise_dir() -> (r: String)
    ensures
        r@ == "exercises"@,
{
    String::from_str("exercises")
}

impl ExercisesConfig {
    /// A configuration; without a directory of its own it uses
    /// `default_exercise_dir`.
    pub fn new(
        exercises_dir: Option<String>,
        verification: Vec<Verification>,
        skip_build: bool,
    ) -> (r: Self)
        ensures
            r.dir() == (match exercises_dir {
                Some(d) => d@,
                None => "exercises"@,
            }),
            r.steps() == steps_view(verification@),
            r.skips_build() == skip_build,
    {
        let exercises_dir = match exercises_dir {
            Some(d) => d,
            None => default_exercise_dir(),
        };
        ExercisesConfig { exercises_dir, verification, skip_build }
    }

    pub closed spec fn dir(&self) -> Seq<char> {
        self.exercises_dir@
    }

    pub closed spec fn steps(&self) -> Seq<(Seq<char>, Seq<Seq<char>>)> {
        steps_view(self.verification@)
    }

    pub closed spec fn skips_build(&self) -> bool {
        self.skip_build
    }

    /// The directory that holds the exercises of the collection.
    pub fn exercises_dir(&self) -> (r: &str)
        ensures
            r@ == self.dir(),
    {
        self.exercises_dir.as_str()
    }

    /// The commands that verify the exercises of the collection. When there
    /// are none, the default test runner is used.
    pub fn verification(&self) -> (r: &[Verification])
        ensures
            steps_view(r@) == self.steps(),
    {
        self.verification.as_slice()
    }

    /// Whether the build stage is skipped.
    pub fn skip_build(&self) -> (r: bool)
        ensures
            r == self.skips_build(),
    {
        self.skip_build
    }
}

/// The commands that verify an exercise: its own when it lists any, else
/// the collection's.
pub open spec fn effective_steps(
    collection: Seq<(Seq<char>, Seq<Seq<char>>)>,
    exercise: Option<Seq<(Seq<char>, Seq<Seq<char>>)>>,
) -> Seq<(Seq<char>, Seq<Seq<char>>)> {
    match exercise {
        Some(own) => if own.len() > 0 {
            own
        } else {
            collection
        },
        None => collection,
    }
}

/// Pick the verification commands of an exercise: those of its own
/// configuration when it lists any; otherwise the collection's.
pub fn effective_verification<'a>(
    collection: &'a [Verification],
    exercise: Option<&'a ExerciseConfig>,
) -> (r: &'a [Verification])
    ensures
        steps_view(r@) == effective_steps(
            steps_view(collection@),
            match exercise {
                Some(c) => Some(steps_view(c.verification@)),
                None => None,
            },
        ),
{
    match exercise {
        Some(c) => {
            if c.verification.len() > 0 {
                c.verification.as_slice()
            } else {
                collection
            }
        },
        None => collection,
    }
}

} // verus!

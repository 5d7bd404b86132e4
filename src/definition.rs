//! Exercise identifiers: parsing of `NN_name` directory names, their
//! canonical rendering, and the curriculum order.
use std::cmp::Ordering;
use vstd::prelude::*;

verus! {

/// Whether `c` is a Unicode word character (the class `\w` of a regular
/// expression).
pub uninterp spec fn word_char(c: char) -> bool;

/// Relies on `regex_syntax::is_word_character`: the answer depends on the
/// character alone, and ASCII letters, digits and `_` are word characters.
/// The crate's default `unicode-perl` feature is enabled, so the call does
/// not panic.
#[verifier::external_body]
fn is_word_char(c: char) -> (r: bool)
    ensures
        r == word_char(c),
        ('a' <= c <= 'z' || 'A' <= c <= 'Z' || '0' <= c <= '9' || c == '_') ==> r,
{
    regex_syntax::is_word_character(c)
}

pub open spec fn is_ascii_digit(c: char) -> bool {
    '0' <= c <= '9'
}

pub open spec fn digit_value(c: char) -> int {
    c as int - '0' as int
}

pub open spec fn digit_char(d: int) -> char {
    if d == 0 {
        '0'
    } else if d == 1 {
        '1'
    } else if d == 2 {
        '2'
    } else if d == 3 {
        '3'
    } else if d == 4 {
        '4'
    } else if d == 5 {
        '5'
    } else if d == 6 {
        '6'
    } else if d == 7 {
        '7'
    } else if d == 8 {
        '8'
    } else {
        '9'
    }
}

/// A label: one or more word characters.
pub open spec fn is_label(s: Seq<char>) -> bool {
    s.len() > 0 && forall|i: int| 0 <= i < s.len() ==> word_char(#[trigger] s[i])
}

/// A directory name of the form `NN_label`: two ASCII digits, an underscore
/// and a label, with nothing before or after.
pub open spec fn is_dir_name(s: Seq<char>) -> bool {
    &&& s.len() >= 4
    &&& is_ascii_digit(s[0])
    &&& is_ascii_digit(s[1])
    &&& s[2] == '_'
    &&& is_label(s.subrange(3, s.len() as int))
}

/// The number that the two leading digits of a directory name spell.
pub open spec fn dir_number(s: Seq<char>) -> u16 {
    (digit_value(s[0]) * 10 + digit_value(s[1])) as u16
}

/// The label that follows the underscore of a directory name.
pub open spec fn dir_label(s: Seq<char>) -> Seq<char> {
    s.subrange(3, s.len() as int)
}

/// A number below 100, zero-padded to two digits.
pub open spec fn two_digits(n: u16) -> Seq<char> {
    seq![digit_char(n as int / 10), digit_char(n as int % 10)]
}

/// The canonical `NN_label` form of a number and a label.
pub open spec fn dir_name(number: u16, label: Seq<char>) -> Seq<char> {
    two_digits(number) + seq!['_'] + label
}

/// `part` appended to the path `base` with a `/` between them, unless `base`
/// is empty or already ends with one.
pub open spec fn join_path(base: Seq<char>, part: Seq<char>) -> Seq<char> {
    if base.len() == 0 {
        part
    } else if base.last() == '/' {
        base + part
    } else {
        base + seq!['/'] + part
    }
}

/// Append the path component `part` to the path `base`.
fn join(base: &str, part: &str) -> (r: String)
    ensures
        r@ == join_path(base@, part@),
{
    let len = base.unicode_len();
    let mut r = String::from_str(base);
    if len > 0 && base.get_char(len - 1) != '/' {
        proof {
            reveal_strlit("/");
        }
        r.append("/");
    }
    r.append(part);
    proof {
        if base@.len() > 0 && base@.last() != '/' {
            assert(r@ =~= base@ + seq!['/'] + part@);
        } else if base@.len() == 0 {
            assert(r@ =~= part@);
        }
    }
    r
}

/// Whether a name was meant as a chapter or as an exercise.
#[derive(Clone, Copy, Debug, PartialEq, Eq, Structural)]
pub enum NameKind {
    Chapter,
    Exercise,
}

/// A directory name that is not of the form `NN_label`.
#[derive(Debug)]
pub struct ParseError {
    pub kind: NameKind,
    pub name: String,
}

/// The mathematical value of an exercise identifier.
pub struct DefinitionView {
    pub chapter_name: Seq<char>,
    pub chapter_number: u16,
    pub name: Seq<char>,
    pub number: u16,
}

impl DefinitionView {
    /// What parsing can produce: numbers of two digits and non-empty labels.
    pub open spec fn valid(self) -> bool {
        &&& self.chapter_number < 100
        &&& self.number < 100
        &&& is_label(self.chapter_name)
        &&& is_label(self.name)
    }

    /// The canonical chapter directory name, `NN_name`.
    pub open spec fn chapter_dir(self) -> Seq<char> {
        dir_name(self.chapter_number, self.chapter_name)
    }

    /// The canonical exercise directory name, `NN_name`.
    pub open spec fn exercise_dir(self) -> Seq<char> {
        dir_name(self.number, self.name)
    }

    /// The human-readable form `(CC) chapter_name - (EE) exercise_name`.
    pub open spec fn display(self) -> Seq<char> {
        "("@ + two_digits(self.chapter_number) + ") "@ + self.chapter_name + " - ("@ + two_digits(
            self.number,
        ) + ") "@ + self.name
    }

    /// The directory of the exercise under the collection root `dir`.
    pub open spec fn folder_in(self, dir: Seq<char>) -> Seq<char> {
        join_path(join_path(dir, self.chapter_dir()), self.exercise_dir())
    }

    /// The path of the exercise's `Cargo.toml` under the collection root `dir`.
    pub open spec fn manifest_in(self, dir: Seq<char>) -> Seq<char> {
        join_path(self.folder_in(dir), "Cargo.toml"@)
    }

    /// Both identifiers stand at the same place of the curriculum.
    pub open spec fn same_position(self, other: DefinitionView) -> bool {
        self.chapter_number == other.chapter_number && self.number == other.number
    }

    /// `self` comes strictly before `other`: by chapter number, then by
    /// exercise number. Names play no part.
    pub open spec fn precedes(self, other: DefinitionView) -> bool {
        self.chapter_number < other.chapter_number || (self.chapter_number
            == other.chapter_number && self.number < other.number)
    }
}

/// How two identifiers compare in the curriculum order.
pub open spec fn position_cmp(a: DefinitionView, b: DefinitionView) -> Ordering {
    if a.precedes(b) {
        Ordering::Less
    } else if a.same_position(b) {
        Ordering::Equal
    } else {
        Ordering::Greater
    }
}

/// The identifier that a pair of valid directory names denotes.
pub open spec fn definition_of(chapter_dir: Seq<char>, exercise_dir: Seq<char>) -> DefinitionView {
    DefinitionView {
        chapter_name: dir_label(chapter_dir),
        chapter_number: dir_number(chapter_dir),
        name: dir_label(exercise_dir),
        number: dir_number(exercise_dir),
    }
}

/// The identity of one exercise: its chapter and its own place in it.
pub struct ExerciseDefinition {
    chapter_name: String,
    chapter_number: u16,
    name: String,
    number: u16,
}

impl View for ExerciseDefinition {
    type V = DefinitionView;

    closed spec fn view(&self) -> DefinitionView {
        DefinitionView {
            chapter_name: self.chapter_name@,
            chapter_number: self.chapter_number,
            name: self.name@,
            number: self.number,
        }
    }
}

impl ExerciseDefinition {
    #[verifier::type_invariant]
    spec fn inv(self) -> bool {
        self@.valid()
    }
}

/// Parse one `NN_label` directory name into its label and number.
fn parse_dir_name(dir_name: &str, kind: NameKind) -> (r: Result<(String, u16), ParseError>)
    ensures
        r is Ok <==> is_dir_name(dir_name@),
        r matches Ok((label, number)) ==> label@ == dir_label(dir_name@) && number == dir_number(
            dir_name@,
        ),
        r matches Err(e) ==> e.kind == kind && e.name@ == dir_name@,
{
    let len = dir_name.unicode_len();
    if len < 4 {
        return Err(ParseError { kind, name: String::from_str(dir_name) });
    }
    let tens = dir_name.get_char(0);
    let units = dir_name.get_char(1);
    if !('0' <= tens && tens <= '9' && '0' <= units && units <= '9' && dir_name.get_char(2)
        == '_') {
        return Err(ParseError { kind, name: String::from_str(dir_name) });
    }
    let mut i: usize = 3;
    while i < len
        invariant
            3 <= i <= len,
            len == dir_name@.len(),
            forall|j: int| 3 <= j < i ==> word_char(#[trigger] dir_name@[j]),
        decreases len - i,
    {
        if !is_word_char(dir_name.get_char(i)) {
            proof {
                let label = dir_label(dir_name@);
                assert(!word_char(label[i - 3]));
            }
            return Err(ParseError { kind, name: String::from_str(dir_name) });
        }
        i = i + 1;
    }
    let label = String::from_str(dir_name.substring_char(3, len));
    let number = ((tens as u32 - '0' as u32) * 10 + (units as u32 - '0' as u32)) as u16;
    proof {
        let l = dir_label(dir_name@);
        assert forall|j: int| 0 <= j < l.len() implies word_char(#[trigger] l[j]) by {
            assert(l[j] == dir_name@[j + 3]);
        }
    }
    Ok((label, number))
}

impl ExerciseDefinition {
    /// Parse a pair of directory names, a chapter's and an exercise's, each of
    /// the form `NN_label`. The exercise name is examined first.
    pub fn new(chapter_dir_name: &str, exercise_dir_name: &str) -> (r: Result<Self, ParseError>)
        ensures
            r is Ok <==> is_dir_name(chapter_dir_name@) && is_dir_name(exercise_dir_name@),
            r matches Ok(d) ==> d@ == definition_of(chapter_dir_name@, exercise_dir_name@),
            r matches Err(e) ==> if !is_dir_name(exercise_dir_name@) {
                e.kind == NameKind::Exercise && e.name@ == exercise_dir_name@
            } else {
                e.kind == NameKind::Chapter && e.name@ == chapter_dir_name@
            },
    {
        let (name, number) = match parse_dir_name(exercise_dir_name, NameKind::Exercise) {
            Ok(parsed) => parsed,
            Err(e) => return Err(e),
        };
        let (chapter_name, chapter_number) = match parse_dir_name(
            chapter_dir_name,
            NameKind::Chapter,
        ) {
            Ok(parsed) => parsed,
            Err(e) => return Err(e),
        };
        Ok(ExerciseDefinition { chapter_name, chapter_number, name, number })
    }
}

/// The decimal digit `d` as a one-character string.
fn digit_str(d: u16) -> (r: &'static str)
    requires
        d < 10,
    ensures
        r@ == seq![digit_char(d as int)],
{
    if d == 0 {
        proof {
            reveal_strlit("0");
        }
        "0"
    } else if d == 1 {
        proof {
            reveal_strlit("1");
        }
        "1"
    } else if d == 2 {
        proof {
            reveal_strlit("2");
        }
        "2"
    } else if d == 3 {
        proof {
            reveal_strlit("3");
        }
        "3"
    } else if d == 4 {
        proof {
            reveal_strlit("4");
        }
        "4"
    } else if d == 5 {
        proof {
            reveal_strlit("5");
        }
        "5"
    } else if d == 6 {
        proof {
            reveal_strlit("6");
        }
        "6"
    } else if d == 7 {
        proof {
            reveal_strlit("7");
        }
        "7"
    } else if d == 8 {
        proof {
            reveal_strlit("8");
        }
        "8"
    } else {
        proof {
            reveal_strlit("9");
        }
        "9"
    }
}

/// Append `n` to `s`, zero-padded to two digits.
fn push_two_digits(s: &mut String, n: u16)
    requires
        n < 100,
    ensures
        final(s)@ == old(s)@ + two_digits(n),
{
    s.append(digit_str(n / 10));
    s.append(digit_str(n % 10));
    assert(s@ =~= old(s)@ + two_digits(n));
}

/// The `NN_label` form of a number and a label.
fn render_dir_name(number: u16, label: &String) -> (r: String)
    requires
        number < 100,
    ensures
        r@ == dir_name(number, label@),
{
    let mut s = String::new();
    push_two_digits(&mut s, number);
    proof {
        reveal_strlit("_");
    }
    s.append("_");
    s.append(label.as_str());
    assert(s@ =~= dir_name(number, label@));
    s
}

impl ExerciseDefinition {
    /// The chapter's directory name, `NN_name` with the number zero-padded.
    /// It is also the chapter's key in the progress store.
    pub fn chapter(&self) -> (r: String)
        ensures
            r@ == self@.chapter_dir(),
    {
        proof {
            use_type_invariant(self);
        }
        render_dir_name(self.chapter_number, &self.chapter_name)
    }

    /// The exercise's directory name, `NN_name` with the number zero-padded.
    /// It is also the exercise's key in the progress store.
    pub fn exercise(&self) -> (r: String)
        ensures
            r@ == self@.exercise_dir(),
    {
        proof {
            use_type_invariant(self);
        }
        render_dir_name(self.number, &self.name)
    }

    /// The directory of this exercise under the collection root
    /// `exercises_dir`: `exercises_dir/NN_chapter/NN_exercise`.
    pub fn manifest_folder_path(&self, exercises_dir: &str) -> (r: String)
        ensures
            r@ == self@.folder_in(exercises_dir@),
    {
        let chapter = self.chapter();
        let exercise = self.exercise();
        let chapter_path = join(exercises_dir, chapter.as_str());
        join(chapter_path.as_str(), exercise.as_str())
    }

    /// The path of the `Cargo.toml` manifest of this exercise.
    pub fn manifest_path(&self, exercises_dir: &str) -> (r: String)
        ensures
            r@ == self@.manifest_in(exercises_dir@),
    {
        let folder = self.manifest_folder_path(exercises_dir);
        join(folder.as_str(), "Cargo.toml")
    }

    /// The number of this exercise within its chapter.
    pub fn exercise_number(&self) -> (r: u16)
        ensures
            r == self@.number,
    {
        self.number
    }

    /// The number of the chapter that contains this exercise.
    pub fn chapter_number(&self) -> (r: u16)
        ensures
            r == self@.chapter_number,
    {
        self.chapter_number
    }

    /// A human-readable form: `(CC) chapter_name - (EE) exercise_name`.
    pub fn to_string(&self) -> (r: String)
        ensures
            r@ == self@.display(),
    {
        proof {
            use_type_invariant(self);
            reveal_strlit("(");
            reveal_strlit(") ");
            reveal_strlit(" - (");
        }
        let mut s = String::new();
        s.append("(");
        push_two_digits(&mut s, self.chapter_number);
        s.append(") ");
        s.append(self.chapter_name.as_str());
        s.append(" - (");
        push_two_digits(&mut s, self.number);
        s.append(") ");
        s.append(self.name.as_str());
        assert(s@ =~= self@.display());
        s
    }

    /// Whether `self` comes strictly before `other` in the curriculum.
    pub fn precedes(&self, other: &ExerciseDefinition) -> (r: bool)
        ensures
            r == self@.precedes(other@),
    {
        self.chapter_number < other.chapter_number || (self.chapter_number == other.chapter_number
            && self.number < other.number)
    }

    /// Whether both identifiers stand at the same place of the curriculum.
    pub fn same_position(&self, other: &ExerciseDefinition) -> (r: bool)
        ensures
            r == self@.same_position(other@),
    {
        self.chapter_number == other.chapter_number && self.number == other.number
    }
}

impl Clone for ExerciseDefinition {
    fn clone(&self) -> (r: Self)
        ensures
            r@ == self@,
    {
        proof {
            use_type_invariant(self);
        }
        ExerciseDefinition {
            chapter_name: self.chapter_name.clone(),
            chapter_number: self.chapter_number,
            name: self.name.clone(),
            number: self.number,
        }
    }
}

impl PartialEq for ExerciseDefinition {
    fn eq(&self, other: &ExerciseDefinition) -> (r: bool) {
        self.chapter_number == other.chapter_number && self.number == other.number
            && self.chapter_name == other.chapter_name && self.name == other.name
    }
}

impl vstd::std_specs::cmp::PartialEqSpecImpl for ExerciseDefinition {
    open spec fn obeys_eq_spec() -> bool {
        true
    }

    open spec fn eq_spec(&self, other: &ExerciseDefinition) -> bool {
        self@ == other@
    }
}

impl Eq for ExerciseDefinition {}

impl PartialOrd for ExerciseDefinition {
    fn partial_cmp(&self, other: &ExerciseDefinition) -> (r: Option<Ordering>) {
        if self.precedes(other) {
            Some(Ordering::Less)
        } else if self.same_position(other) {
            Some(Ordering::Equal)
        } else {
            Some(Ordering::Greater)
        }
    }
}

impl vstd::std_specs::cmp::PartialOrdSpecImpl for ExerciseDefinition {
    open spec fn obeys_partial_cmp_spec() -> bool {
        true
    }

    open spec fn partial_cmp_spec(&self, other: &ExerciseDefinition) -> Option<Ordering> {
        Some(position_cmp(self@, other@))
    }
}

proof fn lemma_digit_round_trip(c: char)
    requires
        is_ascii_digit(c),
    ensures
        0 <= digit_value(c) < 10,
        digit_char(digit_value(c)) == c,
{
}

/// Parsing a chapter and an exercise directory name of the form `NN_label`
/// and rendering the identifier again gives back the very same two names.
pub proof fn lemma_parse_then_render(chapter_dir: Seq<char>, exercise_dir: Seq<char>)
    requires
        is_dir_name(chapter_dir),
        is_dir_name(exercise_dir),
    ensures
        definition_of(chapter_dir, exercise_dir).valid(),
        definition_of(chapter_dir, exercise_dir).chapter_dir() == chapter_dir,
        definition_of(chapter_dir, exercise_dir).exercise_dir() == exercise_dir,
{
    lemma_dir_name_round_trip(chapter_dir);
    lemma_dir_name_round_trip(exercise_dir);
}

proof fn lemma_dir_name_round_trip(s: Seq<char>)
    requires
        is_dir_name(s),
    ensures
        dir_number(s) < 100,
        dir_name(dir_number(s), dir_label(s)) == s,
{
    lemma_digit_round_trip(s[0]);
    lemma_digit_round_trip(s[1]);
    let n = dir_number(s);
    assert(n as int / 10 == digit_value(s[0]));
    assert(n as int % 10 == digit_value(s[1]));
    assert(dir_name(n, dir_label(s)) =~= s);
}

/// Rendering a valid identifier and parsing the two names gives back the
/// identifier.
pub proof fn lemma_render_then_parse(d: DefinitionView)
    requires
        d.valid(),
    ensures
        is_dir_name(d.chapter_dir()),
        is_dir_name(d.exercise_dir()),
        definition_of(d.chapter_dir(), d.exercise_dir()) == d,
{
    lemma_label_round_trip(d.chapter_number, d.chapter_name);
    lemma_label_round_trip(d.number, d.name);
}

proof fn lemma_label_round_trip(n: u16, label: Seq<char>)
    requires
        n < 100,
        is_label(label),
    ensures
        is_dir_name(dir_name(n, label)),
        dir_number(dir_name(n, label)) == n,
        dir_label(dir_name(n, label)) == label,
{
    let s = dir_name(n, label);
    assert(s[0] == digit_char(n as int / 10));
    assert(s[1] == digit_char(n as int % 10));
    assert(dir_label(s) =~= label);
}

/// The curriculum order is a strict total order on positions: irreflexive,
/// asymmetric, transitive, and any two identifiers are either at the same
/// position or one precedes the other. It reads the chapter and exercise
/// numbers alone, so identifiers that differ only in their names are ordered
/// alike.
pub proof fn lemma_order_strict_total(a: DefinitionView, b: DefinitionView, c: DefinitionView)
    ensures
        !a.precedes(a),
        a.precedes(b) ==> !b.precedes(a),
        a.precedes(b) && b.precedes(c) ==> a.precedes(c),
        a.precedes(b) || b.precedes(a) || a.same_position(b),
        a.same_position(b) ==> !a.precedes(b) && !b.precedes(a),
        a.same_position(b) ==> (a.precedes(c) <==> b.precedes(c)) && (c.precedes(a)
            <==> c.precedes(b)),
        position_cmp(a, b) == Ordering::Less <==> a.precedes(b),
        position_cmp(a, b) == Ordering::Equal <==> a.same_position(b),
        position_cmp(a, b) == Ordering::Greater <==> b.precedes(a),
{
}

} // verus!

//! Discovery: from the (chapter directory, entry) name pairs found under the
//! collection root to the ordered set of exercises they denote.
use vstd::prelude::*;

use crate::definition::{definition_of, is_dir_name, DefinitionView, ExerciseDefinition};

verus! {

/// Both names of an entry are of the form `NN_label`.
pub open spec fn entry_valid(entry: (String, String)) -> bool {
    is_dir_name(entry.0@) && is_dir_name(entry.1@)
}

/// The identifier that an entry denotes, when it is valid.
pub open spec fn entry_definition(entry: (String, String)) -> DefinitionView {
    definition_of(entry.0@, entry.1@)
}

/// Entry `j` is valid and no valid entry before it stands at its position.
pub open spec fn first_at_position(entries: Seq<(String, String)>, j: int) -> bool {
    &&& 0 <= j < entries.len()
    &&& entry_valid(entries[j])
    &&& forall|k: int|
        0 <= k < j && entry_valid(#[trigger] entries[k]) ==> !entry_definition(
            entries[k],
        ).same_position(entry_definition(entries[j]))
}

/// Each identifier precedes every later one: ascending, and no two at the
/// same position.
pub open spec fn strictly_ascending(s: Seq<ExerciseDefinition>) -> bool {
    forall|i: int, j: int| 0 <= i < j < s.len() ==> (#[trigger] s[i])@.precedes((#[trigger] s[j])@)
}

/// What discovery yields for a list of entries: one identifier for each
/// position that some valid entry occupies, taken from the first such entry,
/// in ascending order. Invalid entries are left out.
pub open spec fn discovered_from(
    entries: Seq<(String, String)>,
    r: Seq<ExerciseDefinition>,
) -> bool {
    &&& strictly_ascending(r)
    &&& forall|i: int| 0 <= i < r.len() ==> from_first_entry(entries, (#[trigger] r[i])@)
    &&& forall|j: int|
        0 <= j < entries.len() && entry_valid(#[trigger] entries[j]) ==> covered(
            r,
            entry_definition(entries[j]),
        )
}

/// Some valid entry, the first at its position, denotes `x`.
pub open spec fn from_first_entry(entries: Seq<(String, String)>, x: DefinitionView) -> bool {
    exists|j: int| first_at_position(entries, j) && x == entry_definition(entries[j])
}

/// Some element of `r` stands at the position of `x`.
pub open spec fn covered(r: Seq<ExerciseDefinition>, x: DefinitionView) -> bool {
    exists|i: int| 0 <= i < r.len() && (#[trigger] r[i])@.same_position(x)
}

/// Discovery keeps what parses and nothing else: an entry whose names are not
/// both of the form `NN_label` never contributes an identifier, and every
/// valid entry that is the first at its position is returned as it is, so
/// valid siblings of malformed entries are all kept.
pub proof fn lemma_discovery_keeps_valid_entries(
    entries: Seq<(String, String)>,
    r: Seq<ExerciseDefinition>,
)
    requires
        discovered_from(entries, r),
    ensures
        forall|j: int|
            0 <= j < entries.len() && !entry_valid(#[trigger] entries[j]) ==> !first_at_position(
                entries,
                j,
            ),
        forall|j: int|
            #![trigger first_at_position(entries, j)]
            first_at_position(entries, j) ==> exists|i: int|
                0 <= i < r.len() && (#[trigger] r[i])@ == entry_definition(entries[j]),
{
    assert forall|j: int| #![trigger first_at_position(entries, j)]
        first_at_position(entries, j) implies exists|i: int|
        0 <= i < r.len() && (#[trigger] r[i])@ == entry_definition(entries[j]) by {
        assert(entry_valid(entries[j]));
        assert(covered(r, entry_definition(entries[j])));
        let i = choose|i: int|
            0 <= i < r.len() && (#[trigger] r[i])@.same_position(entry_definition(entries[j]));
        assert(from_first_entry(entries, r[i]@));
        let k = choose|k: int| first_at_position(entries, k) && r[i]@ == entry_definition(entries[k]);
        if k < j {
            assert(entry_valid(entries[k]));
        } else if j < k {
            assert(entry_valid(entries[j]));
        }
    }
}

/// Some valid entry before `j` is the first at its position and denotes `x`.
spec fn witnessed(entries: Seq<(String, String)>, j: int, x: DefinitionView) -> bool {
    exists|k: int| 0 <= k < j && first_at_position(entries, k) && x == entry_definition(entries[k])
}

/// Insert `d` at its place in a strictly ascending vector, unless an element
/// already stands at its position.
fn insert_at_position(r: &mut Vec<ExerciseDefinition>, d: ExerciseDefinition) -> (inserted: bool)
    requires
        strictly_ascending(old(r)@),
    ensures
        strictly_ascending(final(r)@),
        inserted == !covered(old(r)@, d@),
        !inserted ==> final(r)@ == old(r)@,
        forall|x: ExerciseDefinition|
            final(r)@.contains(x) <==> (old(r)@.contains(x) || (inserted && x == d)),
{
    let mut i: usize = 0;
    while i < r.len() && r[i].precedes(&d)
        invariant
            i <= r@.len(),
            r@ == old(r)@,
            forall|m: int| 0 <= m < i ==> (#[trigger] r@[m])@.precedes(d@),
        decreases r@.len() - i,
    {
        i = i + 1;
    }
    if i < r.len() && r[i].same_position(&d) {
        return false;
    }
    proof {
        assert forall|m: int| 0 <= m < r@.len() implies !(#[trigger] r@[m])@.same_position(d@) by {
            if m > i {
                assert(r@[i as int]@.precedes(r@[m]@));
            }
        }
    }
    let ghost old_r = r@;
    r.insert(i, d);
    proof {
        assert forall|a: int, b: int| 0 <= a < b < r@.len() implies (#[trigger] r@[a])@.precedes(
            (#[trigger] r@[b])@,
        ) by {
            if b < i {
                assert(old_r[a]@.precedes(old_r[b]@));
            } else if b == i {
                assert(old_r[a]@.precedes(d@));
            } else if a < i {
                assert(old_r[a]@.precedes(d@));
                assert(!old_r[i as int]@.precedes(d@));
            } else if a == i {
                assert(!old_r[i as int]@.precedes(d@));
                assert(!old_r[i as int]@.same_position(d@));
                if b - 1 > i {
                    assert(old_r[i as int]@.precedes(old_r[b - 1]@));
                }
            } else {
                assert(old_r[a - 1]@.precedes(old_r[b - 1]@));
            }
        }
        assert forall|x: ExerciseDefinition|
            r@.contains(x) <==> (old_r.contains(x) || x == d) by {
            if r@.contains(x) {
                let m = choose|m: int| 0 <= m < r@.len() && r@[m] == x;
                if m < i {
                    assert(old_r[m] == x);
                } else if m > i {
                    assert(old_r[m - 1] == x);
                }
            }
            if old_r.contains(x) {
                let m = choose|m: int| 0 <= m < old_r.len() && old_r[m] == x;
                if m < i {
                    assert(r@[m] == x);
                } else {
                    assert(r@[m + 1] == x);
                }
                assert(r@.contains(x));
            }
            if x == d {
                assert(r@[i as int] == x);
                assert(r@.contains(x));
            }
        }
        assert(old_r == old(r)@);
        assert(forall|x: ExerciseDefinition| r@.contains(x) <==> (old(r)@.contains(x) || x == d));
    }
    true
}

/// Parse every (chapter directory name, entry name) pair and collect the
/// identifiers in ascending order, one per position. Pairs that do not parse
/// are dropped; where two pairs stand at the same position, the first wins.
pub fn discover(entries: &Vec<(String, String)>) -> (r: Vec<ExerciseDefinition>)
    ensures
        discovered_from(entries@, r@),
{
    let mut r: Vec<ExerciseDefinition> = Vec::new();
    let mut j: usize = 0;
    while j < entries.len()
        invariant
            j <= entries@.len(),
            strictly_ascending(r@),
            forall|i: int| 0 <= i < r@.len() ==> witnessed(entries@, j as int, (#[trigger] r@[i])@),
            forall|k: int|
                0 <= k < j && entry_valid(#[trigger] entries@[k]) ==> covered(
                    r@,
                    entry_definition(entries@[k]),
                ),
        decreases entries@.len() - j,
    {
        let ghost old_r = r@;
        let entry = &entries[j];
        match ExerciseDefinition::new(entry.0.as_str(), entry.1.as_str()) {
            Err(_) => {},
            Ok(d) => {
                let inserted = insert_at_position(&mut r, d);
                proof {
                    if inserted {
                        assert(first_at_position(entries@, j as int)) by {
                            assert forall|k: int|
                                0 <= k < j && entry_valid(
                                    #[trigger] entries@[k],
                                ) implies !entry_definition(entries@[k]).same_position(
                                entry_definition(entries@[j as int]),
                            ) by {
                                assert(covered(old_r, entry_definition(entries@[k])));
                                let w = choose|w: int|
                                    0 <= w < old_r.len() && (#[trigger] old_r[w])@.same_position(
                                        entry_definition(entries@[k]),
                                    );
                            }
                        }
                    }
                    assert forall|i: int| 0 <= i < r@.len() implies witnessed(
                        entries@,
                        j + 1,
                        (#[trigger] r@[i])@,
                    ) by {
                        assert(r@.contains(r@[i]));
                        if old_r.contains(r@[i]) {
                            let m = choose|m: int| 0 <= m < old_r.len() && old_r[m] == r@[i];
                            assert(witnessed(entries@, j as int, old_r[m]@));
                            let k = choose|k: int|
                                0 <= k < j && first_at_position(entries@, k) && old_r[m]@
                                    == entry_definition(entries@[k]);
                            assert(0 <= k < j + 1);
                        } else {
                            assert(r@[i] == d);
                            assert(0 <= j < j + 1 && first_at_position(entries@, j as int) && r@[i]@
                                == entry_definition(entries@[j as int]));
                        }
                    }
                    assert forall|k: int|
                        0 <= k < j + 1 && entry_valid(#[trigger] entries@[k]) implies covered(
                        r@,
                        entry_definition(entries@[k]),
                    ) by {
                        if k == j {
                            if !inserted {
                            } else {
                                assert(r@.contains(d));
                                let w = choose|w: int| 0 <= w < r@.len() && r@[w] == d;
                                assert(r@[w]@.same_position(entry_definition(entries@[k])));
                            }
                        } else {
                            let w = choose|w: int|
                                0 <= w < old_r.len() && (#[trigger] old_r[w])@.same_position(
                                    entry_definition(entries@[k]),
                                );
                            assert(old_r.contains(old_r[w]));
                            assert(r@.contains(old_r[w]));
                            let v = choose|v: int| 0 <= v < r@.len() && r@[v] == old_r[w];
                            assert(r@[v]@.same_position(entry_definition(entries@[k])));
                        }
                    }
                }
            },
        }
        proof {
            assert forall|i: int| 0 <= i < r@.len() implies witnessed(
                entries@,
                j + 1,
                (#[trigger] r@[i])@,
            ) by {
                if witnessed(entries@, j as int, r@[i]@) {
                    let k = choose|k: int|
                        0 <= k < j && first_at_position(entries@, k) && r@[i]@ == entry_definition(
                            entries@[k],
                        );
                    assert(0 <= k < j + 1);
                }
            }
        }
        j = j + 1;
    }
    proof {
        assert forall|i: int| 0 <= i < r@.len() implies from_first_entry(
            entries@,
            (#[trigger] r@[i])@,
        ) by {
            assert(witnessed(entries@, j as int, r@[i]@));
        }
    }
    r
}

} // verus!

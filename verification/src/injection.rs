//! The CSV-injection guard: a predicate on one field value.

use vstd::prelude::*;

verus! {

/// A character that makes a spreadsheet program read the field as a formula.
pub open spec fn is_formula_trigger(c: char) -> bool {
    c == '=' || c == '+' || c == '-' || c == '@'
}

/// Whitespace that the guard looks past at the start of a field: space, tab,
/// line feed and carriage return.
pub open spec fn is_leading_space(c: char) -> bool {
    c == ' ' || c == '\t' || c == '\n' || c == '\r'
}

/// True when `i` is the place of a formula trigger with nothing but leading
/// whitespace before it.
pub open spec fn is_trigger_at(field: Seq<char>, i: int) -> bool {
    &&& 0 <= i < field.len()
    &&& is_formula_trigger(field[i])
    &&& forall|j: int| 0 <= j < i ==> is_leading_space(#[trigger] field[j])
}

/// A field is risky when its first character that is not leading whitespace
/// is a formula trigger. Policy: leading whitespace is skipped, because
/// spreadsheet programs that trim a cell would otherwise still see the
/// formula. A field of whitespace only, or an empty one, is not risky.
pub open spec fn is_risky_spec(field: Seq<char>) -> bool {
    exists|i: int| is_trigger_at(field, i)
}

/// Decides whether `c` is a formula trigger.
pub fn formula_trigger(c: char) -> (yes: bool)
    ensures
        yes == is_formula_trigger(c),
{
    c == '=' || c == '+' || c == '-' || c == '@'
}

/// Decides whether `c` is whitespace that the guard skips.
pub fn leading_space(c: char) -> (yes: bool)
    ensures
        yes == is_leading_space(c),
{
    c == ' ' || c == '\t' || c == '\n' || c == '\r'
}

/// Tells whether `field` would be read as a formula: whether its first
/// character, leading whitespace aside, is one of `=`, `+`, `-`, `@`. Reads
/// the field only; what to do with a risky field is the caller's choice.
pub fn is_risky(field: &str) -> (risky: bool)
    ensures
        risky == is_risky_spec(field@),
{
    broadcast use vstd::string::group_string_axioms;

    for c in it: field.chars()
        invariant
            it.seq() == field@,
            forall|j: int| 0 <= j < it.index() ==> is_leading_space(#[trigger] field@[j]),
    {
        if !leading_space(c) {
            let risky = formula_trigger(c);
            proof {
                let at = it.index();
                if risky {
                    assert(is_trigger_at(field@, at));
                } else {
                    assert forall|i: int| !is_trigger_at(field@, i) by {
                        if 0 <= i < at {
                            assert(is_leading_space(field@[i]));
                        } else if at < i < field@.len() {
                            assert(!is_leading_space(field@[at]));
                        }
                    }
                }
            }
            return risky;
        }
    }
    proof {
        assert forall|i: int| !is_trigger_at(field@, i) by {
            if 0 <= i < field@.len() {
                assert(is_leading_space(field@[i]));
            }
        }
    }
    false
}

/// The guard decides on the first character that is not leading whitespace:
/// the empty field is safe, a leading trigger is risky, leading whitespace
/// is looked past, and any other first character makes the field safe
/// whatever follows.
pub proof fn lemma_risky_by_first_char(field: Seq<char>)
    ensures
        field.len() == 0 ==> !is_risky_spec(field),
        field.len() > 0 && is_formula_trigger(field[0]) ==> is_risky_spec(field),
        field.len() > 0 && is_leading_space(field[0]) ==> is_risky_spec(field) == is_risky_spec(
            field.drop_first(),
        ),
        field.len() > 0 && !is_formula_trigger(field[0]) && !is_leading_space(field[0])
            ==> !is_risky_spec(field),
{
    if field.len() > 0 {
        let rest = field.drop_first();
        if is_formula_trigger(field[0]) {
            assert(is_trigger_at(field, 0));
        } else if is_leading_space(field[0]) {
            if is_risky_spec(field) {
                let i = choose|i: int| is_trigger_at(field, i);
                assert(is_trigger_at(rest, i - 1)) by {
                    assert forall|j: int| 0 <= j < i - 1 implies is_leading_space(
                        #[trigger] rest[j],
                    ) by {
                        assert(is_leading_space(field[j + 1]));
                    }
                }
            }
            if is_risky_spec(rest) {
                let i = choose|i: int| is_trigger_at(rest, i);
                assert(is_trigger_at(field, i + 1)) by {
                    assert forall|j: int| 0 <= j < i + 1 implies is_leading_space(
                        #[trigger] field[j],
                    ) by {
                        if j > 0 {
                            assert(is_leading_space(rest[j - 1]));
                        }
                    }
                }
            }
        } else {
            assert forall|i: int| !is_trigger_at(field, i) by {
                if 0 < i < field.len() {
                    assert(!is_leading_space(field[0]));
                }
            }
        }
    }
}

} // verus!

use vstd::prelude::*;

use crate::codec::{entry_fits, Shape};
use crate::error::{first_failure, PATTERN_MISMATCH, TOO_LONG, TOO_SHORT};
use crate::facet::{
    anchored, lemma_same_rules_outcome, length_outcome, regex_compiles, regex_finds,
    scalar_outcome, Facet, Scalar,
};
use crate::field::{
    items_outcome, lemma_items_first, lemma_members_first, members_outcome, Field, Member,
};
use crate::registry::Document;

verus! {

/// Length bounds on a text scalar: it passes exactly when its number of code
/// points lies between the bounds, inclusive; below the minimum it fails with
/// `TOO_SHORT`, and at or above the minimum but over the maximum with
/// `TOO_LONG`.
pub proof fn law_length_bounds(facets: Vec<Facet>, text: String, min: usize, max: usize)
    requires
        facets@ == seq![Facet::LengthBounds { min, max }],
    ensures
        ({
            let o = (Field::Scalar { value: Scalar::Text(text), facets }).outcome();
            &&& o is Ok <==> (min <= text@.len() && text@.len() <= max)
            &&& text@.len() < min ==> o == Err::<(), u32>(TOO_SHORT)
            &&& (min <= text@.len() && text@.len() > max) ==> o == Err::<(), u32>(TOO_LONG)
            &&& o == length_outcome(text@, min as nat, max as nat)
        }),
{
    let v = Scalar::Text(text);
    let s = facets@.map_values(|f: Facet| f.outcome(v));
    assert(s.len() == 1);
    assert(s[0] == facets@[0].outcome(v));
    assert(s.drop_first().len() == 0);
    assert(first_failure(s.drop_first()) == Ok::<(), u32>(()));
    assert(first_failure(s) == s[0]);
}

/// Declared-order fail-fast in a composite: once a member fails, the
/// composite fails with the outcome of that member or of one declared before
/// it, never of one declared after; where every earlier member passes, it
/// fails with exactly that member's outcome.
pub proof fn law_composite_declared_order(members: Vec<Member>, a: int)
    requires
        0 <= a < members@.len(),
        members@[a].field.outcome() is Err,
    ensures
        (Field::Composite(members)).outcome() is Err,
        exists|j: int|
            0 <= j <= a && (Field::Composite(members)).outcome() == (#[trigger] members@[j]).field.outcome(),
        (forall|j: int| 0 <= j < a ==> (#[trigger] members@[j]).field.outcome() is Ok) ==> (
        Field::Composite(members)).outcome() == members@[a].field.outcome(),
{
    lemma_members_fail_by(members@, 0, a);
    if forall|j: int| 0 <= j < a ==> (#[trigger] members@[j]).field.outcome() is Ok {
        lemma_members_first(members@, 0, a);
    }
}

proof fn lemma_members_fail_by(members: Seq<Member>, i: int, a: int)
    requires
        0 <= i <= a < members.len(),
        members[a].field.outcome() is Err,
    ensures
        members_outcome(members, i) is Err,
        exists|j: int| i <= j <= a && members_outcome(members, i) == (#[trigger] members[j]).field.outcome(),
    decreases a - i,
{
    if members[i].field.outcome() is Err {
        assert(members_outcome(members, i) == members[i].field.outcome());
    } else {
        lemma_members_fail_by(members, i + 1, a);
        let j = choose|j: int|
            i + 1 <= j <= a && members_outcome(members, i + 1) == (#[trigger] members[j]).field.outcome();
        assert(members_outcome(members, i) == members[j].field.outcome());
    }
}

/// Fail-fast across a repeated field: where element `k` is the first invalid
/// one, the field fails with element `k`'s outcome, whatever its length.
pub proof fn law_repeated_first_invalid(min: usize, items: Vec<Field>, k: int)
    requires
        items@.len() >= min,
        0 <= k < items@.len(),
        forall|j: int| 0 <= j < k ==> (#[trigger] items@[j]).outcome() is Ok,
        items@[k].outcome() is Err,
    ensures
        (Field::Repeated { min, items }).outcome() == items@[k].outcome(),
{
    lemma_items_first(items@, 0, k);
}

/// Two repeated fields that agree up to and including their first invalid
/// element `k` fail alike, whatever follows it.
pub proof fn law_repeated_independent_of_length(
    min: usize,
    a: Vec<Field>,
    b: Vec<Field>,
    k: int,
)
    requires
        a@.len() >= min,
        b@.len() >= min,
        0 <= k < a@.len(),
        k < b@.len(),
        a@.subrange(0, k + 1) == b@.subrange(0, k + 1),
        forall|j: int| 0 <= j < k ==> (#[trigger] a@[j]).outcome() is Ok,
        a@[k].outcome() is Err,
    ensures
        (Field::Repeated { min, items: a }).outcome() == (Field::Repeated { min, items: b }).outcome(),
{
    assert forall|j: int| 0 <= j <= k implies #[trigger] b@[j] == a@[j] by {
        assert(a@.subrange(0, k + 1)[j] == a@[j]);
        assert(b@.subrange(0, k + 1)[j] == b@[j]);
    }
    lemma_items_first(a@, 0, k);
    lemma_items_first(b@, 0, k);
}

/// A choice holds only its populated alternative, and its outcome is that
/// alternative's: no other alternative takes part in its validation.
pub proof fn law_choice_populated_only(alternative: Box<Member>)
    ensures
        (Field::Choice(alternative)).outcome() == alternative.field.outcome(),
{
}

} // verus!

verus! {

/// A pattern facet judges the whole text: a text passes exactly when the
/// pattern, anchored at both ends, compiles and matches it; any other text
/// fails with `PATTERN_MISMATCH`.
pub proof fn law_pattern_anchored(facets: Vec<Facet>, text: String, pattern: String)
    requires
        facets@ == seq![Facet::Pattern(pattern)],
    ensures
        (Field::Scalar { value: Scalar::Text(text), facets }).outcome() == (if regex_compiles(
            anchored(pattern@),
        ) && regex_finds(anchored(pattern@), text@) {
            Ok::<(), u32>(())
        } else {
            Err::<(), u32>(PATTERN_MISMATCH)
        }),
        anchored(pattern@) == "^(?:"@ + pattern@ + ")$"@,
{
    let v = Scalar::Text(text);
    let s = facets@.map_values(|f: Facet| f.outcome(v));
    assert(s.len() == 1);
    assert(s[0] == facets@[0].outcome(v));
    assert(s.drop_first().len() == 0);
    assert(first_failure(s.drop_first()) == Ok::<(), u32>(()));
    assert(first_failure(s) == s[0]);
}

} // verus!

verus! {

/// A generic record determines the document it holds: two documents that
/// match one record are of one shape and hold the same values. With the
/// contracts of `into_field` and `from_field`, building a document back from
/// the record of a document gives that document again.
pub proof fn law_record_determines_document(a: Document, b: Document, f: Field)
    requires
        a.matches_field(f),
        b.matches_field(f),
        a.spec_document_type() == b.spec_document_type(),
    ensures
        a.same_values(&b),
{
}

} // verus!

verus! {

/// A scalar that fits a text or number shape, such as one that `decode`
/// returns, validates exactly as the shape's own facets judge its value.
pub proof fn law_decoded_scalar_uses_schema_facets(f: Field, shape: Shape)
    requires
        entry_fits(f, shape),
        shape is Text || shape is Number,
    ensures
        f.outcome() == scalar_outcome(
            (if shape is Text {
                shape->Text_0
            } else {
                shape->Number_0
            })@,
            f->Scalar_value,
        ),
{
    let declared = if shape is Text {
        shape->Text_0
    } else {
        shape->Number_0
    };
    lemma_same_rules_outcome(f->Scalar_facets@, declared@, f->Scalar_value);
}

} // verus!

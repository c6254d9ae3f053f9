//! The combinators that a document shape is written with: each checks one
//! child of a record and reports its outcome.
use vstd::prelude::*;
use vstd::string::StringExecFns;

use crate::error::{agrees, ValidationError, CARDINALITY};
use crate::facet::{length_outcome, pattern_outcome, Facet, Scalar};
use crate::error::first_failure;
use crate::field::{items_outcome, lemma_items_first, lemma_items_none, members_outcome, Field, Member};

verus! {

pub open spec fn text_outcome(text: String, min: usize, max: usize) -> Result<(), u32> {
    length_outcome(text@, min as nat, max as nat)
}

pub open spec fn optional_text_outcome(text: Option<String>, min: usize, max: usize) -> Result<
    (),
    u32,
> {
    match text {
        Some(t) => text_outcome(t, min, max),
        None => Ok(()),
    }
}

pub open spec fn optional_pattern_outcome(text: Option<String>, pattern: Seq<char>) -> Result<
    (),
    u32,
> {
    match text {
        Some(t) => pattern_outcome(pattern, t@),
        None => Ok(()),
    }
}

pub open spec fn optional_outcome(child: Option<Field>) -> Result<(), u32> {
    match child {
        Some(f) => f.outcome(),
        None => Ok(()),
    }
}

pub open spec fn all_outcome(items: Vec<Field>) -> Result<(), u32> {
    items_outcome(items@, 0)
}

pub open spec fn optional_all_outcome(items: Option<Vec<Field>>) -> Result<(), u32> {
    match items {
        Some(v) => all_outcome(v),
        None => Ok(()),
    }
}

/// Checks a text against inclusive length bounds.
pub fn check_text(text: &String, min: usize, max: usize) -> (r: Result<(), ValidationError>)
    ensures
        agrees(r, text_outcome(*text, min, max)),
{
    Facet::LengthBounds { min, max }.evaluate(&Scalar::Text(text.clone()))
}

/// Checks a text, where present, against inclusive length bounds.
pub fn check_optional_text(text: &Option<String>, min: usize, max: usize) -> (r: Result<
    (),
    ValidationError,
>)
    ensures
        agrees(r, optional_text_outcome(*text, min, max)),
{
    match text {
        Some(t) => check_text(t, min, max),
        None => Ok(()),
    }
}

/// Checks a text, where present, against a pattern that it must match whole.
pub fn check_optional_pattern(text: &Option<String>, pattern: &str) -> (r: Result<
    (),
    ValidationError,
>)
    ensures
        agrees(r, optional_pattern_outcome(*text, pattern@)),
{
    match text {
        Some(t) => Facet::Pattern(pattern.to_owned()).evaluate(&Scalar::Text(t.clone())),
        None => Ok(()),
    }
}

/// Validates a child, where present.
pub fn check_optional(child: &Option<Field>) -> (r: Result<(), ValidationError>)
    ensures
        agrees(r, optional_outcome(*child)),
{
    match child {
        Some(f) => f.validate(),
        None => Ok(()),
    }
}

/// Validates each element in order, stopping at the first failure.
pub fn check_all(items: &Vec<Field>) -> (r: Result<(), ValidationError>)
    ensures
        agrees(r, all_outcome(*items)),
{
    let mut i: usize = 0;
    while i < items.len()
        invariant
            i <= items@.len(),
            forall|j: int| 0 <= j < i ==> (#[trigger] items@[j]).outcome() is Ok,
        decreases items@.len() - i,
    {
        let r = items[i].validate();
        if r.is_err() {
            proof {
                lemma_items_first(items@, 0, i as int);
            }
            return r;
        }
        i += 1;
    }
    proof {
        lemma_items_none(items@, 0);
    }
    Ok(())
}

/// Validates each element in order, where the sequence is present.
pub fn check_optional_all(items: &Option<Vec<Field>>) -> (r: Result<(), ValidationError>)
    ensures
        agrees(r, optional_all_outcome(*items)),
{
    match items {
        Some(v) => check_all(v),
        None => Ok(()),
    }
}

/// The outcomes of the members of a record, in declared order.
pub open spec fn member_outcomes(members: Seq<Member>) -> Seq<Result<(), u32>> {
    members.map_values(|m: Member| m.field.outcome())
}

/// A record's outcome is the first failure among its members' outcomes.
pub proof fn lemma_members_first_failure(members: Seq<Member>, i: int)
    requires
        0 <= i <= members.len(),
    ensures
        members_outcome(members, i) == first_failure(
            member_outcomes(members).subrange(i, members.len() as int),
        ),
    decreases members.len() - i,
{
    let s = member_outcomes(members).subrange(i, members.len() as int);
    if i < members.len() {
        lemma_members_first_failure(members, i + 1);
        assert(s[0] == members[i].field.outcome());
        assert(s.drop_first() =~= member_outcomes(members).subrange(i + 1, members.len() as int));
    } else {
        assert(s.len() == 0);
    }
}

fn member(name: &str, tag: &str, field: Field) -> (m: Member)
    ensures
        m.name@ == name@,
        m.tag@ == tag@,
        m.field == field,
{
    Member { name: name.to_owned(), tag: tag.to_owned(), field }
}

fn bounded_text(text: String, min: usize, max: usize) -> (f: Field)
    ensures
        f.outcome() == text_outcome(text, min, max),
        text_in(text, f),
{
    let mut facets: Vec<Facet> = Vec::new();
    facets.push(Facet::LengthBounds { min, max });
    proof {
        assert(facets@ =~= seq![Facet::LengthBounds { min, max }]);
        crate::laws::law_length_bounds(facets, text, min, max);
    }
    Field::Scalar { value: Scalar::Text(text), facets }
}

/// A text child with inclusive length bounds.
pub fn text_member(name: &str, tag: &str, text: String, min: usize, max: usize) -> (m: Member)
    ensures
        m.name@ == name@,
        m.tag@ == tag@,
        m.field.outcome() == text_outcome(text, min, max),
        text_in(text, m.field),
{
    member(name, tag, bounded_text(text, min, max))
}

/// An optional text child with inclusive length bounds.
pub fn optional_text_member(
    name: &str,
    tag: &str,
    text: Option<String>,
    min: usize,
    max: usize,
) -> (m: Member)
    ensures
        m.name@ == name@,
        m.tag@ == tag@,
        m.field.outcome() == optional_text_outcome(text, min, max),
        optional_text_in(text, m.field),
{
    let inner = match text {
        Some(t) => Some(Box::new(bounded_text(t, min, max))),
        None => None,
    };
    member(name, tag, Field::Optional(inner))
}

/// An optional text child that must match a pattern whole.
pub fn optional_pattern_member(name: &str, tag: &str, text: Option<String>, pattern: &str) -> (m:
    Member)
    ensures
        m.name@ == name@,
        m.tag@ == tag@,
        m.field.outcome() == optional_pattern_outcome(text, pattern@),
        optional_text_in(text, m.field),
{
    let inner = match text {
        Some(t) => {
            let p = pattern.to_owned();
            let ghost pv = p;
            let mut facets: Vec<Facet> = Vec::new();
            facets.push(Facet::Pattern(p));
            proof {
                assert(facets@ =~= seq![Facet::Pattern(pv)]);
                crate::laws::law_pattern_anchored(facets, t, pv);
            }
            Some(Box::new(Field::Scalar { value: Scalar::Text(t), facets }))
        },
        None => None,
    };
    member(name, tag, Field::Optional(inner))
}

/// A flag child, which carries no check.
pub fn flag_member(name: &str, tag: &str, flag: bool) -> (m: Member)
    ensures
        m.name@ == name@,
        m.tag@ == tag@,
        m.field.outcome() == Ok::<(), u32>(()),
        flag_in(flag, m.field),
{
    let facets: Vec<Facet> = Vec::new();
    let f = Field::Scalar { value: Scalar::Flag(flag), facets };
    assert(crate::facet::facet_outcomes(facets@, Scalar::Flag(flag)).len() == 0);
    member(name, tag, f)
}

/// A required nested child.
pub fn child_member(name: &str, tag: &str, child: Field) -> (m: Member)
    ensures
        m.name@ == name@,
        m.tag@ == tag@,
        m.field.outcome() == child.outcome(),
        m.field == child,
{
    member(name, tag, child)
}

/// An optional nested child.
pub fn optional_member(name: &str, tag: &str, child: Option<Field>) -> (m: Member)
    ensures
        m.name@ == name@,
        m.tag@ == tag@,
        m.field.outcome() == optional_outcome(child),
        optional_in(child, m.field),
{
    let inner = match child {
        Some(f) => Some(Box::new(f)),
        None => None,
    };
    member(name, tag, Field::Optional(inner))
}

/// A repeated nested child.
pub fn all_member(name: &str, tag: &str, items: Vec<Field>) -> (m: Member)
    ensures
        m.name@ == name@,
        m.tag@ == tag@,
        m.field.outcome() == all_outcome(items),
        all_in(items, m.field),
{
    member(name, tag, Field::Repeated { min: 0, items })
}

/// A repeated nested child that may be absent as a whole.
pub fn optional_all_member(name: &str, tag: &str, items: Option<Vec<Field>>) -> (m: Member)
    ensures
        m.name@ == name@,
        m.tag@ == tag@,
        m.field.outcome() == optional_all_outcome(items),
        optional_all_in(items, m.field),
{
    let inner = match items {
        Some(v) => {
            let f = Field::Repeated { min: 0, items: v };
            assert(f.outcome() == items_outcome(v@, 0));
            Some(Box::new(f))
        },
        None => None,
    };
    member(name, tag, Field::Optional(inner))
}

/// A text child held as a scalar of that text.
pub open spec fn text_in(text: String, f: Field) -> bool {
    f is Scalar && f->Scalar_value is Text && f->Scalar_value->Text_0@ == text@
}

/// An optional text child: absent, or present as a scalar of that text.
pub open spec fn optional_text_in(text: Option<String>, f: Field) -> bool {
    f is Optional && match (text, f->Optional_0) {
        (None, None) => true,
        (Some(t), Some(b)) => text_in(t, *b),
        _ => false,
    }
}

/// A flag child held as a scalar of that flag.
pub open spec fn flag_in(flag: bool, f: Field) -> bool {
    f is Scalar && f->Scalar_value == Scalar::Flag(flag)
}

/// An optional nested child: absent, or present as that child.
pub open spec fn optional_in(child: Option<Field>, f: Field) -> bool {
    f is Optional && match (child, f->Optional_0) {
        (None, None) => true,
        (Some(c), Some(b)) => c == *b,
        _ => false,
    }
}

/// A repeated child held as that sequence of elements.
pub open spec fn all_in(items: Vec<Field>, f: Field) -> bool {
    f is Repeated && f->Repeated_items == items
}

/// A repeated child that may be absent as a whole.
pub open spec fn optional_all_in(items: Option<Vec<Field>>, f: Field) -> bool {
    f is Optional && match (items, f->Optional_0) {
        (None, None) => true,
        (Some(v), Some(b)) => all_in(v, *b),
        _ => false,
    }
}

/// Whether a tag is the given one.
pub fn tag_matches(tag: &String, expected: &str) -> (r: bool)
    ensures
        r == (tag@ == expected@),
{
    *tag == String::from_str(expected)
}

/// The text of a text scalar.
pub fn take_text(f: Field) -> (r: Option<String>)
    ensures
        match r {
            Some(t) => text_in(t, f),
            None => forall|t: String| !text_in(t, f),
        },
{
    match f {
        Field::Scalar { value: Scalar::Text(t), facets: _ } => Some(t),
        _ => None,
    }
}

/// The text, if any, of an optional text scalar.
pub fn take_optional_text(f: Field) -> (r: Option<Option<String>>)
    ensures
        match r {
            Some(t) => optional_text_in(t, f),
            None => forall|t: Option<String>| !optional_text_in(t, f),
        },
{
    match f {
        Field::Optional(None) => Some(None),
        Field::Optional(Some(b)) => match *b {
            Field::Scalar { value: Scalar::Text(t), facets: _ } => Some(Some(t)),
            _ => None,
        },
        _ => None,
    }
}

/// The flag of a flag scalar.
pub fn take_flag(f: Field) -> (r: Option<bool>)
    ensures
        match r {
            Some(b) => flag_in(b, f),
            None => forall|b: bool| !flag_in(b, f),
        },
{
    match f {
        Field::Scalar { value: Scalar::Flag(b), facets: _ } => Some(b),
        _ => None,
    }
}

/// The child, if any, of an optional field.
pub fn take_optional(f: Field) -> (r: Option<Option<Field>>)
    ensures
        match r {
            Some(c) => optional_in(c, f),
            None => forall|c: Option<Field>| !optional_in(c, f),
        },
{
    match f {
        Field::Optional(None) => Some(None),
        Field::Optional(Some(b)) => Some(Some(*b)),
        _ => None,
    }
}

/// The elements of a repeated field.
pub fn take_all(f: Field) -> (r: Option<Vec<Field>>)
    ensures
        match r {
            Some(v) => all_in(v, f),
            None => forall|v: Vec<Field>| !all_in(v, f),
        },
{
    match f {
        Field::Repeated { min: _, items } => Some(items),
        _ => None,
    }
}

/// The elements, if any, of an optional repeated field.
pub fn take_optional_all(f: Field) -> (r: Option<Option<Vec<Field>>>)
    ensures
        match r {
            Some(v) => optional_all_in(v, f),
            None => forall|v: Option<Vec<Field>>| !optional_all_in(v, f),
        },
{
    match f {
        Field::Optional(None) => Some(None),
        Field::Optional(Some(b)) => match *b {
            Field::Repeated { min: _, items } => Some(Some(items)),
            _ => None,
        },
        _ => None,
    }
}

} // verus!

verus! {

/// Two optional texts that are both absent, or both present with the same
/// content.
pub open spec fn same_optional_text(a: Option<String>, b: Option<String>) -> bool {
    match (a, b) {
        (None, None) => true,
        (Some(x), Some(y)) => x@ == y@,
        _ => false,
    }
}

} // verus!

use vstd::prelude::*;

use crate::error::{agrees, ValidationError, CARDINALITY};
use crate::facet::{evaluate_all, scalar_outcome, Facet, Scalar};

verus! {

/// A node of a document tree.
#[derive(Debug)]
pub enum Field {
    /// A primitive value with the facets it must meet, in declared order.
    Scalar { value: Scalar, facets: Vec<Facet> },
    /// A field that may be absent.
    Optional(Option<Box<Field>>),
    /// An ordered sequence of fields of one kind, with a minimum count.
    Repeated { min: usize, items: Vec<Field> },
    /// A record of named children in declared order.
    Composite(Vec<Member>),
    /// The one populated alternative of a choice.
    Choice(Box<Member>),
}

/// A named child of a composite, or the populated alternative of a choice.
#[derive(Debug)]
pub struct Member {
    /// Internal identifier of the field.
    pub name: String,
    /// External wire tag of the field.
    pub tag: String,
    pub field: Field,
}

impl Field {
    /// The outcome of validating this field: the first failure met in a walk
    /// of the tree in declared order, or success.
    pub open spec fn outcome(self) -> Result<(), u32>
        decreases self, 0int,
    {
        match self {
            Field::Scalar { value, facets } => scalar_outcome(facets@, value),
            Field::Optional(inner) => match inner {
                Some(f) => f.outcome(),
                None => Ok(()),
            },
            Field::Repeated { min, items } => if items@.len() < min {
                Err(CARDINALITY)
            } else {
                items_outcome(items@, 0)
            },
            Field::Composite(members) => members_outcome(members@, 0),
            Field::Choice(m) => m.field.outcome(),
        }
    }

    /// Validates this field, stopping at the first failure.
    pub fn validate(&self) -> (r: Result<(), ValidationError>)
        ensures
            agrees(r, self.outcome()),
        decreases self,
    {
        match self {
            Field::Scalar { value, facets } => evaluate_all(facets, value),
            Field::Optional(inner) => match inner {
                Some(f) => f.validate(),
                None => Ok(()),
            },
            Field::Repeated { min, items } => {
                if items.len() < *min {
                    return Err(ValidationError::of_code(CARDINALITY));
                }
                let mut i: usize = 0;
                while i < items.len()
                    invariant
                        self is Repeated,
                        self->Repeated_items == *items,
                        self.outcome() == items_outcome(items@, 0),
                        i <= items@.len(),
                        forall|j: int| 0 <= j < i ==> (#[trigger] items@[j]).outcome() is Ok,
                    decreases items@.len() - i,
                {
                    proof {
                        vstd::std_specs::vec::axiom_vec_index_decreases(*items, i as int);
                    }
                    let r = items[i].validate();
                    if r.is_err() {
                        proof {
                            lemma_items_first(items@, 0, i as int);
                        }
                        return r;
                    }
                    i += 1;
                }
                proof {
                    lemma_items_none(items@, 0);
                }
                Ok(())
            },
            Field::Composite(members) => {
                let mut i: usize = 0;
                while i < members.len()
                    invariant
                        self is Composite,
                        self->Composite_0 == *members,
                        self.outcome() == members_outcome(members@, 0),
                        i <= members@.len(),
                        forall|j: int| 0 <= j < i ==> (#[trigger] members@[j]).field.outcome() is Ok,
                    decreases members@.len() - i,
                {
                    proof {
                        vstd::std_specs::vec::axiom_vec_index_decreases(*members, i as int);
                    }
                    let r = members[i].field.validate();
                    if r.is_err() {
                        proof {
                            lemma_members_first(members@, 0, i as int);
                        }
                        return r;
                    }
                    i += 1;
                }
                proof {
                    lemma_members_none(members@, 0);
                }
                Ok(())
            },
            Field::Choice(m) => m.field.validate(),
        }
    }
}

/// The outcome of the items from position `i` on: that of the first one that
/// fails, or success.
pub open spec fn items_outcome(items: Seq<Field>, i: int) -> Result<(), u32>
    decreases items, items.len() - i,
{
    if 0 <= i < items.len() {
        if items[i].outcome() is Err {
            items[i].outcome()
        } else {
            items_outcome(items, i + 1)
        }
    } else {
        Ok(())
    }
}

/// The outcome of the members from position `i` on: that of the first one
/// whose field fails, or success.
pub open spec fn members_outcome(members: Seq<Member>, i: int) -> Result<(), u32>
    decreases members, members.len() - i,
{
    if 0 <= i < members.len() {
        if members[i].field.outcome() is Err {
            members[i].field.outcome()
        } else {
            members_outcome(members, i + 1)
        }
    } else {
        Ok(())
    }
}

pub proof fn lemma_items_first(items: Seq<Field>, i: int, k: int)
    requires
        0 <= i <= k < items.len(),
        forall|j: int| i <= j < k ==> (#[trigger] items[j]).outcome() is Ok,
        items[k].outcome() is Err,
    ensures
        items_outcome(items, i) == items[k].outcome(),
    decreases k - i,
{
    if i < k {
        lemma_items_first(items, i + 1, k);
    }
}

pub proof fn lemma_items_none(items: Seq<Field>, i: int)
    requires
        0 <= i <= items.len(),
        forall|j: int| i <= j < items.len() ==> (#[trigger] items[j]).outcome() is Ok,
    ensures
        items_outcome(items, i) is Ok,
    decreases items.len() - i,
{
    if i < items.len() {
        lemma_items_none(items, i + 1);
    }
}

pub proof fn lemma_members_first(members: Seq<Member>, i: int, k: int)
    requires
        0 <= i <= k < members.len(),
        forall|j: int| i <= j < k ==> (#[trigger] members[j]).field.outcome() is Ok,
        members[k].field.outcome() is Err,
    ensures
        members_outcome(members, i) == members[k].field.outcome(),
    decreases k - i,
{
    if i < k {
        lemma_members_first(members, i + 1, k);
    }
}

pub proof fn lemma_members_none(members: Seq<Member>, i: int)
    requires
        0 <= i <= members.len(),
        forall|j: int| i <= j < members.len() ==> (#[trigger] members[j]).field.outcome() is Ok,
    ensures
        members_outcome(members, i) is Ok,
    decreases members.len() - i,
{
    if i < members.len() {
        lemma_members_none(members, i + 1);
    }
}

} // verus!

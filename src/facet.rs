use vstd::prelude::*;
use vstd::string::{StrSliceExecFns, StringExecFns};

use crate::error::{
    agrees, first_failure, ValidationError, ABOVE_MAXIMUM, BELOW_MINIMUM, NOT_IN_ENUMERATION,
    PATTERN_MISMATCH, TOO_LONG, TOO_SHORT,
};

verus! {

/// A primitive value held by a scalar field.
#[derive(Debug, Clone)]
pub enum Scalar {
    Text(String),
    Flag(bool),
    Number(i64),
}

/// One validation rule attached to a scalar field.
///
/// A facet that does not apply to the kind of value it meets (a length bound
/// on a number, a range on text) holds vacuously.
#[derive(Debug, Clone)]
pub enum Facet {
    /// Inclusive bounds on the number of Unicode code points of a text.
    LengthBounds { min: usize, max: usize },
    /// A regular expression that the whole text must match. Patterns belong
    /// to the schema, so one that does not compile is a mistake in the
    /// schema; rather than stop, evaluation reports every text as failing it
    /// with `PATTERN_MISMATCH`.
    Pattern(String),
    /// The texts that a value may take.
    Enumeration(Vec<String>),
    /// Bounds on a number: inclusive, or exclusive on both ends.
    NumericRange { min: i64, max: i64, exclusive: bool },
}

/// What `regex::Regex::new` decides: whether a pattern compiles.
pub uninterp spec fn regex_compiles(pattern: Seq<char>) -> bool;

/// What `regex::Regex::is_match` decides: whether the compiled pattern
/// matches somewhere in the text.
pub uninterp spec fn regex_finds(pattern: Seq<char>, text: Seq<char>) -> bool;

/// Relies on `regex::Regex::new`, to compile the pattern, and on
/// `regex::Regex::is_match`, to search the text with it; a pattern that does
/// not compile matches nothing.
#[verifier::external_body]
fn regex_search(pattern: &str, text: &str) -> (r: bool)
    ensures
        r == (regex_compiles(pattern@) && regex_finds(pattern@, text@)),
{
    match regex::Regex::new(pattern) {
        Ok(re) => re.is_match(text),
        Err(_) => false,
    }
}

/// A pattern made to match the whole text: it is wrapped in a group and
/// anchored at the start and at the end.
pub open spec fn anchored(pattern: Seq<char>) -> Seq<char> {
    "^(?:"@ + pattern + ")$"@
}

pub open spec fn length_outcome(text: Seq<char>, min: nat, max: nat) -> Result<(), u32> {
    if text.len() < min {
        Err(TOO_SHORT)
    } else if text.len() > max {
        Err(TOO_LONG)
    } else {
        Ok(())
    }
}

/// A text passes a pattern when the anchored pattern compiles and matches it.
pub open spec fn pattern_outcome(pattern: Seq<char>, text: Seq<char>) -> Result<(), u32> {
    if regex_compiles(anchored(pattern)) && regex_finds(anchored(pattern), text) {
        Ok(())
    } else {
        Err(PATTERN_MISMATCH)
    }
}

pub open spec fn enumeration_outcome(allowed: Seq<String>, text: Seq<char>) -> Result<(), u32> {
    if exists|i: int| 0 <= i < allowed.len() && #[trigger] allowed[i]@ == text {
        Ok(())
    } else {
        Err(NOT_IN_ENUMERATION)
    }
}

pub open spec fn range_outcome(min: int, max: int, exclusive: bool, n: int) -> Result<(), u32> {
    if n < min || (exclusive && n == min) {
        Err(BELOW_MINIMUM)
    } else if n > max || (exclusive && n == max) {
        Err(ABOVE_MAXIMUM)
    } else {
        Ok(())
    }
}

impl Facet {
    /// The outcome of checking one value against this facet.
    pub open spec fn outcome(self, value: Scalar) -> Result<(), u32> {
        match (self, value) {
            (Facet::LengthBounds { min, max }, Scalar::Text(t)) => length_outcome(t@, min as nat, max as nat),
            (Facet::Pattern(p), Scalar::Text(t)) => pattern_outcome(p@, t@),
            (Facet::Enumeration(allowed), Scalar::Text(t)) => enumeration_outcome(allowed@, t@),
            (Facet::NumericRange { min, max, exclusive }, Scalar::Number(n)) => range_outcome(
                min as int,
                max as int,
                exclusive,
                n as int,
            ),
            _ => Ok(()),
        }
    }

    /// Checks one value against this facet.
    pub fn evaluate(&self, value: &Scalar) -> (r: Result<(), ValidationError>)
        ensures
            agrees(r, self.outcome(*value)),
    {
        match (self, value) {
            (Facet::LengthBounds { min, max }, Scalar::Text(t)) => {
                let n = t.as_str().unicode_len();
                if n < *min {
                    Err(ValidationError::of_code(TOO_SHORT))
                } else if n > *max {
                    Err(ValidationError::of_code(TOO_LONG))
                } else {
                    Ok(())
                }
            },
            (Facet::Pattern(p), Scalar::Text(t)) => {
                let full = anchor(p.as_str());
                if regex_search(full.as_str(), t.as_str()) {
                    Ok(())
                } else {
                    Err(ValidationError::of_code(PATTERN_MISMATCH))
                }
            },
            (Facet::Enumeration(allowed), Scalar::Text(t)) => {
                if contains_text(allowed, t) {
                    Ok(())
                } else {
                    Err(ValidationError::of_code(NOT_IN_ENUMERATION))
                }
            },
            (Facet::NumericRange { min, max, exclusive }, Scalar::Number(n)) => {
                if *n < *min || (*exclusive && *n == *min) {
                    Err(ValidationError::of_code(BELOW_MINIMUM))
                } else if *n > *max || (*exclusive && *n == *max) {
                    Err(ValidationError::of_code(ABOVE_MAXIMUM))
                } else {
                    Ok(())
                }
            },
            _ => Ok(()),
        }
    }
}

/// Builds the anchored form of a pattern.
fn anchor(pattern: &str) -> (r: String)
    ensures
        r@ == anchored(pattern@),
{
    let mut full = String::from_str("^(?:");
    full.append(pattern);
    full.append(")$");
    full
}

fn contains_text(allowed: &Vec<String>, text: &String) -> (r: bool)
    ensures
        r == exists|i: int| 0 <= i < allowed@.len() && #[trigger] allowed@[i]@ == text@,
{
    let mut i: usize = 0;
    while i < allowed.len()
        invariant
            i <= allowed@.len(),
            forall|j: int| 0 <= j < i ==> #[trigger] allowed@[j]@ != text@,
        decreases allowed@.len() - i,
    {
        if allowed[i] == *text {
            return true;
        }
        i += 1;
    }
    false
}

/// The outcomes of a value against each facet, in declared order.
pub open spec fn facet_outcomes(facets: Seq<Facet>, value: Scalar) -> Seq<Result<(), u32>> {
    facets.map_values(|f: Facet| f.outcome(value))
}

/// A scalar passes when every facet holds; otherwise its outcome is that of
/// the first facet, in declared order, that fails.
pub open spec fn scalar_outcome(facets: Seq<Facet>, value: Scalar) -> Result<(), u32> {
    first_failure(facet_outcomes(facets, value))
}

/// Checks a value against its facets in declared order and reports the first
/// failure.
pub fn evaluate_all(facets: &Vec<Facet>, value: &Scalar) -> (r: Result<(), ValidationError>)
    ensures
        agrees(r, scalar_outcome(facets@, *value)),
{
    let ghost s = facet_outcomes(facets@, *value);
    let mut i: usize = 0;
    while i < facets.len()
        invariant
            i <= facets@.len(),
            s == facet_outcomes(facets@, *value),
            forall|j: int| 0 <= j < i ==> (#[trigger] s[j]) is Ok,
        decreases facets@.len() - i,
    {
        let r = facets[i].evaluate(value);
        if r.is_err() {
            proof {
                crate::error::lemma_first_failure_at(s, i as int);
            }
            return r;
        }
        i += 1;
    }
    proof {
        crate::error::lemma_first_failure_none(s);
    }
    Ok(())
}

impl Facet {
    /// Whether two facets state the same rule.
    pub open spec fn same_rule(self, other: Facet) -> bool {
        match (self, other) {
            (Facet::LengthBounds { min: a, max: b }, Facet::LengthBounds { min: c, max: d }) => a
                == c && b == d,
            (Facet::Pattern(p), Facet::Pattern(q)) => p@ == q@,
            (Facet::Enumeration(x), Facet::Enumeration(y)) => x@.len() == y@.len() && forall|i: int|
                0 <= i < x@.len() ==> (#[trigger] x@[i])@ == y@[i]@,
            (
                Facet::NumericRange { min: a, max: b, exclusive: e },
                Facet::NumericRange { min: c, max: d, exclusive: f },
            ) => a == c && b == d && e == f,
            _ => false,
        }
    }

    /// A copy of this facet, stating the same rule.
    pub fn duplicate(&self) -> (r: Facet)
        ensures
            r.same_rule(*self),
    {
        match self {
            Facet::LengthBounds { min, max } => Facet::LengthBounds { min: *min, max: *max },
            Facet::Pattern(p) => Facet::Pattern(p.clone()),
            Facet::Enumeration(allowed) => {
                let mut copy: Vec<String> = Vec::new();
                let mut i: usize = 0;
                while i < allowed.len()
                    invariant
                        i <= allowed@.len(),
                        copy@.len() == i,
                        forall|j: int| 0 <= j < i ==> (#[trigger] copy@[j])@ == allowed@[j]@,
                    decreases allowed@.len() - i,
                {
                    copy.push(allowed[i].clone());
                    i += 1;
                }
                Facet::Enumeration(copy)
            },
            Facet::NumericRange { min, max, exclusive } => Facet::NumericRange {
                min: *min,
                max: *max,
                exclusive: *exclusive,
            },
        }
    }
}

/// Two facet lists that state the same rules, position by position.
pub open spec fn same_rules(a: Seq<Facet>, b: Seq<Facet>) -> bool {
    a.len() == b.len() && forall|i: int| 0 <= i < a.len() ==> (#[trigger] a[i]).same_rule(b[i])
}

/// Facets that state the same rule judge every value alike.
pub proof fn lemma_same_rule_outcome(a: Facet, b: Facet, value: Scalar)
    requires
        a.same_rule(b),
    ensures
        a.outcome(value) == b.outcome(value),
{
    if let (Facet::Enumeration(x), Facet::Enumeration(y), Scalar::Text(t)) = (a, b, value) {
        if exists|i: int| 0 <= i < x@.len() && #[trigger] x@[i]@ == t@ {
            let i = choose|i: int| 0 <= i < x@.len() && #[trigger] x@[i]@ == t@;
            assert(y@[i]@ == t@);
        }
        if exists|i: int| 0 <= i < y@.len() && #[trigger] y@[i]@ == t@ {
            let i = choose|i: int| 0 <= i < y@.len() && #[trigger] y@[i]@ == t@;
            assert(x@[i]@ == t@);
        }
    }
}

/// Facet lists that state the same rules judge every value alike.
pub proof fn lemma_same_rules_outcome(a: Seq<Facet>, b: Seq<Facet>, value: Scalar)
    requires
        same_rules(a, b),
    ensures
        scalar_outcome(a, value) == scalar_outcome(b, value),
{
    let x = facet_outcomes(a, value);
    let y = facet_outcomes(b, value);
    assert forall|i: int| 0 <= i < x.len() implies #[trigger] x[i] == y[i] by {
        lemma_same_rule_outcome(a[i], b[i], value);
    }
    assert(x =~= y);
}

/// A copy of a facet list, stating the same rules.
pub fn duplicate_facets(facets: &Vec<Facet>) -> (r: Vec<Facet>)
    ensures
        same_rules(r@, facets@),
{
    let mut copy: Vec<Facet> = Vec::new();
    let mut i: usize = 0;
    while i < facets.len()
        invariant
            i <= facets@.len(),
            copy@.len() == i,
            forall|j: int| 0 <= j < i ==> (#[trigger] copy@[j]).same_rule(facets@[j]),
        decreases facets@.len() - i,
    {
        copy.push(facets[i].duplicate());
        i += 1;
    }
    copy
}

} // verus!

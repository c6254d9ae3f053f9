use vstd::prelude::*;

verus! {

/// Text shorter than its declared minimum length.
pub const TOO_SHORT: u32 = 1001;

/// Text longer than its declared maximum length.
pub const TOO_LONG: u32 = 1002;

/// Numeric value below its minimum.
pub const BELOW_MINIMUM: u32 = 1003;

/// Numeric value above its maximum.
pub const ABOVE_MAXIMUM: u32 = 1004;

/// Text that does not match its required pattern.
pub const PATTERN_MISMATCH: u32 = 1005;

/// Value outside its required enumeration.
pub const NOT_IN_ENUMERATION: u32 = 1006;

/// Required field absent, or cardinality violated.
pub const CARDINALITY: u32 = 1007;

/// Unknown field tag met while decoding.
pub const UNKNOWN_TAG: u32 = 1008;

/// Document type identifier not found in the registry.
pub const UNKNOWN_DOCUMENT_TYPE: u32 = 1009;

/// A failed check: a stable code from the closed list above and a
/// human-readable message.
#[derive(Debug, Clone)]
pub struct ValidationError {
    pub code: u32,
    pub message: String,
}

impl ValidationError {
    pub fn new(code: u32, message: String) -> (r: ValidationError)
        ensures
            r.code == code,
            r.message == message,
    {
        ValidationError { code, message }
    }

    /// An error with the standard message for its code.
    pub fn of_code(code: u32) -> (r: ValidationError)
        ensures
            r.code == code,
            r.message@ == standard_message(code),
    {
        let text = if code == TOO_SHORT {
            "text is shorter than the minimum length"
        } else if code == TOO_LONG {
            "text exceeds the maximum length"
        } else if code == BELOW_MINIMUM {
            "value is below the minimum"
        } else if code == ABOVE_MAXIMUM {
            "value is above the maximum"
        } else if code == PATTERN_MISMATCH {
            "text does not match the required pattern"
        } else if code == NOT_IN_ENUMERATION {
            "value is not in the required enumeration"
        } else if code == CARDINALITY {
            "required field is absent or cardinality is violated"
        } else if code == UNKNOWN_TAG {
            "unknown field tag"
        } else if code == UNKNOWN_DOCUMENT_TYPE {
            "unknown document type identifier"
        } else {
            "validation failed"
        };
        ValidationError { code, message: text.to_owned() }
    }
}

/// The standard message that goes with an error code.
pub open spec fn standard_message(code: u32) -> Seq<char> {
    if code == TOO_SHORT {
        "text is shorter than the minimum length"@
    } else if code == TOO_LONG {
        "text exceeds the maximum length"@
    } else if code == BELOW_MINIMUM {
        "value is below the minimum"@
    } else if code == ABOVE_MAXIMUM {
        "value is above the maximum"@
    } else if code == PATTERN_MISMATCH {
        "text does not match the required pattern"@
    } else if code == NOT_IN_ENUMERATION {
        "value is not in the required enumeration"@
    } else if code == CARDINALITY {
        "required field is absent or cardinality is violated"@
    } else if code == UNKNOWN_TAG {
        "unknown field tag"@
    } else if code == UNKNOWN_DOCUMENT_TYPE {
        "unknown document type identifier"@
    } else {
        "validation failed"@
    }
}

/// An error whose message is the standard one for its code.
pub open spec fn is_standard(e: ValidationError) -> bool {
    e.message@ == standard_message(e.code)
}

/// Whether an executable result carries the outcome `o`: both succeed, or
/// both fail with the same code, and the error's message is the standard
/// one for that code. The outcome thus fixes the whole error.
pub open spec fn agrees(r: Result<(), ValidationError>, o: Result<(), u32>) -> bool {
    match r {
        Ok(_) => o is Ok,
        Err(e) => o is Err && o->Err_0 == e.code && is_standard(e),
    }
}

/// The first failure of a sequence of outcomes, in order; success when none fails.
pub open spec fn first_failure(s: Seq<Result<(), u32>>) -> Result<(), u32>
    decreases s.len(),
{
    if s.len() == 0 {
        Ok(())
    } else if s[0] is Err {
        s[0]
    } else {
        first_failure(s.drop_first())
    }
}

} // verus!

verus! {

/// Where the outcomes before position `i` all succeed and the one at `i`
/// fails, the first failure is the one at `i`.
pub proof fn lemma_first_failure_at(s: Seq<Result<(), u32>>, i: int)
    requires
        0 <= i < s.len(),
        forall|j: int| 0 <= j < i ==> (#[trigger] s[j]) is Ok,
        s[i] is Err,
    ensures
        first_failure(s) == s[i],
    decreases i,
{
    if i > 0 {
        let t = s.drop_first();
        assert forall|j: int| 0 <= j < i - 1 implies (#[trigger] t[j]) is Ok by {
            assert(s[j + 1] is Ok);
        }
        lemma_first_failure_at(t, i - 1);
    }
}

/// Where every outcome succeeds, so does the sequence.
pub proof fn lemma_first_failure_none(s: Seq<Result<(), u32>>)
    requires
        forall|j: int| 0 <= j < s.len() ==> (#[trigger] s[j]) is Ok,
    ensures
        first_failure(s) is Ok,
    decreases s.len(),
{
    if s.len() > 0 {
        let t = s.drop_first();
        assert forall|j: int| 0 <= j < t.len() implies (#[trigger] t[j]) is Ok by {
            assert(s[j + 1] is Ok);
        }
        lemma_first_failure_none(t);
    }
}

} // verus!

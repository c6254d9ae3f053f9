//! The document shapes of the catalog. Each records the facets of its own
//! scalar children; nested records are generic fields that carry their own.
use vstd::prelude::*;

use crate::compose::{
    all_member, all_outcome, check_all, check_optional, check_optional_all,
    check_optional_pattern, check_optional_text, check_text, child_member, flag_member,
    lemma_members_first_failure, member_outcomes, optional_all_member, optional_all_outcome,
    optional_member, optional_outcome, optional_pattern_member, optional_pattern_outcome,
    optional_text_member, optional_text_outcome, text_member, text_outcome, all_in, flag_in,
    optional_all_in, optional_in, optional_text_in, tag_matches, take_all, take_flag,
    take_optional, take_optional_all, take_optional_text, take_text, text_in, same_optional_text,
};
use crate::error::{
    agrees, first_failure, is_standard, lemma_first_failure_at, lemma_first_failure_none,
    ValidationError, CARDINALITY,
};
use crate::field::{Field, Member};

verus! {

/// Shortest text of the catalog's 35-character text type.
pub const MAX35_MIN: usize = 1;

/// Longest text of the catalog's 35-character text type.
pub const MAX35_MAX: usize = 35;

/// A settlement session identifier: four letters or digits.
pub const SESSION_ID_PATTERN: &'static str = "[a-zA-Z0-9]{4}";

/// A request to amend the details of an account being opened.
///
/// Document type `acmt.008.001.05`.
#[derive(Debug)]
pub struct AccountOpeningAmendmentRequestV05 {
    /// Tag `Refs`.
    pub refs: Field,
    /// Tag `Fr`.
    pub fr: Option<Field>,
    /// Tag `CtrctDts`.
    pub ctrct_dts: Option<Field>,
    /// Tag `UndrlygMstrAgrmt`.
    pub undrlyg_mstr_agrmt: Option<Field>,
    /// Tag `Acct`.
    pub acct: Field,
    /// Tag `AcctSvcrId`.
    pub acct_svcr_id: Field,
    /// Tag `Org`.
    pub org: Field,
    /// Tag `Mndt`.
    pub mndt: Option<Vec<Field>>,
    /// Tag `Grp`.
    pub grp: Option<Vec<Field>>,
    /// Tag `RefAcct`.
    pub ref_acct: Option<Field>,
    /// Tag `DgtlSgntr`.
    pub dgtl_sgntr: Option<Vec<Field>>,
    /// Tag `SplmtryData`.
    pub splmtry_data: Option<Vec<Field>>,
}

impl AccountOpeningAmendmentRequestV05 {
    /// The outcome of each child in declared order; a flag carries no check.
    pub open spec fn child_outcomes(self) -> Seq<Result<(), u32>> {
        seq![
            self.refs.outcome(),
            optional_outcome(self.fr),
            optional_outcome(self.ctrct_dts),
            optional_outcome(self.undrlyg_mstr_agrmt),
            self.acct.outcome(),
            self.acct_svcr_id.outcome(),
            self.org.outcome(),
            optional_all_outcome(self.mndt),
            optional_all_outcome(self.grp),
            optional_outcome(self.ref_acct),
            optional_all_outcome(self.dgtl_sgntr),
            optional_all_outcome(self.splmtry_data),
        ]
    }

    /// The first failing child in declared order, or success.
    pub open spec fn outcome(self) -> Result<(), u32> {
        first_failure(self.child_outcomes())
    }

    /// Validates the document's children in declared order, stopping at the
    /// first failure.
    pub fn validate(&self) -> (r: Result<(), ValidationError>)
        ensures
            agrees(r, self.outcome()),
    {
        let ghost s = self.child_outcomes();
        let r = self.refs.validate();
        if r.is_err() {
            proof {
                lemma_first_failure_at(s, 0);
            }
            return r;
        }
        let r = check_optional(&self.fr);
        if r.is_err() {
            proof {
                lemma_first_failure_at(s, 1);
            }
            return r;
        }
        let r = check_optional(&self.ctrct_dts);
        if r.is_err() {
            proof {
                lemma_first_failure_at(s, 2);
            }
            return r;
        }
        let r = check_optional(&self.undrlyg_mstr_agrmt);
        if r.is_err() {
            proof {
                lemma_first_failure_at(s, 3);
            }
            return r;
        }
        let r = self.acct.validate();
        if r.is_err() {
            proof {
                lemma_first_failure_at(s, 4);
            }
            return r;
        }
        let r = self.acct_svcr_id.validate();
        if r.is_err() {
            proof {
                lemma_first_failure_at(s, 5);
            }
            return r;
        }
        let r = self.org.validate();
        if r.is_err() {
            proof {
                lemma_first_failure_at(s, 6);
            }
            return r;
        }
        let r = check_optional_all(&self.mndt);
        if r.is_err() {
            proof {
                lemma_first_failure_at(s, 7);
            }
            return r;
        }
        let r = check_optional_all(&self.grp);
        if r.is_err() {
            proof {
                lemma_first_failure_at(s, 8);
            }
            return r;
        }
        let r = check_optional(&self.ref_acct);
        if r.is_err() {
            proof {
                lemma_first_failure_at(s, 9);
            }
            return r;
        }
        let r = check_optional_all(&self.dgtl_sgntr);
        if r.is_err() {
            proof {
                lemma_first_failure_at(s, 10);
            }
            return r;
        }
        let r = check_optional_all(&self.splmtry_data);
        if r.is_err() {
            proof {
                lemma_first_failure_at(s, 11);
            }
            return r;
        }
        proof {
            lemma_first_failure_none(s);
        }
        Ok(())
    }

    /// Whether a generic record holds exactly this document: one member per
    /// child, in declared order, under the child's tag and holding its value.
    pub open spec fn matches_field(self, f: Field) -> bool {
        &&& f is Composite
        &&& f->Composite_0@.len() == 12
        &&& f->Composite_0@[0].tag@ == "Refs"@
        &&& self.refs == f->Composite_0@[0].field
        &&& f->Composite_0@[1].tag@ == "Fr"@
        &&& optional_in(self.fr, f->Composite_0@[1].field)
        &&& f->Composite_0@[2].tag@ == "CtrctDts"@
        &&& optional_in(self.ctrct_dts, f->Composite_0@[2].field)
        &&& f->Composite_0@[3].tag@ == "UndrlygMstrAgrmt"@
        &&& optional_in(self.undrlyg_mstr_agrmt, f->Composite_0@[3].field)
        &&& f->Composite_0@[4].tag@ == "Acct"@
        &&& self.acct == f->Composite_0@[4].field
        &&& f->Composite_0@[5].tag@ == "AcctSvcrId"@
        &&& self.acct_svcr_id == f->Composite_0@[5].field
        &&& f->Composite_0@[6].tag@ == "Org"@
        &&& self.org == f->Composite_0@[6].field
        &&& f->Composite_0@[7].tag@ == "Mndt"@
        &&& optional_all_in(self.mndt, f->Composite_0@[7].field)
        &&& f->Composite_0@[8].tag@ == "Grp"@
        &&& optional_all_in(self.grp, f->Composite_0@[8].field)
        &&& f->Composite_0@[9].tag@ == "RefAcct"@
        &&& optional_in(self.ref_acct, f->Composite_0@[9].field)
        &&& f->Composite_0@[10].tag@ == "DgtlSgntr"@
        &&& optional_all_in(self.dgtl_sgntr, f->Composite_0@[10].field)
        &&& f->Composite_0@[11].tag@ == "SplmtryData"@
        &&& optional_all_in(self.splmtry_data, f->Composite_0@[11].field)
    }

    /// Whether two documents hold the same values, text compared by content.
    pub open spec fn same_values(self, other: Self) -> bool {
        &&& self.refs == other.refs
        &&& self.fr == other.fr
        &&& self.ctrct_dts == other.ctrct_dts
        &&& self.undrlyg_mstr_agrmt == other.undrlyg_mstr_agrmt
        &&& self.acct == other.acct
        &&& self.acct_svcr_id == other.acct_svcr_id
        &&& self.org == other.org
        &&& self.mndt == other.mndt
        &&& self.grp == other.grp
        &&& self.ref_acct == other.ref_acct
        &&& self.dgtl_sgntr == other.dgtl_sgntr
        &&& self.splmtry_data == other.splmtry_data
    }

    /// Builds the document from a generic record that holds one member per
    /// child, in declared order, under the child's tag. Any other record is
    /// refused with `CARDINALITY`.
    pub fn from_field(f: Field) -> (r: Result<Self, ValidationError>)
        ensures
            match r {
                Ok(d) => d.matches_field(f),
                Err(e) => e.code == CARDINALITY && is_standard(e) && forall|d: Self| !d.matches_field(f),
            },
    {
        let mut members = match f {
            Field::Composite(ms) => ms,
            _ => {
                return Err(ValidationError::of_code(CARDINALITY));
            },
        };
        if members.len() != 12 {
            return Err(ValidationError::of_code(CARDINALITY));
        }
        let ghost ms = members@;
        let m11 = match members.pop() {
            Some(m) => m,
            None => {
                return Err(ValidationError::of_code(CARDINALITY));
            },
        };
        assert(m11 == ms[11]);
        let m10 = match members.pop() {
            Some(m) => m,
            None => {
                return Err(ValidationError::of_code(CARDINALITY));
            },
        };
        assert(m10 == ms[10]);
        let m9 = match members.pop() {
            Some(m) => m,
            None => {
                return Err(ValidationError::of_code(CARDINALITY));
            },
        };
        assert(m9 == ms[9]);
        let m8 = match members.pop() {
            Some(m) => m,
            None => {
                return Err(ValidationError::of_code(CARDINALITY));
            },
        };
        assert(m8 == ms[8]);
        let m7 = match members.pop() {
            Some(m) => m,
            None => {
                return Err(ValidationError::of_code(CARDINALITY));
            },
        };
        assert(m7 == ms[7]);
        let m6 = match members.pop() {
            Some(m) => m,
            None => {
                return Err(ValidationError::of_code(CARDINALITY));
            },
        };
        assert(m6 == ms[6]);
        let m5 = match members.pop() {
            Some(m) => m,
            None => {
                return Err(ValidationError::of_code(CARDINALITY));
            },
        };
        assert(m5 == ms[5]);
        let m4 = match members.pop() {
            Some(m) => m,
            None => {
                return Err(ValidationError::of_code(CARDINALITY));
            },
        };
        assert(m4 == ms[4]);
        let m3 = match members.pop() {
            Some(m) => m,
            None => {
                return Err(ValidationError::of_code(CARDINALITY));
            },
        };
        assert(m3 == ms[3]);
        let m2 = match members.pop() {
            Some(m) => m,
            None => {
                return Err(ValidationError::of_code(CARDINALITY));
            },
        };
        assert(m2 == ms[2]);
        let m1 = match members.pop() {
            Some(m) => m,
            None => {
                return Err(ValidationError::of_code(CARDINALITY));
            },
        };
        assert(m1 == ms[1]);
        let m0 = match members.pop() {
            Some(m) => m,
            None => {
                return Err(ValidationError::of_code(CARDINALITY));
            },
        };
        assert(m0 == ms[0]);
        if !tag_matches(&m0.tag, "Refs") {
            return Err(ValidationError::of_code(CARDINALITY));
        }
        if !tag_matches(&m1.tag, "Fr") {
            return Err(ValidationError::of_code(CARDINALITY));
        }
        if !tag_matches(&m2.tag, "CtrctDts") {
            return Err(ValidationError::of_code(CARDINALITY));
        }
        if !tag_matches(&m3.tag, "UndrlygMstrAgrmt") {
            return Err(ValidationError::of_code(CARDINALITY));
        }
        if !tag_matches(&m4.tag, "Acct") {
            return Err(ValidationError::of_code(CARDINALITY));
        }
        if !tag_matches(&m5.tag, "AcctSvcrId") {
            return Err(ValidationError::of_code(CARDINALITY));
        }
        if !tag_matches(&m6.tag, "Org") {
            return Err(ValidationError::of_code(CARDINALITY));
        }
        if !tag_matches(&m7.tag, "Mndt") {
            return Err(ValidationError::of_code(CARDINALITY));
        }
        if !tag_matches(&m8.tag, "Grp") {
            return Err(ValidationError::of_code(CARDINALITY));
        }
        if !tag_matches(&m9.tag, "RefAcct") {
            return Err(ValidationError::of_code(CARDINALITY));
        }
        if !tag_matches(&m10.tag, "DgtlSgntr") {
            return Err(ValidationError::of_code(CARDINALITY));
        }
        if !tag_matches(&m11.tag, "SplmtryData") {
            return Err(ValidationError::of_code(CARDINALITY));
        }
        let refs = m0.field;
        let fr = match take_optional(m1.field) {
            Some(v) => v,
            None => {
                return Err(ValidationError::of_code(CARDINALITY));
            },
        };
        let ctrct_dts = match take_optional(m2.field) {
            Some(v) => v,
            None => {
                return Err(ValidationError::of_code(CARDINALITY));
            },
        };
        let undrlyg_mstr_agrmt = match take_optional(m3.field) {
            Some(v) => v,
            None => {
                return Err(ValidationError::of_code(CARDINALITY));
            },
        };
        let acct = m4.field;
        let acct_svcr_id = m5.field;
        let org = m6.field;
        let mndt = match take_optional_all(m7.field) {
            Some(v) => v,
            None => {
                return Err(ValidationError::of_code(CARDINALITY));
            },
        };
        let grp = match take_optional_all(m8.field) {
            Some(v) => v,
            None => {
                return Err(ValidationError::of_code(CARDINALITY));
            },
        };
        let ref_acct = match take_optional(m9.field) {
            Some(v) => v,
            None => {
                return Err(ValidationError::of_code(CARDINALITY));
            },
        };
        let dgtl_sgntr = match take_optional_all(m10.field) {
            Some(v) => v,
            None => {
                return Err(ValidationError::of_code(CARDINALITY));
            },
        };
        let splmtry_data = match take_optional_all(m11.field) {
            Some(v) => v,
            None => {
                return Err(ValidationError::of_code(CARDINALITY));
            },
        };
        Ok(Self { refs, fr, ctrct_dts, undrlyg_mstr_agrmt, acct, acct_svcr_id, org, mndt, grp, ref_acct, dgtl_sgntr, splmtry_data })
    }

    /// The document as a generic record: each child under its tag, in
    /// declared order, with the facets that this shape gives it. It validates
    /// exactly as the document does.
    pub fn into_field(self) -> (r: Field)
        ensures
            r.outcome() == self.outcome(),
            self.matches_field(r),
            r is Composite,
            r->Composite_0@.map_values(|m: Member| m.tag@) == seq![
                "Refs"@,
                "Fr"@,
                "CtrctDts"@,
                "UndrlygMstrAgrmt"@,
                "Acct"@,
                "AcctSvcrId"@,
                "Org"@,
                "Mndt"@,
                "Grp"@,
                "RefAcct"@,
                "DgtlSgntr"@,
                "SplmtryData"@,
            ],
    {
        let ghost before = self;
        let mut members: Vec<Member> = Vec::new();
        members.push(child_member("refs", "Refs", self.refs));
        members.push(optional_member("fr", "Fr", self.fr));
        members.push(optional_member("ctrct_dts", "CtrctDts", self.ctrct_dts));
        members.push(optional_member("undrlyg_mstr_agrmt", "UndrlygMstrAgrmt", self.undrlyg_mstr_agrmt));
        members.push(child_member("acct", "Acct", self.acct));
        members.push(child_member("acct_svcr_id", "AcctSvcrId", self.acct_svcr_id));
        members.push(child_member("org", "Org", self.org));
        members.push(optional_all_member("mndt", "Mndt", self.mndt));
        members.push(optional_all_member("grp", "Grp", self.grp));
        members.push(optional_member("ref_acct", "RefAcct", self.ref_acct));
        members.push(optional_all_member("dgtl_sgntr", "DgtlSgntr", self.dgtl_sgntr));
        members.push(optional_all_member("splmtry_data", "SplmtryData", self.splmtry_data));
        proof {
            assert(member_outcomes(members@) =~= before.child_outcomes());
            lemma_members_first_failure(members@, 0);
            assert(member_outcomes(members@).subrange(0, members@.len() as int) =~= member_outcomes(
                members@,
            ));
            assert(members@.map_values(|m: Member| m.tag@) =~= seq![
                "Refs"@,
                "Fr"@,
                "CtrctDts"@,
                "UndrlygMstrAgrmt"@,
                "Acct"@,
                "AcctSvcrId"@,
                "Org"@,
                "Mndt"@,
                "Grp"@,
                "RefAcct"@,
                "DgtlSgntr"@,
                "SplmtryData"@,
            ]);
        }
        Field::Composite(members)
    }

    /// The external tag of each field, in declared order, keyed by field name.
    pub fn tag_table() -> (r: Vec<(&'static str, &'static str)>)
        ensures
            r@ == seq![
                ("refs", "Refs"),
                ("fr", "Fr"),
                ("ctrct_dts", "CtrctDts"),
                ("undrlyg_mstr_agrmt", "UndrlygMstrAgrmt"),
                ("acct", "Acct"),
                ("acct_svcr_id", "AcctSvcrId"),
                ("org", "Org"),
                ("mndt", "Mndt"),
                ("grp", "Grp"),
                ("ref_acct", "RefAcct"),
                ("dgtl_sgntr", "DgtlSgntr"),
                ("splmtry_data", "SplmtryData"),
            ],
    {
        vec![
            ("refs", "Refs"),
            ("fr", "Fr"),
            ("ctrct_dts", "CtrctDts"),
            ("undrlyg_mstr_agrmt", "UndrlygMstrAgrmt"),
            ("acct", "Acct"),
            ("acct_svcr_id", "AcctSvcrId"),
            ("org", "Org"),
            ("mndt", "Mndt"),
            ("grp", "Grp"),
            ("ref_acct", "RefAcct"),
            ("dgtl_sgntr", "DgtlSgntr"),
            ("splmtry_data", "SplmtryData"),
        ]
    }
}

/// A report on the verification of party and account identifications.
///
/// Document type `acmt.024.001.04`.
#[derive(Debug)]
pub struct IdentificationVerificationReportV04 {
    /// Tag `Assgnmt`.
    pub assgnmt: Field,
    /// Tag `OrgnlAssgnmt`.
    pub orgnl_assgnmt: Option<Field>,
    /// Tag `Rpt`.
    pub rpt: Vec<Field>,
    /// Tag `SplmtryData`.
    pub splmtry_data: Option<Vec<Field>>,
}

impl IdentificationVerificationReportV04 {
    /// The outcome of each child in declared order; a flag carries no check.
    pub open spec fn child_outcomes(self) -> Seq<Result<(), u32>> {
        seq![
            self.assgnmt.outcome(),
            optional_outcome(self.orgnl_assgnmt),
            all_outcome(self.rpt),
            optional_all_outcome(self.splmtry_data),
        ]
    }

    /// The first failing child in declared order, or success.
    pub open spec fn outcome(self) -> Result<(), u32> {
        first_failure(self.child_outcomes())
    }

    /// Validates the document's children in declared order, stopping at the
    /// first failure.
    pub fn validate(&self) -> (r: Result<(), ValidationError>)
        ensures
            agrees(r, self.outcome()),
    {
        let ghost s = self.child_outcomes();
        let r = self.assgnmt.validate();
        if r.is_err() {
            proof {
                lemma_first_failure_at(s, 0);
            }
            return r;
        }
        let r = check_optional(&self.orgnl_assgnmt);
        if r.is_err() {
            proof {
                lemma_first_failure_at(s, 1);
            }
            return r;
        }
        let r = check_all(&self.rpt);
        if r.is_err() {
            proof {
                lemma_first_failure_at(s, 2);
            }
            return r;
        }
        let r = check_optional_all(&self.splmtry_data);
        if r.is_err() {
            proof {
                lemma_first_failure_at(s, 3);
            }
            return r;
        }
        proof {
            lemma_first_failure_none(s);
        }
        Ok(())
    }

    /// Whether a generic record holds exactly this document: one member per
    /// child, in declared order, under the child's tag and holding its value.
    pub open spec fn matches_field(self, f: Field) -> bool {
        &&& f is Composite
        &&& f->Composite_0@.len() == 4
        &&& f->Composite_0@[0].tag@ == "Assgnmt"@
        &&& self.assgnmt == f->Composite_0@[0].field
        &&& f->Composite_0@[1].tag@ == "OrgnlAssgnmt"@
        &&& optional_in(self.orgnl_assgnmt, f->Composite_0@[1].field)
        &&& f->Composite_0@[2].tag@ == "Rpt"@
        &&& all_in(self.rpt, f->Composite_0@[2].field)
        &&& f->Composite_0@[3].tag@ == "SplmtryData"@
        &&& optional_all_in(self.splmtry_data, f->Composite_0@[3].field)
    }

    /// Whether two documents hold the same values, text compared by content.
    pub open spec fn same_values(self, other: Self) -> bool {
        &&& self.assgnmt == other.assgnmt
        &&& self.orgnl_assgnmt == other.orgnl_assgnmt
        &&& self.rpt == other.rpt
        &&& self.splmtry_data == other.splmtry_data
    }

    /// Builds the document from a generic record that holds one member per
    /// child, in declared order, under the child's tag. Any other record is
    /// refused with `CARDINALITY`.
    pub fn from_field(f: Field) -> (r: Result<Self, ValidationError>)
        ensures
            match r {
                Ok(d) => d.matches_field(f),
                Err(e) => e.code == CARDINALITY && is_standard(e) && forall|d: Self| !d.matches_field(f),
            },
    {
        let mut members = match f {
            Field::Composite(ms) => ms,
            _ => {
                return Err(ValidationError::of_code(CARDINALITY));
            },
        };
        if members.len() != 4 {
            return Err(ValidationError::of_code(CARDINALITY));
        }
        let ghost ms = members@;
        let m3 = match members.pop() {
            Some(m) => m,
            None => {
                return Err(ValidationError::of_code(CARDINALITY));
            },
        };
        assert(m3 == ms[3]);
        let m2 = match members.pop() {
            Some(m) => m,
            None => {
                return Err(ValidationError::of_code(CARDINALITY));
            },
        };
        assert(m2 == ms[2]);
        let m1 = match members.pop() {
            Some(m) => m,
            None => {
                return Err(ValidationError::of_code(CARDINALITY));
            },
        };
        assert(m1 == ms[1]);
        let m0 = match members.pop() {
            Some(m) => m,
            None => {
                return Err(ValidationError::of_code(CARDINALITY));
            },
        };
        assert(m0 == ms[0]);
        if !tag_matches(&m0.tag, "Assgnmt") {
            return Err(ValidationError::of_code(CARDINALITY));
        }
        if !tag_matches(&m1.tag, "OrgnlAssgnmt") {
            return Err(ValidationError::of_code(CARDINALITY));
        }
        if !tag_matches(&m2.tag, "Rpt") {
            return Err(ValidationError::of_code(CARDINALITY));
        }
        if !tag_matches(&m3.tag, "SplmtryData") {
            return Err(ValidationError::of_code(CARDINALITY));
        }
        let assgnmt = m0.field;
        let orgnl_assgnmt = match take_optional(m1.field) {
            Some(v) => v,
            None => {
                return Err(ValidationError::of_code(CARDINALITY));
            },
        };
        let rpt = match take_all(m2.field) {
            Some(v) => v,
            None => {
                return Err(ValidationError::of_code(CARDINALITY));
            },
        };
        let splmtry_data = match take_optional_all(m3.field) {
            Some(v) => v,
            None => {
                return Err(ValidationError::of_code(CARDINALITY));
            },
        };
        Ok(Self { assgnmt, orgnl_assgnmt, rpt, splmtry_data })
    }

    /// The document as a generic record: each child under its tag, in
    /// declared order, with the facets that this shape gives it. It validates
    /// exactly as the document does.
    pub fn into_field(self) -> (r: Field)
        ensures
            r.outcome() == self.outcome(),
            self.matches_field(r),
            r is Composite,
            r->Composite_0@.map_values(|m: Member| m.tag@) == seq![
                "Assgnmt"@,
                "OrgnlAssgnmt"@,
                "Rpt"@,
                "SplmtryData"@,
            ],
    {
        let ghost before = self;
        let mut members: Vec<Member> = Vec::new();
        members.push(child_member("assgnmt", "Assgnmt", self.assgnmt));
        members.push(optional_member("orgnl_assgnmt", "OrgnlAssgnmt", self.orgnl_assgnmt));
        members.push(all_member("rpt", "Rpt", self.rpt));
        members.push(optional_all_member("splmtry_data", "SplmtryData", self.splmtry_data));
        proof {
            assert(member_outcomes(members@) =~= before.child_outcomes());
            lemma_members_first_failure(members@, 0);
            assert(member_outcomes(members@).subrange(0, members@.len() as int) =~= member_outcomes(
                members@,
            ));
            assert(members@.map_values(|m: Member| m.tag@) =~= seq![
                "Assgnmt"@,
                "OrgnlAssgnmt"@,
                "Rpt"@,
                "SplmtryData"@,
            ]);
        }
        Field::Composite(members)
    }

    /// The external tag of each field, in declared order, keyed by field name.
    pub fn tag_table() -> (r: Vec<(&'static str, &'static str)>)
        ensures
            r@ == seq![
                ("assgnmt", "Assgnmt"),
                ("orgnl_assgnmt", "OrgnlAssgnmt"),
                ("rpt", "Rpt"),
                ("splmtry_data", "SplmtryData"),
            ],
    {
        vec![
            ("assgnmt", "Assgnmt"),
            ("orgnl_assgnmt", "OrgnlAssgnmt"),
            ("rpt", "Rpt"),
            ("splmtry_data", "SplmtryData"),
        ]
    }
}

/// A response carrying the information for an account switch.
///
/// Document type `acmt.028.001.05`.
#[derive(Debug)]
pub struct AccountSwitchInformationResponseV05 {
    /// Tag `MsgId`.
    pub msg_id: Field,
    /// Tag `AcctSwtchDtls`.
    pub acct_swtch_dtls: Field,
    /// Tag `NewAcct`.
    pub new_acct: Field,
    /// Tag `OdAcct`.
    pub od_acct: Field,
    /// Tag `PmtInstr`.
    pub pmt_instr: Option<Vec<Field>>,
    /// Tag `DrctDbtInstr`.
    pub drct_dbt_instr: Option<Vec<Field>>,
    /// Tag `SplmtryData`.
    pub splmtry_data: Option<Vec<Field>>,
}

impl AccountSwitchInformationResponseV05 {
    /// The outcome of each child in declared order; a flag carries no check.
    pub open spec fn child_outcomes(self) -> Seq<Result<(), u32>> {
        seq![
            self.msg_id.outcome(),
            self.acct_swtch_dtls.outcome(),
            self.new_acct.outcome(),
            self.od_acct.outcome(),
            optional_all_outcome(self.pmt_instr),
            optional_all_outcome(self.drct_dbt_instr),
            optional_all_outcome(self.splmtry_data),
        ]
    }

    /// The first failing child in declared order, or success.
    pub open spec fn outcome(self) -> Result<(), u32> {
        first_failure(self.child_outcomes())
    }

    /// Validates the document's children in declared order, stopping at the
    /// first failure.
    pub fn validate(&self) -> (r: Result<(), ValidationError>)
        ensures
            agrees(r, self.outcome()),
    {
        let ghost s = self.child_outcomes();
        let r = self.msg_id.validate();
        if r.is_err() {
            proof {
                lemma_first_failure_at(s, 0);
            }
            return r;
        }
        let r = self.acct_swtch_dtls.validate();
        if r.is_err() {
            proof {
                lemma_first_failure_at(s, 1);
            }
            return r;
        }
        let r = self.new_acct.validate();
        if r.is_err() {
            proof {
                lemma_first_failure_at(s, 2);
            }
            return r;
        }
        let r = self.od_acct.validate();
        if r.is_err() {
            proof {
                lemma_first_failure_at(s, 3);
            }
            return r;
        }
        let r = check_optional_all(&self.pmt_instr);
        if r.is_err() {
            proof {
                lemma_first_failure_at(s, 4);
            }
            return r;
        }
        let r = check_optional_all(&self.drct_dbt_instr);
        if r.is_err() {
            proof {
                lemma_first_failure_at(s, 5);
            }
            return r;
        }
        let r = check_optional_all(&self.splmtry_data);
        if r.is_err() {
            proof {
                lemma_first_failure_at(s, 6);
            }
            return r;
        }
        proof {
            lemma_first_failure_none(s);
        }
        Ok(())
    }

    /// Whether a generic record holds exactly this document: one member per
    /// child, in declared order, under the child's tag and holding its value.
    pub open spec fn matches_field(self, f: Field) -> bool {
        &&& f is Composite
        &&& f->Composite_0@.len() == 7
        &&& f->Composite_0@[0].tag@ == "MsgId"@
        &&& self.msg_id == f->Composite_0@[0].field
        &&& f->Composite_0@[1].tag@ == "AcctSwtchDtls"@
        &&& self.acct_swtch_dtls == f->Composite_0@[1].field
        &&& f->Composite_0@[2].tag@ == "NewAcct"@
        &&& self.new_acct == f->Composite_0@[2].field
        &&& f->Composite_0@[3].tag@ == "OdAcct"@
        &&& self.od_acct == f->Composite_0@[3].field
        &&& f->Composite_0@[4].tag@ == "PmtInstr"@
        &&& optional_all_in(self.pmt_instr, f->Composite_0@[4].field)
        &&& f->Composite_0@[5].tag@ == "DrctDbtInstr"@
        &&& optional_all_in(self.drct_dbt_instr, f->Composite_0@[5].field)
        &&& f->Composite_0@[6].tag@ == "SplmtryData"@
        &&& optional_all_in(self.splmtry_data, f->Composite_0@[6].field)
    }

    /// Whether two documents hold the same values, text compared by content.
    pub open spec fn same_values(self, other: Self) -> bool {
        &&& self.msg_id == other.msg_id
        &&& self.acct_swtch_dtls == other.acct_swtch_dtls
        &&& self.new_acct == other.new_acct
        &&& self.od_acct == other.od_acct
        &&& self.pmt_instr == other.pmt_instr
        &&& self.drct_dbt_instr == other.drct_dbt_instr
        &&& self.splmtry_data == other.splmtry_data
    }

    /// Builds the document from a generic record that holds one member per
    /// child, in declared order, under the child's tag. Any other record is
    /// refused with `CARDINALITY`.
    pub fn from_field(f: Field) -> (r: Result<Self, ValidationError>)
        ensures
            match r {
                Ok(d) => d.matches_field(f),
                Err(e) => e.code == CARDINALITY && is_standard(e) && forall|d: Self| !d.matches_field(f),
            },
    {
        let mut members = match f {
            Field::Composite(ms) => ms,
            _ => {
                return Err(ValidationError::of_code(CARDINALITY));
            },
        };
        if members.len() != 7 {
            return Err(ValidationError::of_code(CARDINALITY));
        }
        let ghost ms = members@;
        let m6 = match members.pop() {
            Some(m) => m,
            None => {
                return Err(ValidationError::of_code(CARDINALITY));
            },
        };
        assert(m6 == ms[6]);
        let m5 = match members.pop() {
            Some(m) => m,
            None => {
                return Err(ValidationError::of_code(CARDINALITY));
            },
        };
        assert(m5 == ms[5]);
        let m4 = match members.pop() {
            Some(m) => m,
            None => {
                return Err(ValidationError::of_code(CARDINALITY));
            },
        };
        assert(m4 == ms[4]);
        let m3 = match members.pop() {
            Some(m) => m,
            None => {
                return Err(ValidationError::of_code(CARDINALITY));
            },
        };
        assert(m3 == ms[3]);
        let m2 = match members.pop() {
            Some(m) => m,
            None => {
                return Err(ValidationError::of_code(CARDINALITY));
            },
        };
        assert(m2 == ms[2]);
        let m1 = match members.pop() {
            Some(m) => m,
            None => {
                return Err(ValidationError::of_code(CARDINALITY));
            },
        };
        assert(m1 == ms[1]);
        let m0 = match members.pop() {
            Some(m) => m,
            None => {
                return Err(ValidationError::of_code(CARDINALITY));
            },
        };
        assert(m0 == ms[0]);
        if !tag_matches(&m0.tag, "MsgId") {
            return Err(ValidationError::of_code(CARDINALITY));
        }
        if !tag_matches(&m1.tag, "AcctSwtchDtls") {
            return Err(ValidationError::of_code(CARDINALITY));
        }
        if !tag_matches(&m2.tag, "NewAcct") {
            return Err(ValidationError::of_code(CARDINALITY));
        }
        if !tag_matches(&m3.tag, "OdAcct") {
            return Err(ValidationError::of_code(CARDINALITY));
        }
        if !tag_matches(&m4.tag, "PmtInstr") {
            return Err(ValidationError::of_code(CARDINALITY));
        }
        if !tag_matches(&m5.tag, "DrctDbtInstr") {
            return Err(ValidationError::of_code(CARDINALITY));
        }
        if !tag_matches(&m6.tag, "SplmtryData") {
            return Err(ValidationError::of_code(CARDINALITY));
        }
        let msg_id = m0.field;
        let acct_swtch_dtls = m1.field;
        let new_acct = m2.field;
        let od_acct = m3.field;
        let pmt_instr = match take_optional_all(m4.field) {
            Some(v) => v,
            None => {
                return Err(ValidationError::of_code(CARDINALITY));
            },
        };
        let drct_dbt_instr = match take_optional_all(m5.field) {
            Some(v) => v,
            None => {
                return Err(ValidationError::of_code(CARDINALITY));
            },
        };
        let splmtry_data = match take_optional_all(m6.field) {
            Some(v) => v,
            None => {
                return Err(ValidationError::of_code(CARDINALITY));
            },
        };
        Ok(Self { msg_id, acct_swtch_dtls, new_acct, od_acct, pmt_instr, drct_dbt_instr, splmtry_data })
    }

    /// The document as a generic record: each child under its tag, in
    /// declared order, with the facets that this shape gives it. It validates
    /// exactly as the document does.
    pub fn into_field(self) -> (r: Field)
        ensures
            r.outcome() == self.outcome(),
            self.matches_field(r),
            r is Composite,
            r->Composite_0@.map_values(|m: Member| m.tag@) == seq![
                "MsgId"@,
                "AcctSwtchDtls"@,
                "NewAcct"@,
                "OdAcct"@,
                "PmtInstr"@,
                "DrctDbtInstr"@,
                "SplmtryData"@,
            ],
    {
        let ghost before = self;
        let mut members: Vec<Member> = Vec::new();
        members.push(child_member("msg_id", "MsgId", self.msg_id));
        members.push(child_member("acct_swtch_dtls", "AcctSwtchDtls", self.acct_swtch_dtls));
        members.push(child_member("new_acct", "NewAcct", self.new_acct));
        members.push(child_member("od_acct", "OdAcct", self.od_acct));
        members.push(optional_all_member("pmt_instr", "PmtInstr", self.pmt_instr));
        members.push(optional_all_member("drct_dbt_instr", "DrctDbtInstr", self.drct_dbt_instr));
        members.push(optional_all_member("splmtry_data", "SplmtryData", self.splmtry_data));
        proof {
            assert(member_outcomes(members@) =~= before.child_outcomes());
            lemma_members_first_failure(members@, 0);
            assert(member_outcomes(members@).subrange(0, members@.len() as int) =~= member_outcomes(
                members@,
            ));
            assert(members@.map_values(|m: Member| m.tag@) =~= seq![
                "MsgId"@,
                "AcctSwtchDtls"@,
                "NewAcct"@,
                "OdAcct"@,
                "PmtInstr"@,
                "DrctDbtInstr"@,
                "SplmtryData"@,
            ]);
        }
        Field::Composite(members)
    }

    /// The external tag of each field, in declared order, keyed by field name.
    pub fn tag_table() -> (r: Vec<(&'static str, &'static str)>)
        ensures
            r@ == seq![
                ("msg_id", "MsgId"),
                ("acct_swtch_dtls", "AcctSwtchDtls"),
                ("new_acct", "NewAcct"),
                ("od_acct", "OdAcct"),
                ("pmt_instr", "PmtInstr"),
                ("drct_dbt_instr", "DrctDbtInstr"),
                ("splmtry_data", "SplmtryData"),
            ],
    {
        vec![
            ("msg_id", "MsgId"),
            ("acct_swtch_dtls", "AcctSwtchDtls"),
            ("new_acct", "NewAcct"),
            ("od_acct", "OdAcct"),
            ("pmt_instr", "PmtInstr"),
            ("drct_dbt_instr", "DrctDbtInstr"),
            ("splmtry_data", "SplmtryData"),
        ]
    }
}

/// An acknowledgement of a system event.
///
/// Document type `admi.011.001.01`.
#[derive(Debug)]
pub struct SystemEventAcknowledgementV01 {
    /// Tag `MsgId`.
    pub msg_id: String,
    /// Tag `OrgtrRef`.
    pub orgtr_ref: Option<String>,
    /// Tag `SttlmSsnIdr`.
    pub sttlm_ssn_idr: Option<String>,
    /// Tag `AckDtls`.
    pub ack_dtls: Option<Field>,
    /// Tag `SplmtryData`.
    pub splmtry_data: Option<Vec<Field>>,
}

impl SystemEventAcknowledgementV01 {
    /// The outcome of each child in declared order; a flag carries no check.
    pub open spec fn child_outcomes(self) -> Seq<Result<(), u32>> {
        seq![
            text_outcome(self.msg_id, MAX35_MIN, MAX35_MAX),
            optional_text_outcome(self.orgtr_ref, MAX35_MIN, MAX35_MAX),
            optional_pattern_outcome(self.sttlm_ssn_idr, SESSION_ID_PATTERN@),
            optional_outcome(self.ack_dtls),
            optional_all_outcome(self.splmtry_data),
        ]
    }

    /// The first failing child in declared order, or success.
    pub open spec fn outcome(self) -> Result<(), u32> {
        first_failure(self.child_outcomes())
    }

    /// Validates the document's children in declared order, stopping at the
    /// first failure.
    pub fn validate(&self) -> (r: Result<(), ValidationError>)
        ensures
            agrees(r, self.outcome()),
    {
        let ghost s = self.child_outcomes();
        let r = check_text(&self.msg_id, MAX35_MIN, MAX35_MAX);
        if r.is_err() {
            proof {
                lemma_first_failure_at(s, 0);
            }
            return r;
        }
        let r = check_optional_text(&self.orgtr_ref, MAX35_MIN, MAX35_MAX);
        if r.is_err() {
            proof {
                lemma_first_failure_at(s, 1);
            }
            return r;
        }
        let r = check_optional_pattern(&self.sttlm_ssn_idr, SESSION_ID_PATTERN);
        if r.is_err() {
            proof {
                lemma_first_failure_at(s, 2);
            }
            return r;
        }
        let r = check_optional(&self.ack_dtls);
        if r.is_err() {
            proof {
                lemma_first_failure_at(s, 3);
            }
            return r;
        }
        let r = check_optional_all(&self.splmtry_data);
        if r.is_err() {
            proof {
                lemma_first_failure_at(s, 4);
            }
            return r;
        }
        proof {
            lemma_first_failure_none(s);
        }
        Ok(())
    }

    /// Whether a generic record holds exactly this document: one member per
    /// child, in declared order, under the child's tag and holding its value.
    pub open spec fn matches_field(self, f: Field) -> bool {
        &&& f is Composite
        &&& f->Composite_0@.len() == 5
        &&& f->Composite_0@[0].tag@ == "MsgId"@
        &&& text_in(self.msg_id, f->Composite_0@[0].field)
        &&& f->Composite_0@[1].tag@ == "OrgtrRef"@
        &&& optional_text_in(self.orgtr_ref, f->Composite_0@[1].field)
        &&& f->Composite_0@[2].tag@ == "SttlmSsnIdr"@
        &&& optional_text_in(self.sttlm_ssn_idr, f->Composite_0@[2].field)
        &&& f->Composite_0@[3].tag@ == "AckDtls"@
        &&& optional_in(self.ack_dtls, f->Composite_0@[3].field)
        &&& f->Composite_0@[4].tag@ == "SplmtryData"@
        &&& optional_all_in(self.splmtry_data, f->Composite_0@[4].field)
    }

    /// Whether two documents hold the same values, text compared by content.
    pub open spec fn same_values(self, other: Self) -> bool {
        &&& self.msg_id@ == other.msg_id@
        &&& same_optional_text(self.orgtr_ref, other.orgtr_ref)
        &&& same_optional_text(self.sttlm_ssn_idr, other.sttlm_ssn_idr)
        &&& self.ack_dtls == other.ack_dtls
        &&& self.splmtry_data == other.splmtry_data
    }

    /// Builds the document from a generic record that holds one member per
    /// child, in declared order, under the child's tag. Any other record is
    /// refused with `CARDINALITY`.
    pub fn from_field(f: Field) -> (r: Result<Self, ValidationError>)
        ensures
            match r {
                Ok(d) => d.matches_field(f),
                Err(e) => e.code == CARDINALITY && is_standard(e) && forall|d: Self| !d.matches_field(f),
            },
    {
        let mut members = match f {
            Field::Composite(ms) => ms,
            _ => {
                return Err(ValidationError::of_code(CARDINALITY));
            },
        };
        if members.len() != 5 {
            return Err(ValidationError::of_code(CARDINALITY));
        }
        let ghost ms = members@;
        let m4 = match members.pop() {
            Some(m) => m,
            None => {
                return Err(ValidationError::of_code(CARDINALITY));
            },
        };
        assert(m4 == ms[4]);
        let m3 = match members.pop() {
            Some(m) => m,
            None => {
                return Err(ValidationError::of_code(CARDINALITY));
            },
        };
        assert(m3 == ms[3]);
        let m2 = match members.pop() {
            Some(m) => m,
            None => {
                return Err(ValidationError::of_code(CARDINALITY));
            },
        };
        assert(m2 == ms[2]);
        let m1 = match members.pop() {
            Some(m) => m,
            None => {
                return Err(ValidationError::of_code(CARDINALITY));
            },
        };
        assert(m1 == ms[1]);
        let m0 = match members.pop() {
            Some(m) => m,
            None => {
                return Err(ValidationError::of_code(CARDINALITY));
            },
        };
        assert(m0 == ms[0]);
        if !tag_matches(&m0.tag, "MsgId") {
            return Err(ValidationError::of_code(CARDINALITY));
        }
        if !tag_matches(&m1.tag, "OrgtrRef") {
            return Err(ValidationError::of_code(CARDINALITY));
        }
        if !tag_matches(&m2.tag, "SttlmSsnIdr") {
            return Err(ValidationError::of_code(CARDINALITY));
        }
        if !tag_matches(&m3.tag, "AckDtls") {
            return Err(ValidationError::of_code(CARDINALITY));
        }
        if !tag_matches(&m4.tag, "SplmtryData") {
            return Err(ValidationError::of_code(CARDINALITY));
        }
        let msg_id = match take_text(m0.field) {
            Some(v) => v,
            None => {
                return Err(ValidationError::of_code(CARDINALITY));
            },
        };
        let orgtr_ref = match take_optional_text(m1.field) {
            Some(v) => v,
            None => {
                return Err(ValidationError::of_code(CARDINALITY));
            },
        };
        let sttlm_ssn_idr = match take_optional_text(m2.field) {
            Some(v) => v,
            None => {
                return Err(ValidationError::of_code(CARDINALITY));
            },
        };
        let ack_dtls = match take_optional(m3.field) {
            Some(v) => v,
            None => {
                return Err(ValidationError::of_code(CARDINALITY));
            },
        };
        let splmtry_data = match take_optional_all(m4.field) {
            Some(v) => v,
            None => {
                return Err(ValidationError::of_code(CARDINALITY));
            },
        };
        Ok(Self { msg_id, orgtr_ref, sttlm_ssn_idr, ack_dtls, splmtry_data })
    }

    /// The document as a generic record: each child under its tag, in
    /// declared order, with the facets that this shape gives it. It validates
    /// exactly as the document does.
    pub fn into_field(self) -> (r: Field)
        ensures
            r.outcome() == self.outcome(),
            self.matches_field(r),
            r is Composite,
            r->Composite_0@.map_values(|m: Member| m.tag@) == seq![
                "MsgId"@,
                "OrgtrRef"@,
                "SttlmSsnIdr"@,
                "AckDtls"@,
                "SplmtryData"@,
            ],
    {
        let ghost before = self;
        let mut members: Vec<Member> = Vec::new();
        members.push(text_member("msg_id", "MsgId", self.msg_id, MAX35_MIN, MAX35_MAX));
        members.push(optional_text_member("orgtr_ref", "OrgtrRef", self.orgtr_ref, MAX35_MIN, MAX35_MAX));
        members.push(optional_pattern_member("sttlm_ssn_idr", "SttlmSsnIdr", self.sttlm_ssn_idr, SESSION_ID_PATTERN));
        members.push(optional_member("ack_dtls", "AckDtls", self.ack_dtls));
        members.push(optional_all_member("splmtry_data", "SplmtryData", self.splmtry_data));
        proof {
            assert(member_outcomes(members@) =~= before.child_outcomes());
            lemma_members_first_failure(members@, 0);
            assert(member_outcomes(members@).subrange(0, members@.len() as int) =~= member_outcomes(
                members@,
            ));
            assert(members@.map_values(|m: Member| m.tag@) =~= seq![
                "MsgId"@,
                "OrgtrRef"@,
                "SttlmSsnIdr"@,
                "AckDtls"@,
                "SplmtryData"@,
            ]);
        }
        Field::Composite(members)
    }

    /// The external tag of each field, in declared order, keyed by field name.
    pub fn tag_table() -> (r: Vec<(&'static str, &'static str)>)
        ensures
            r@ == seq![
                ("msg_id", "MsgId"),
                ("orgtr_ref", "OrgtrRef"),
                ("sttlm_ssn_idr", "SttlmSsnIdr"),
                ("ack_dtls", "AckDtls"),
                ("splmtry_data", "SplmtryData"),
            ],
    {
        vec![
            ("msg_id", "MsgId"),
            ("orgtr_ref", "OrgtrRef"),
            ("sttlm_ssn_idr", "SttlmSsnIdr"),
            ("ack_dtls", "AckDtls"),
            ("splmtry_data", "SplmtryData"),
        ]
    }
}

/// A request that opens an information investigation.
///
/// Document type `auth.001.001.02`.
#[derive(Debug)]
pub struct InformationRequestOpeningV02 {
    /// Tag `InvstgtnId`.
    pub invstgtn_id: String,
    /// Tag `LglMndtBsis`.
    pub lgl_mndt_bsis: Field,
    /// Tag `CnfdtltySts`.
    pub cnfdtlty_sts: bool,
    /// Tag `DueDt`.
    pub due_dt: Option<Field>,
    /// Tag `InvstgtnPrd`.
    pub invstgtn_prd: Field,
    /// Tag `SchCrit`.
    pub sch_crit: Field,
    /// Tag `SplmtryData`.
    pub splmtry_data: Option<Vec<Field>>,
}

impl InformationRequestOpeningV02 {
    /// The outcome of each child in declared order; a flag carries no check.
    pub open spec fn child_outcomes(self) -> Seq<Result<(), u32>> {
        seq![
            text_outcome(self.invstgtn_id, MAX35_MIN, MAX35_MAX),
            self.lgl_mndt_bsis.outcome(),
            Ok(()),
            optional_outcome(self.due_dt),
            self.invstgtn_prd.outcome(),
            self.sch_crit.outcome(),
            optional_all_outcome(self.splmtry_data),
        ]
    }

    /// The first failing child in declared order, or success.
    pub open spec fn outcome(self) -> Result<(), u32> {
        first_failure(self.child_outcomes())
    }

    /// Validates the document's children in declared order, stopping at the
    /// first failure.
    pub fn validate(&self) -> (r: Result<(), ValidationError>)
        ensures
            agrees(r, self.outcome()),
    {
        let ghost s = self.child_outcomes();
        let r = check_text(&self.invstgtn_id, MAX35_MIN, MAX35_MAX);
        if r.is_err() {
            proof {
                lemma_first_failure_at(s, 0);
            }
            return r;
        }
        let r = self.lgl_mndt_bsis.validate();
        if r.is_err() {
            proof {
                lemma_first_failure_at(s, 1);
            }
            return r;
        }
        let r = check_optional(&self.due_dt);
        if r.is_err() {
            proof {
                lemma_first_failure_at(s, 3);
            }
            return r;
        }
        let r = self.invstgtn_prd.validate();
        if r.is_err() {
            proof {
                lemma_first_failure_at(s, 4);
            }
            return r;
        }
        let r = self.sch_crit.validate();
        if r.is_err() {
            proof {
                lemma_first_failure_at(s, 5);
            }
            return r;
        }
        let r = check_optional_all(&self.splmtry_data);
        if r.is_err() {
            proof {
                lemma_first_failure_at(s, 6);
            }
            return r;
        }
        proof {
            lemma_first_failure_none(s);
        }
        Ok(())
    }

    /// Whether a generic record holds exactly this document: one member per
    /// child, in declared order, under the child's tag and holding its value.
    pub open spec fn matches_field(self, f: Field) -> bool {
        &&& f is Composite
        &&& f->Composite_0@.len() == 7
        &&& f->Composite_0@[0].tag@ == "InvstgtnId"@
        &&& text_in(self.invstgtn_id, f->Composite_0@[0].field)
        &&& f->Composite_0@[1].tag@ == "LglMndtBsis"@
        &&& self.lgl_mndt_bsis == f->Composite_0@[1].field
        &&& f->Composite_0@[2].tag@ == "CnfdtltySts"@
        &&& flag_in(self.cnfdtlty_sts, f->Composite_0@[2].field)
        &&& f->Composite_0@[3].tag@ == "DueDt"@
        &&& optional_in(self.due_dt, f->Composite_0@[3].field)
        &&& f->Composite_0@[4].tag@ == "InvstgtnPrd"@
        &&& self.invstgtn_prd == f->Composite_0@[4].field
        &&& f->Composite_0@[5].tag@ == "SchCrit"@
        &&& self.sch_crit == f->Composite_0@[5].field
        &&& f->Composite_0@[6].tag@ == "SplmtryData"@
        &&& optional_all_in(self.splmtry_data, f->Composite_0@[6].field)
    }

    /// Whether two documents hold the same values, text compared by content.
    pub open spec fn same_values(self, other: Self) -> bool {
        &&& self.invstgtn_id@ == other.invstgtn_id@
        &&& self.lgl_mndt_bsis == other.lgl_mndt_bsis
        &&& self.cnfdtlty_sts == other.cnfdtlty_sts
        &&& self.due_dt == other.due_dt
        &&& self.invstgtn_prd == other.invstgtn_prd
        &&& self.sch_crit == other.sch_crit
        &&& self.splmtry_data == other.splmtry_data
    }

    /// Builds the document from a generic record that holds one member per
    /// child, in declared order, under the child's tag. Any other record is
    /// refused with `CARDINALITY`.
    pub fn from_field(f: Field) -> (r: Result<Self, ValidationError>)
        ensures
            match r {
                Ok(d) => d.matches_field(f),
                Err(e) => e.code == CARDINALITY && is_standard(e) && forall|d: Self| !d.matches_field(f),
            },
    {
        let mut members = match f {
            Field::Composite(ms) => ms,
            _ => {
                return Err(ValidationError::of_code(CARDINALITY));
            },
        };
        if members.len() != 7 {
            return Err(ValidationError::of_code(CARDINALITY));
        }
        let ghost ms = members@;
        let m6 = match members.pop() {
            Some(m) => m,
            None => {
                return Err(ValidationError::of_code(CARDINALITY));
            },
        };
        assert(m6 == ms[6]);
        let m5 = match members.pop() {
            Some(m) => m,
            None => {
                return Err(ValidationError::of_code(CARDINALITY));
            },
        };
        assert(m5 == ms[5]);
        let m4 = match members.pop() {
            Some(m) => m,
            None => {
                return Err(ValidationError::of_code(CARDINALITY));
            },
        };
        assert(m4 == ms[4]);
        let m3 = match members.pop() {
            Some(m) => m,
            None => {
                return Err(ValidationError::of_code(CARDINALITY));
            },
        };
        assert(m3 == ms[3]);
        let m2 = match members.pop() {
            Some(m) => m,
            None => {
                return Err(ValidationError::of_code(CARDINALITY));
            },
        };
        assert(m2 == ms[2]);
        let m1 = match members.pop() {
            Some(m) => m,
            None => {
                return Err(ValidationError::of_code(CARDINALITY));
            },
        };
        assert(m1 == ms[1]);
        let m0 = match members.pop() {
            Some(m) => m,
            None => {
                return Err(ValidationError::of_code(CARDINALITY));
            },
        };
        assert(m0 == ms[0]);
        if !tag_matches(&m0.tag, "InvstgtnId") {
            return Err(ValidationError::of_code(CARDINALITY));
        }
        if !tag_matches(&m1.tag, "LglMndtBsis") {
            return Err(ValidationError::of_code(CARDINALITY));
        }
        if !tag_matches(&m2.tag, "CnfdtltySts") {
            return Err(ValidationError::of_code(CARDINALITY));
        }
        if !tag_matches(&m3.tag, "DueDt") {
            return Err(ValidationError::of_code(CARDINALITY));
        }
        if !tag_matches(&m4.tag, "InvstgtnPrd") {
            return Err(ValidationError::of_code(CARDINALITY));
        }
        if !tag_matches(&m5.tag, "SchCrit") {
            return Err(ValidationError::of_code(CARDINALITY));
        }
        if !tag_matches(&m6.tag, "SplmtryData") {
            return Err(ValidationError::of_code(CARDINALITY));
        }
        let invstgtn_id = match take_text(m0.field) {
            Some(v) => v,
            None => {
                return Err(ValidationError::of_code(CARDINALITY));
            },
        };
        let lgl_mndt_bsis = m1.field;
        let cnfdtlty_sts = match take_flag(m2.field) {
            Some(v) => v,
            None => {
                return Err(ValidationError::of_code(CARDINALITY));
            },
        };
        let due_dt = match take_optional(m3.field) {
            Some(v) => v,
            None => {
                return Err(ValidationError::of_code(CARDINALITY));
            },
        };
        let invstgtn_prd = m4.field;
        let sch_crit = m5.field;
        let splmtry_data = match take_optional_all(m6.field) {
            Some(v) => v,
            None => {
                return Err(ValidationError::of_code(CARDINALITY));
            },
        };
        Ok(Self { invstgtn_id, lgl_mndt_bsis, cnfdtlty_sts, due_dt, invstgtn_prd, sch_crit, splmtry_data })
    }

    /// The document as a generic record: each child under its tag, in
    /// declared order, with the facets that this shape gives it. It validates
    /// exactly as the document does.
    pub fn into_field(self) -> (r: Field)
        ensures
            r.outcome() == self.outcome(),
            self.matches_field(r),
            r is Composite,
            r->Composite_0@.map_values(|m: Member| m.tag@) == seq![
                "InvstgtnId"@,
                "LglMndtBsis"@,
                "CnfdtltySts"@,
                "DueDt"@,
                "InvstgtnPrd"@,
                "SchCrit"@,
                "SplmtryData"@,
            ],
    {
        let ghost before = self;
        let mut members: Vec<Member> = Vec::new();
        members.push(text_member("invstgtn_id", "InvstgtnId", self.invstgtn_id, MAX35_MIN, MAX35_MAX));
        members.push(child_member("lgl_mndt_bsis", "LglMndtBsis", self.lgl_mndt_bsis));
        members.push(flag_member("cnfdtlty_sts", "CnfdtltySts", self.cnfdtlty_sts));
        members.push(optional_member("due_dt", "DueDt", self.due_dt));
        members.push(child_member("invstgtn_prd", "InvstgtnPrd", self.invstgtn_prd));
        members.push(child_member("sch_crit", "SchCrit", self.sch_crit));
        members.push(optional_all_member("splmtry_data", "SplmtryData", self.splmtry_data));
        proof {
            assert(member_outcomes(members@) =~= before.child_outcomes());
            lemma_members_first_failure(members@, 0);
            assert(member_outcomes(members@).subrange(0, members@.len() as int) =~= member_outcomes(
                members@,
            ));
            assert(members@.map_values(|m: Member| m.tag@) =~= seq![
                "InvstgtnId"@,
                "LglMndtBsis"@,
                "CnfdtltySts"@,
                "DueDt"@,
                "InvstgtnPrd"@,
                "SchCrit"@,
                "SplmtryData"@,
            ]);
        }
        Field::Composite(members)
    }

    /// The external tag of each field, in declared order, keyed by field name.
    pub fn tag_table() -> (r: Vec<(&'static str, &'static str)>)
        ensures
            r@ == seq![
                ("invstgtn_id", "InvstgtnId"),
                ("lgl_mndt_bsis", "LglMndtBsis"),
                ("cnfdtlty_sts", "CnfdtltySts"),
                ("due_dt", "DueDt"),
                ("invstgtn_prd", "InvstgtnPrd"),
                ("sch_crit", "SchCrit"),
                ("splmtry_data", "SplmtryData"),
            ],
    {
        vec![
            ("invstgtn_id", "InvstgtnId"),
            ("lgl_mndt_bsis", "LglMndtBsis"),
            ("cnfdtlty_sts", "CnfdtltySts"),
            ("due_dt", "DueDt"),
            ("invstgtn_prd", "InvstgtnPrd"),
            ("sch_crit", "SchCrit"),
            ("splmtry_data", "SplmtryData"),
        ]
    }
}

/// A notification that the status of an information request changed.
///
/// Document type `auth.003.001.01`.
#[derive(Debug)]
pub struct InformationRequestStatusChangeNotificationV01 {
    /// Tag `OrgnlBizQry`.
    pub orgnl_biz_qry: String,
    /// Tag `CnfdtltySts`.
    pub cnfdtlty_sts: bool,
    /// Tag `SplmtryData`.
    pub splmtry_data: Option<Vec<Field>>,
}

impl InformationRequestStatusChangeNotificationV01 {
    /// The outcome of each child in declared order; a flag carries no check.
    pub open spec fn child_outcomes(self) -> Seq<Result<(), u32>> {
        seq![
            text_outcome(self.orgnl_biz_qry, MAX35_MIN, MAX35_MAX),
            Ok(()),
            optional_all_outcome(self.splmtry_data),
        ]
    }

    /// The first failing child in declared order, or success.
    pub open spec fn outcome(self) -> Result<(), u32> {
        first_failure(self.child_outcomes())
    }

    /// Validates the document's children in declared order, stopping at the
    /// first failure.
    pub fn validate(&self) -> (r: Result<(), ValidationError>)
        ensures
            agrees(r, self.outcome()),
    {
        let ghost s = self.child_outcomes();
        let r = check_text(&self.orgnl_biz_qry, MAX35_MIN, MAX35_MAX);
        if r.is_err() {
            proof {
                lemma_first_failure_at(s, 0);
            }
            return r;
        }
        let r = check_optional_all(&self.splmtry_data);
        if r.is_err() {
            proof {
                lemma_first_failure_at(s, 2);
            }
            return r;
        }
        proof {
            lemma_first_failure_none(s);
        }
        Ok(())
    }

    /// Whether a generic record holds exactly this document: one member per
    /// child, in declared order, under the child's tag and holding its value.
    pub open spec fn matches_field(self, f: Field) -> bool {
        &&& f is Composite
        &&& f->Composite_0@.len() == 3
        &&& f->Composite_0@[0].tag@ == "OrgnlBizQry"@
        &&& text_in(self.orgnl_biz_qry, f->Composite_0@[0].field)
        &&& f->Composite_0@[1].tag@ == "CnfdtltySts"@
        &&& flag_in(self.cnfdtlty_sts, f->Composite_0@[1].field)
        &&& f->Composite_0@[2].tag@ == "SplmtryData"@
        &&& optional_all_in(self.splmtry_data, f->Composite_0@[2].field)
    }

    /// Whether two documents hold the same values, text compared by content.
    pub open spec fn same_values(self, other: Self) -> bool {
        &&& self.orgnl_biz_qry@ == other.orgnl_biz_qry@
        &&& self.cnfdtlty_sts == other.cnfdtlty_sts
        &&& self.splmtry_data == other.splmtry_data
    }

    /// Builds the document from a generic record that holds one member per
    /// child, in declared order, under the child's tag. Any other record is
    /// refused with `CARDINALITY`.
    pub fn from_field(f: Field) -> (r: Result<Self, ValidationError>)
        ensures
            match r {
                Ok(d) => d.matches_field(f),
                Err(e) => e.code == CARDINALITY && is_standard(e) && forall|d: Self| !d.matches_field(f),
            },
    {
        let mut members = match f {
            Field::Composite(ms) => ms,
            _ => {
                return Err(ValidationError::of_code(CARDINALITY));
            },
        };
        if members.len() != 3 {
            return Err(ValidationError::of_code(CARDINALITY));
        }
        let ghost ms = members@;
        let m2 = match members.pop() {
            Some(m) => m,
            None => {
                return Err(ValidationError::of_code(CARDINALITY));
            },
        };
        assert(m2 == ms[2]);
        let m1 = match members.pop() {
            Some(m) => m,
            None => {
                return Err(ValidationError::of_code(CARDINALITY));
            },
        };
        assert(m1 == ms[1]);
        let m0 = match members.pop() {
            Some(m) => m,
            None => {
                return Err(ValidationError::of_code(CARDINALITY));
            },
        };
        assert(m0 == ms[0]);
        if !tag_matches(&m0.tag, "OrgnlBizQry") {
            return Err(ValidationError::of_code(CARDINALITY));
        }
        if !tag_matches(&m1.tag, "CnfdtltySts") {
            return Err(ValidationError::of_code(CARDINALITY));
        }
        if !tag_matches(&m2.tag, "SplmtryData") {
            return Err(ValidationError::of_code(CARDINALITY));
        }
        let orgnl_biz_qry = match take_text(m0.field) {
            Some(v) => v,
            None => {
                return Err(ValidationError::of_code(CARDINALITY));
            },
        };
        let cnfdtlty_sts = match take_flag(m1.field) {
            Some(v) => v,
            None => {
                return Err(ValidationError::of_code(CARDINALITY));
            },
        };
        let splmtry_data = match take_optional_all(m2.field) {
            Some(v) => v,
            None => {
                return Err(ValidationError::of_code(CARDINALITY));
            },
        };
        Ok(Self { orgnl_biz_qry, cnfdtlty_sts, splmtry_data })
    }

    /// The document as a generic record: each child under its tag, in
    /// declared order, with the facets that this shape gives it. It validates
    /// exactly as the document does.
    pub fn into_field(self) -> (r: Field)
        ensures
            r.outcome() == self.outcome(),
            self.matches_field(r),
            r is Composite,
            r->Composite_0@.map_values(|m: Member| m.tag@) == seq![
                "OrgnlBizQry"@,
                "CnfdtltySts"@,
                "SplmtryData"@,
            ],
    {
        let ghost before = self;
        let mut members: Vec<Member> = Vec::new();
        members.push(text_member("orgnl_biz_qry", "OrgnlBizQry", self.orgnl_biz_qry, MAX35_MIN, MAX35_MAX));
        members.push(flag_member("cnfdtlty_sts", "CnfdtltySts", self.cnfdtlty_sts));
        members.push(optional_all_member("splmtry_data", "SplmtryData", self.splmtry_data));
        proof {
            assert(member_outcomes(members@) =~= before.child_outcomes());
            lemma_members_first_failure(members@, 0);
            assert(member_outcomes(members@).subrange(0, members@.len() as int) =~= member_outcomes(
                members@,
            ));
            assert(members@.map_values(|m: Member| m.tag@) =~= seq![
                "OrgnlBizQry"@,
                "CnfdtltySts"@,
                "SplmtryData"@,
            ]);
        }
        Field::Composite(members)
    }

    /// The external tag of each field, in declared order, keyed by field name.
    pub fn tag_table() -> (r: Vec<(&'static str, &'static str)>)
        ensures
            r@ == seq![
                ("orgnl_biz_qry", "OrgnlBizQry"),
                ("cnfdtlty_sts", "CnfdtltySts"),
                ("splmtry_data", "SplmtryData"),
            ],
    {
        vec![
            ("orgnl_biz_qry", "OrgnlBizQry"),
            ("cnfdtlty_sts", "CnfdtltySts"),
            ("splmtry_data", "SplmtryData"),
        ]
    }
}

/// The resolution of a payment investigation case.
///
/// Document type `camt.029.001.13`.
#[derive(Debug)]
pub struct ResolutionOfInvestigationV13 {
    /// Tag `Assgnmt`.
    pub assgnmt: Field,
    /// Tag `RslvdCase`.
    pub rslvd_case: Option<Field>,
    /// Tag `Sts`.
    pub sts: Field,
    /// Tag `CxlDtls`.
    pub cxl_dtls: Option<Vec<Field>>,
    /// Tag `ModDtls`.
    pub mod_dtls: Option<Field>,
    /// Tag `ClmNonRctDtls`.
    pub clm_non_rct_dtls: Option<Field>,
    /// Tag `StmtDtls`.
    pub stmt_dtls: Option<Field>,
    /// Tag `CrrctnTx`.
    pub crrctn_tx: Option<Field>,
    /// Tag `RsltnRltdInf`.
    pub rsltn_rltd_inf: Option<Field>,
    /// Tag `SplmtryData`.
    pub splmtry_data: Option<Vec<Field>>,
}

impl ResolutionOfInvestigationV13 {
    /// The outcome of each child in declared order; a flag carries no check.
    pub open spec fn child_outcomes(self) -> Seq<Result<(), u32>> {
        seq![
            self.assgnmt.outcome(),
            optional_outcome(self.rslvd_case),
            self.sts.outcome(),
            optional_all_outcome(self.cxl_dtls),
            optional_outcome(self.mod_dtls),
            optional_outcome(self.clm_non_rct_dtls),
            optional_outcome(self.stmt_dtls),
            optional_outcome(self.crrctn_tx),
            optional_outcome(self.rsltn_rltd_inf),
            optional_all_outcome(self.splmtry_data),
        ]
    }

    /// The first failing child in declared order, or success.
    pub open spec fn outcome(self) -> Result<(), u32> {
        first_failure(self.child_outcomes())
    }

    /// Validates the document's children in declared order, stopping at the
    /// first failure.
    pub fn validate(&self) -> (r: Result<(), ValidationError>)
        ensures
            agrees(r, self.outcome()),
    {
        let ghost s = self.child_outcomes();
        let r = self.assgnmt.validate();
        if r.is_err() {
            proof {
                lemma_first_failure_at(s, 0);
            }
            return r;
        }
        let r = check_optional(&self.rslvd_case);
        if r.is_err() {
            proof {
                lemma_first_failure_at(s, 1);
            }
            return r;
        }
        let r = self.sts.validate();
        if r.is_err() {
            proof {
                lemma_first_failure_at(s, 2);
            }
            return r;
        }
        let r = check_optional_all(&self.cxl_dtls);
        if r.is_err() {
            proof {
                lemma_first_failure_at(s, 3);
            }
            return r;
        }
        let r = check_optional(&self.mod_dtls);
        if r.is_err() {
            proof {
                lemma_first_failure_at(s, 4);
            }
            return r;
        }
        let r = check_optional(&self.clm_non_rct_dtls);
        if r.is_err() {
            proof {
                lemma_first_failure_at(s, 5);
            }
            return r;
        }
        let r = check_optional(&self.stmt_dtls);
        if r.is_err() {
            proof {
                lemma_first_failure_at(s, 6);
            }
            return r;
        }
        let r = check_optional(&self.crrctn_tx);
        if r.is_err() {
            proof {
                lemma_first_failure_at(s, 7);
            }
            return r;
        }
        let r = check_optional(&self.rsltn_rltd_inf);
        if r.is_err() {
            proof {
                lemma_first_failure_at(s, 8);
            }
            return r;
        }
        let r = check_optional_all(&self.splmtry_data);
        if r.is_err() {
            proof {
                lemma_first_failure_at(s, 9);
            }
            return r;
        }
        proof {
            lemma_first_failure_none(s);
        }
        Ok(())
    }

    /// Whether a generic record holds exactly this document: one member per
    /// child, in declared order, under the child's tag and holding its value.
    pub open spec fn matches_field(self, f: Field) -> bool {
        &&& f is Composite
        &&& f->Composite_0@.len() == 10
        &&& f->Composite_0@[0].tag@ == "Assgnmt"@
        &&& self.assgnmt == f->Composite_0@[0].field
        &&& f->Composite_0@[1].tag@ == "RslvdCase"@
        &&& optional_in(self.rslvd_case, f->Composite_0@[1].field)
        &&& f->Composite_0@[2].tag@ == "Sts"@
        &&& self.sts == f->Composite_0@[2].field
        &&& f->Composite_0@[3].tag@ == "CxlDtls"@
        &&& optional_all_in(self.cxl_dtls, f->Composite_0@[3].field)
        &&& f->Composite_0@[4].tag@ == "ModDtls"@
        &&& optional_in(self.mod_dtls, f->Composite_0@[4].field)
        &&& f->Composite_0@[5].tag@ == "ClmNonRctDtls"@
        &&& optional_in(self.clm_non_rct_dtls, f->Composite_0@[5].field)
        &&& f->Composite_0@[6].tag@ == "StmtDtls"@
        &&& optional_in(self.stmt_dtls, f->Composite_0@[6].field)
        &&& f->Composite_0@[7].tag@ == "CrrctnTx"@
        &&& optional_in(self.crrctn_tx, f->Composite_0@[7].field)
        &&& f->Composite_0@[8].tag@ == "RsltnRltdInf"@
        &&& optional_in(self.rsltn_rltd_inf, f->Composite_0@[8].field)
        &&& f->Composite_0@[9].tag@ == "SplmtryData"@
        &&& optional_all_in(self.splmtry_data, f->Composite_0@[9].field)
    }

    /// Whether two documents hold the same values, text compared by content.
    pub open spec fn same_values(self, other: Self) -> bool {
        &&& self.assgnmt == other.assgnmt
        &&& self.rslvd_case == other.rslvd_case
        &&& self.sts == other.sts
        &&& self.cxl_dtls == other.cxl_dtls
        &&& self.mod_dtls == other.mod_dtls
        &&& self.clm_non_rct_dtls == other.clm_non_rct_dtls
        &&& self.stmt_dtls == other.stmt_dtls
        &&& self.crrctn_tx == other.crrctn_tx
        &&& self.rsltn_rltd_inf == other.rsltn_rltd_inf
        &&& self.splmtry_data == other.splmtry_data
    }

    /// Builds the document from a generic record that holds one member per
    /// child, in declared order, under the child's tag. Any other record is
    /// refused with `CARDINALITY`.
    pub fn from_field(f: Field) -> (r: Result<Self, ValidationError>)
        ensures
            match r {
                Ok(d) => d.matches_field(f),
                Err(e) => e.code == CARDINALITY && is_standard(e) && forall|d: Self| !d.matches_field(f),
            },
    {
        let mut members = match f {
            Field::Composite(ms) => ms,
            _ => {
                return Err(ValidationError::of_code(CARDINALITY));
            },
        };
        if members.len() != 10 {
            return Err(ValidationError::of_code(CARDINALITY));
        }
        let ghost ms = members@;
        let m9 = match members.pop() {
            Some(m) => m,
            None => {
                return Err(ValidationError::of_code(CARDINALITY));
            },
        };
        assert(m9 == ms[9]);
        let m8 = match members.pop() {
            Some(m) => m,
            None => {
                return Err(ValidationError::of_code(CARDINALITY));
            },
        };
        assert(m8 == ms[8]);
        let m7 = match members.pop() {
            Some(m) => m,
            None => {
                return Err(ValidationError::of_code(CARDINALITY));
            },
        };
        assert(m7 == ms[7]);
        let m6 = match members.pop() {
            Some(m) => m,
            None => {
                return Err(ValidationError::of_code(CARDINALITY));
            },
        };
        assert(m6 == ms[6]);
        let m5 = match members.pop() {
            Some(m) => m,
            None => {
                return Err(ValidationError::of_code(CARDINALITY));
            },
        };
        assert(m5 == ms[5]);
        let m4 = match members.pop() {
            Some(m) => m,
            None => {
                return Err(ValidationError::of_code(CARDINALITY));
            },
        };
        assert(m4 == ms[4]);
        let m3 = match members.pop() {
            Some(m) => m,
            None => {
                return Err(ValidationError::of_code(CARDINALITY));
            },
        };
        assert(m3 == ms[3]);
        let m2 = match members.pop() {
            Some(m) => m,
            None => {
                return Err(ValidationError::of_code(CARDINALITY));
            },
        };
        assert(m2 == ms[2]);
        let m1 = match members.pop() {
            Some(m) => m,
            None => {
                return Err(ValidationError::of_code(CARDINALITY));
            },
        };
        assert(m1 == ms[1]);
        let m0 = match members.pop() {
            Some(m) => m,
            None => {
                return Err(ValidationError::of_code(CARDINALITY));
            },
        };
        assert(m0 == ms[0]);
        if !tag_matches(&m0.tag, "Assgnmt") {
            return Err(ValidationError::of_code(CARDINALITY));
        }
        if !tag_matches(&m1.tag, "RslvdCase") {
            return Err(ValidationError::of_code(CARDINALITY));
        }
        if !tag_matches(&m2.tag, "Sts") {
            return Err(ValidationError::of_code(CARDINALITY));
        }
        if !tag_matches(&m3.tag, "CxlDtls") {
            return Err(ValidationError::of_code(CARDINALITY));
        }
        if !tag_matches(&m4.tag, "ModDtls") {
            return Err(ValidationError::of_code(CARDINALITY));
        }
        if !tag_matches(&m5.tag, "ClmNonRctDtls") {
            return Err(ValidationError::of_code(CARDINALITY));
        }
        if !tag_matches(&m6.tag, "StmtDtls") {
            return Err(ValidationError::of_code(CARDINALITY));
        }
        if !tag_matches(&m7.tag, "CrrctnTx") {
            return Err(ValidationError::of_code(CARDINALITY));
        }
        if !tag_matches(&m8.tag, "RsltnRltdInf") {
            return Err(ValidationError::of_code(CARDINALITY));
        }
        if !tag_matches(&m9.tag, "SplmtryData") {
            return Err(ValidationError::of_code(CARDINALITY));
        }
        let assgnmt = m0.field;
        let rslvd_case = match take_optional(m1.field) {
            Some(v) => v,
            None => {
                return Err(ValidationError::of_code(CARDINALITY));
            },
        };
        let sts = m2.field;
        let cxl_dtls = match take_optional_all(m3.field) {
            Some(v) => v,
            None => {
                return Err(ValidationError::of_code(CARDINALITY));
            },
        };
        let mod_dtls = match take_optional(m4.field) {
            Some(v) => v,
            None => {
                return Err(ValidationError::of_code(CARDINALITY));
            },
        };
        let clm_non_rct_dtls = match take_optional(m5.field) {
            Some(v) => v,
            None => {
                return Err(ValidationError::of_code(CARDINALITY));
            },
        };
        let stmt_dtls = match take_optional(m6.field) {
            Some(v) => v,
            None => {
                return Err(ValidationError::of_code(CARDINALITY));
            },
        };
        let crrctn_tx = match take_optional(m7.field) {
            Some(v) => v,
            None => {
                return Err(ValidationError::of_code(CARDINALITY));
            },
        };
        let rsltn_rltd_inf = match take_optional(m8.field) {
            Some(v) => v,
            None => {
                return Err(ValidationError::of_code(CARDINALITY));
            },
        };
        let splmtry_data = match take_optional_all(m9.field) {
            Some(v) => v,
            None => {
                return Err(ValidationError::of_code(CARDINALITY));
            },
        };
        Ok(Self { assgnmt, rslvd_case, sts, cxl_dtls, mod_dtls, clm_non_rct_dtls, stmt_dtls, crrctn_tx, rsltn_rltd_inf, splmtry_data })
    }

    /// The document as a generic record: each child under its tag, in
    /// declared order, with the facets that this shape gives it. It validates
    /// exactly as the document does.
    pub fn into_field(self) -> (r: Field)
        ensures
            r.outcome() == self.outcome(),
            self.matches_field(r),
            r is Composite,
            r->Composite_0@.map_values(|m: Member| m.tag@) == seq![
                "Assgnmt"@,
                "RslvdCase"@,
                "Sts"@,
                "CxlDtls"@,
                "ModDtls"@,
                "ClmNonRctDtls"@,
                "StmtDtls"@,
                "CrrctnTx"@,
                "RsltnRltdInf"@,
                "SplmtryData"@,
            ],
    {
        let ghost before = self;
        let mut members: Vec<Member> = Vec::new();
        members.push(child_member("assgnmt", "Assgnmt", self.assgnmt));
        members.push(optional_member("rslvd_case", "RslvdCase", self.rslvd_case));
        members.push(child_member("sts", "Sts", self.sts));
        members.push(optional_all_member("cxl_dtls", "CxlDtls", self.cxl_dtls));
        members.push(optional_member("mod_dtls", "ModDtls", self.mod_dtls));
        members.push(optional_member("clm_non_rct_dtls", "ClmNonRctDtls", self.clm_non_rct_dtls));
        members.push(optional_member("stmt_dtls", "StmtDtls", self.stmt_dtls));
        members.push(optional_member("crrctn_tx", "CrrctnTx", self.crrctn_tx));
        members.push(optional_member("rsltn_rltd_inf", "RsltnRltdInf", self.rsltn_rltd_inf));
        members.push(optional_all_member("splmtry_data", "SplmtryData", self.splmtry_data));
        proof {
            assert(member_outcomes(members@) =~= before.child_outcomes());
            lemma_members_first_failure(members@, 0);
            assert(member_outcomes(members@).subrange(0, members@.len() as int) =~= member_outcomes(
                members@,
            ));
            assert(members@.map_values(|m: Member| m.tag@) =~= seq![
                "Assgnmt"@,
                "RslvdCase"@,
                "Sts"@,
                "CxlDtls"@,
                "ModDtls"@,
                "ClmNonRctDtls"@,
                "StmtDtls"@,
                "CrrctnTx"@,
                "RsltnRltdInf"@,
                "SplmtryData"@,
            ]);
        }
        Field::Composite(members)
    }

    /// The external tag of each field, in declared order, keyed by field name.
    pub fn tag_table() -> (r: Vec<(&'static str, &'static str)>)
        ensures
            r@ == seq![
                ("assgnmt", "Assgnmt"),
                ("rslvd_case", "RslvdCase"),
                ("sts", "Sts"),
                ("cxl_dtls", "CxlDtls"),
                ("mod_dtls", "ModDtls"),
                ("clm_non_rct_dtls", "ClmNonRctDtls"),
                ("stmt_dtls", "StmtDtls"),
                ("crrctn_tx", "CrrctnTx"),
                ("rsltn_rltd_inf", "RsltnRltdInf"),
                ("splmtry_data", "SplmtryData"),
            ],
    {
        vec![
            ("assgnmt", "Assgnmt"),
            ("rslvd_case", "RslvdCase"),
            ("sts", "Sts"),
            ("cxl_dtls", "CxlDtls"),
            ("mod_dtls", "ModDtls"),
            ("clm_non_rct_dtls", "ClmNonRctDtls"),
            ("stmt_dtls", "StmtDtls"),
            ("crrctn_tx", "CrrctnTx"),
            ("rsltn_rltd_inf", "RsltnRltdInf"),
            ("splmtry_data", "SplmtryData"),
        ]
    }
}

/// A detailed estimated cash forecast report for a fund.
///
/// Document type `camt.042.001.04`.
#[derive(Debug)]
pub struct FundDetailedEstimatedCashForecastReportV04 {
    /// Tag `MsgId`.
    pub msg_id: Field,
    /// Tag `PoolRef`.
    pub pool_ref: Option<Field>,
    /// Tag `PrvsRef`.
    pub prvs_ref: Option<Vec<Field>>,
    /// Tag `RltdRef`.
    pub rltd_ref: Option<Vec<Field>>,
    /// Tag `MsgPgntn`.
    pub msg_pgntn: Field,
    /// Tag `FndOrSubFndDtls`.
    pub fnd_or_sub_fnd_dtls: Option<Field>,
    /// Tag `EstmtdFndCshFcstDtls`.
    pub estmtd_fnd_csh_fcst_dtls: Vec<Field>,
    /// Tag `CnsltdNetCshFcst`.
    pub cnsltd_net_csh_fcst: Option<Field>,
    /// Tag `Xtnsn`.
    pub xtnsn: Option<Vec<Field>>,
}

impl FundDetailedEstimatedCashForecastReportV04 {
    /// The outcome of each child in declared order; a flag carries no check.
    pub open spec fn child_outcomes(self) -> Seq<Result<(), u32>> {
        seq![
            self.msg_id.outcome(),
            optional_outcome(self.pool_ref),
            optional_all_outcome(self.prvs_ref),
            optional_all_outcome(self.rltd_ref),
            self.msg_pgntn.outcome(),
            optional_outcome(self.fnd_or_sub_fnd_dtls),
            all_outcome(self.estmtd_fnd_csh_fcst_dtls),
            optional_outcome(self.cnsltd_net_csh_fcst),
            optional_all_outcome(self.xtnsn),
        ]
    }

    /// The first failing child in declared order, or success.
    pub open spec fn outcome(self) -> Result<(), u32> {
        first_failure(self.child_outcomes())
    }

    /// Validates the document's children in declared order, stopping at the
    /// first failure.
    pub fn validate(&self) -> (r: Result<(), ValidationError>)
        ensures
            agrees(r, self.outcome()),
    {
        let ghost s = self.child_outcomes();
        let r = self.msg_id.validate();
        if r.is_err() {
            proof {
                lemma_first_failure_at(s, 0);
            }
            return r;
        }
        let r = check_optional(&self.pool_ref);
        if r.is_err() {
            proof {
                lemma_first_failure_at(s, 1);
            }
            return r;
        }
        let r = check_optional_all(&self.prvs_ref);
        if r.is_err() {
            proof {
                lemma_first_failure_at(s, 2);
            }
            return r;
        }
        let r = check_optional_all(&self.rltd_ref);
        if r.is_err() {
            proof {
                lemma_first_failure_at(s, 3);
            }
            return r;
        }
        let r = self.msg_pgntn.validate();
        if r.is_err() {
            proof {
                lemma_first_failure_at(s, 4);
            }
            return r;
        }
        let r = check_optional(&self.fnd_or_sub_fnd_dtls);
        if r.is_err() {
            proof {
                lemma_first_failure_at(s, 5);
            }
            return r;
        }
        let r = check_all(&self.estmtd_fnd_csh_fcst_dtls);
        if r.is_err() {
            proof {
                lemma_first_failure_at(s, 6);
            }
            return r;
        }
        let r = check_optional(&self.cnsltd_net_csh_fcst);
        if r.is_err() {
            proof {
                lemma_first_failure_at(s, 7);
            }
            return r;
        }
        let r = check_optional_all(&self.xtnsn);
        if r.is_err() {
            proof {
                lemma_first_failure_at(s, 8);
            }
            return r;
        }
        proof {
            lemma_first_failure_none(s);
        }
        Ok(())
    }

    /// Whether a generic record holds exactly this document: one member per
    /// child, in declared order, under the child's tag and holding its value.
    pub open spec fn matches_field(self, f: Field) -> bool {
        &&& f is Composite
        &&& f->Composite_0@.len() == 9
        &&& f->Composite_0@[0].tag@ == "MsgId"@
        &&& self.msg_id == f->Composite_0@[0].field
        &&& f->Composite_0@[1].tag@ == "PoolRef"@
        &&& optional_in(self.pool_ref, f->Composite_0@[1].field)
        &&& f->Composite_0@[2].tag@ == "PrvsRef"@
        &&& optional_all_in(self.prvs_ref, f->Composite_0@[2].field)
        &&& f->Composite_0@[3].tag@ == "RltdRef"@
        &&& optional_all_in(self.rltd_ref, f->Composite_0@[3].field)
        &&& f->Composite_0@[4].tag@ == "MsgPgntn"@
        &&& self.msg_pgntn == f->Composite_0@[4].field
        &&& f->Composite_0@[5].tag@ == "FndOrSubFndDtls"@
        &&& optional_in(self.fnd_or_sub_fnd_dtls, f->Composite_0@[5].field)
        &&& f->Composite_0@[6].tag@ == "EstmtdFndCshFcstDtls"@
        &&& all_in(self.estmtd_fnd_csh_fcst_dtls, f->Composite_0@[6].field)
        &&& f->Composite_0@[7].tag@ == "CnsltdNetCshFcst"@
        &&& optional_in(self.cnsltd_net_csh_fcst, f->Composite_0@[7].field)
        &&& f->Composite_0@[8].tag@ == "Xtnsn"@
        &&& optional_all_in(self.xtnsn, f->Composite_0@[8].field)
    }

    /// Whether two documents hold the same values, text compared by content.
    pub open spec fn same_values(self, other: Self) -> bool {
        &&& self.msg_id == other.msg_id
        &&& self.pool_ref == other.pool_ref
        &&& self.prvs_ref == other.prvs_ref
        &&& self.rltd_ref == other.rltd_ref
        &&& self.msg_pgntn == other.msg_pgntn
        &&& self.fnd_or_sub_fnd_dtls == other.fnd_or_sub_fnd_dtls
        &&& self.estmtd_fnd_csh_fcst_dtls == other.estmtd_fnd_csh_fcst_dtls
        &&& self.cnsltd_net_csh_fcst == other.cnsltd_net_csh_fcst
        &&& self.xtnsn == other.xtnsn
    }

    /// Builds the document from a generic record that holds one member per
    /// child, in declared order, under the child's tag. Any other record is
    /// refused with `CARDINALITY`.
    pub fn from_field(f: Field) -> (r: Result<Self, ValidationError>)
        ensures
            match r {
                Ok(d) => d.matches_field(f),
                Err(e) => e.code == CARDINALITY && is_standard(e) && forall|d: Self| !d.matches_field(f),
            },
    {
        let mut members = match f {
            Field::Composite(ms) => ms,
            _ => {
                return Err(ValidationError::of_code(CARDINALITY));
            },
        };
        if members.len() != 9 {
            return Err(ValidationError::of_code(CARDINALITY));
        }
        let ghost ms = members@;
        let m8 = match members.pop() {
            Some(m) => m,
            None => {
                return Err(ValidationError::of_code(CARDINALITY));
            },
        };
        assert(m8 == ms[8]);
        let m7 = match members.pop() {
            Some(m) => m,
            None => {
                return Err(ValidationError::of_code(CARDINALITY));
            },
        };
        assert(m7 == ms[7]);
        let m6 = match members.pop() {
            Some(m) => m,
            None => {
                return Err(ValidationError::of_code(CARDINALITY));
            },
        };
        assert(m6 == ms[6]);
        let m5 = match members.pop() {
            Some(m) => m,
            None => {
                return Err(ValidationError::of_code(CARDINALITY));
            },
        };
        assert(m5 == ms[5]);
        let m4 = match members.pop() {
            Some(m) => m,
            None => {
                return Err(ValidationError::of_code(CARDINALITY));
            },
        };
        assert(m4 == ms[4]);
        let m3 = match members.pop() {
            Some(m) => m,
            None => {
                return Err(ValidationError::of_code(CARDINALITY));
            },
        };
        assert(m3 == ms[3]);
        let m2 = match members.pop() {
            Some(m) => m,
            None => {
                return Err(ValidationError::of_code(CARDINALITY));
            },
        };
        assert(m2 == ms[2]);
        let m1 = match members.pop() {
            Some(m) => m,
            None => {
                return Err(ValidationError::of_code(CARDINALITY));
            },
        };
        assert(m1 == ms[1]);
        let m0 = match members.pop() {
            Some(m) => m,
            None => {
                return Err(ValidationError::of_code(CARDINALITY));
            },
        };
        assert(m0 == ms[0]);
        if !tag_matches(&m0.tag, "MsgId") {
            return Err(ValidationError::of_code(CARDINALITY));
        }
        if !tag_matches(&m1.tag, "PoolRef") {
            return Err(ValidationError::of_code(CARDINALITY));
        }
        if !tag_matches(&m2.tag, "PrvsRef") {
            return Err(ValidationError::of_code(CARDINALITY));
        }
        if !tag_matches(&m3.tag, "RltdRef") {
            return Err(ValidationError::of_code(CARDINALITY));
        }
        if !tag_matches(&m4.tag, "MsgPgntn") {
            return Err(ValidationError::of_code(CARDINALITY));
        }
        if !tag_matches(&m5.tag, "FndOrSubFndDtls") {
            return Err(ValidationError::of_code(CARDINALITY));
        }
        if !tag_matches(&m6.tag, "EstmtdFndCshFcstDtls") {
            return Err(ValidationError::of_code(CARDINALITY));
        }
        if !tag_matches(&m7.tag, "CnsltdNetCshFcst") {
            return Err(ValidationError::of_code(CARDINALITY));
        }
        if !tag_matches(&m8.tag, "Xtnsn") {
            return Err(ValidationError::of_code(CARDINALITY));
        }
        let msg_id = m0.field;
        let pool_ref = match take_optional(m1.field) {
            Some(v) => v,
            None => {
                return Err(ValidationError::of_code(CARDINALITY));
            },
        };
        let prvs_ref = match take_optional_all(m2.field) {
            Some(v) => v,
            None => {
                return Err(ValidationError::of_code(CARDINALITY));
            },
        };
        let rltd_ref = match take_optional_all(m3.field) {
            Some(v) => v,
            None => {
                return Err(ValidationError::of_code(CARDINALITY));
            },
        };
        let msg_pgntn = m4.field;
        let fnd_or_sub_fnd_dtls = match take_optional(m5.field) {
            Some(v) => v,
            None => {
                return Err(ValidationError::of_code(CARDINALITY));
            },
        };
        let estmtd_fnd_csh_fcst_dtls = match take_all(m6.field) {
            Some(v) => v,
            None => {
                return Err(ValidationError::of_code(CARDINALITY));
            },
        };
        let cnsltd_net_csh_fcst = match take_optional(m7.field) {
            Some(v) => v,
            None => {
                return Err(ValidationError::of_code(CARDINALITY));
            },
        };
        let xtnsn = match take_optional_all(m8.field) {
            Some(v) => v,
            None => {
                return Err(ValidationError::of_code(CARDINALITY));
            },
        };
        Ok(Self { msg_id, pool_ref, prvs_ref, rltd_ref, msg_pgntn, fnd_or_sub_fnd_dtls, estmtd_fnd_csh_fcst_dtls, cnsltd_net_csh_fcst, xtnsn })
    }

    /// The document as a generic record: each child under its tag, in
    /// declared order, with the facets that this shape gives it. It validates
    /// exactly as the document does.
    pub fn into_field(self) -> (r: Field)
        ensures
            r.outcome() == self.outcome(),
            self.matches_field(r),
            r is Composite,
            r->Composite_0@.map_values(|m: Member| m.tag@) == seq![
                "MsgId"@,
                "PoolRef"@,
                "PrvsRef"@,
                "RltdRef"@,
                "MsgPgntn"@,
                "FndOrSubFndDtls"@,
                "EstmtdFndCshFcstDtls"@,
                "CnsltdNetCshFcst"@,
                "Xtnsn"@,
            ],
    {
        let ghost before = self;
        let mut members: Vec<Member> = Vec::new();
        members.push(child_member("msg_id", "MsgId", self.msg_id));
        members.push(optional_member("pool_ref", "PoolRef", self.pool_ref));
        members.push(optional_all_member("prvs_ref", "PrvsRef", self.prvs_ref));
        members.push(optional_all_member("rltd_ref", "RltdRef", self.rltd_ref));
        members.push(child_member("msg_pgntn", "MsgPgntn", self.msg_pgntn));
        members.push(optional_member("fnd_or_sub_fnd_dtls", "FndOrSubFndDtls", self.fnd_or_sub_fnd_dtls));
        members.push(all_member("estmtd_fnd_csh_fcst_dtls", "EstmtdFndCshFcstDtls", self.estmtd_fnd_csh_fcst_dtls));
        members.push(optional_member("cnsltd_net_csh_fcst", "CnsltdNetCshFcst", self.cnsltd_net_csh_fcst));
        members.push(optional_all_member("xtnsn", "Xtnsn", self.xtnsn));
        proof {
            assert(member_outcomes(members@) =~= before.child_outcomes());
            lemma_members_first_failure(members@, 0);
            assert(member_outcomes(members@).subrange(0, members@.len() as int) =~= member_outcomes(
                members@,
            ));
            assert(members@.map_values(|m: Member| m.tag@) =~= seq![
                "MsgId"@,
                "PoolRef"@,
                "PrvsRef"@,
                "RltdRef"@,
                "MsgPgntn"@,
                "FndOrSubFndDtls"@,
                "EstmtdFndCshFcstDtls"@,
                "CnsltdNetCshFcst"@,
                "Xtnsn"@,
            ]);
        }
        Field::Composite(members)
    }

    /// The external tag of each field, in declared order, keyed by field name.
    pub fn tag_table() -> (r: Vec<(&'static str, &'static str)>)
        ensures
            r@ == seq![
                ("msg_id", "MsgId"),
                ("pool_ref", "PoolRef"),
                ("prvs_ref", "PrvsRef"),
                ("rltd_ref", "RltdRef"),
                ("msg_pgntn", "MsgPgntn"),
                ("fnd_or_sub_fnd_dtls", "FndOrSubFndDtls"),
                ("estmtd_fnd_csh_fcst_dtls", "EstmtdFndCshFcstDtls"),
                ("cnsltd_net_csh_fcst", "CnsltdNetCshFcst"),
                ("xtnsn", "Xtnsn"),
            ],
    {
        vec![
            ("msg_id", "MsgId"),
            ("pool_ref", "PoolRef"),
            ("prvs_ref", "PrvsRef"),
            ("rltd_ref", "RltdRef"),
            ("msg_pgntn", "MsgPgntn"),
            ("fnd_or_sub_fnd_dtls", "FndOrSubFndDtls"),
            ("estmtd_fnd_csh_fcst_dtls", "EstmtdFndCshFcstDtls"),
            ("cnsltd_net_csh_fcst", "CnsltdNetCshFcst"),
            ("xtnsn", "Xtnsn"),
        ]
    }
}

/// An instruction to move cash between balances of one account.
///
/// Document type `camt.066.001.02`.
#[derive(Debug)]
pub struct IntraBalanceMovementInstructionV02 {
    /// Tag `Id`.
    pub id: Option<Field>,
    /// Tag `CorpActnEvtId`.
    pub corp_actn_evt_id: Option<String>,
    /// Tag `NbCounts`.
    pub nb_counts: Option<Field>,
    /// Tag `Lnkgs`.
    pub lnkgs: Option<Vec<Field>>,
    /// Tag `CshAcct`.
    pub csh_acct: Field,
    /// Tag `CshAcctOwnr`.
    pub csh_acct_ownr: Option<Field>,
    /// Tag `CshAcctSvcr`.
    pub csh_acct_svcr: Option<Field>,
    /// Tag `IntraBal`.
    pub intra_bal: Field,
    /// Tag `SplmtryData`.
    pub splmtry_data: Option<Vec<Field>>,
}

impl IntraBalanceMovementInstructionV02 {
    /// The outcome of each child in declared order; a flag carries no check.
    pub open spec fn child_outcomes(self) -> Seq<Result<(), u32>> {
        seq![
            optional_outcome(self.id),
            optional_text_outcome(self.corp_actn_evt_id, MAX35_MIN, MAX35_MAX),
            optional_outcome(self.nb_counts),
            optional_all_outcome(self.lnkgs),
            self.csh_acct.outcome(),
            optional_outcome(self.csh_acct_ownr),
            optional_outcome(self.csh_acct_svcr),
            self.intra_bal.outcome(),
            optional_all_outcome(self.splmtry_data),
        ]
    }

    /// The first failing child in declared order, or success.
    pub open spec fn outcome(self) -> Result<(), u32> {
        first_failure(self.child_outcomes())
    }

    /// Validates the document's children in declared order, stopping at the
    /// first failure.
    pub fn validate(&self) -> (r: Result<(), ValidationError>)
        ensures
            agrees(r, self.outcome()),
    {
        let ghost s = self.child_outcomes();
        let r = check_optional(&self.id);
        if r.is_err() {
            proof {
                lemma_first_failure_at(s, 0);
            }
            return r;
        }
        let r = check_optional_text(&self.corp_actn_evt_id, MAX35_MIN, MAX35_MAX);
        if r.is_err() {
            proof {
                lemma_first_failure_at(s, 1);
            }
            return r;
        }
        let r = check_optional(&self.nb_counts);
        if r.is_err() {
            proof {
                lemma_first_failure_at(s, 2);
            }
            return r;
        }
        let r = check_optional_all(&self.lnkgs);
        if r.is_err() {
            proof {
                lemma_first_failure_at(s, 3);
            }
            return r;
        }
        let r = self.csh_acct.validate();
        if r.is_err() {
            proof {
                lemma_first_failure_at(s, 4);
            }
            return r;
        }
        let r = check_optional(&self.csh_acct_ownr);
        if r.is_err() {
            proof {
                lemma_first_failure_at(s, 5);
            }
            return r;
        }
        let r = check_optional(&self.csh_acct_svcr);
        if r.is_err() {
            proof {
                lemma_first_failure_at(s, 6);
            }
            return r;
        }
        let r = self.intra_bal.validate();
        if r.is_err() {
            proof {
                lemma_first_failure_at(s, 7);
            }
            return r;
        }
        let r = check_optional_all(&self.splmtry_data);
        if r.is_err() {
            proof {
                lemma_first_failure_at(s, 8);
            }
            return r;
        }
        proof {
            lemma_first_failure_none(s);
        }
        Ok(())
    }

    /// Whether a generic record holds exactly this document: one member per
    /// child, in declared order, under the child's tag and holding its value.
    pub open spec fn matches_field(self, f: Field) -> bool {
        &&& f is Composite
        &&& f->Composite_0@.len() == 9
        &&& f->Composite_0@[0].tag@ == "Id"@
        &&& optional_in(self.id, f->Composite_0@[0].field)
        &&& f->Composite_0@[1].tag@ == "CorpActnEvtId"@
        &&& optional_text_in(self.corp_actn_evt_id, f->Composite_0@[1].field)
        &&& f->Composite_0@[2].tag@ == "NbCounts"@
        &&& optional_in(self.nb_counts, f->Composite_0@[2].field)
        &&& f->Composite_0@[3].tag@ == "Lnkgs"@
        &&& optional_all_in(self.lnkgs, f->Composite_0@[3].field)
        &&& f->Composite_0@[4].tag@ == "CshAcct"@
        &&& self.csh_acct == f->Composite_0@[4].field
        &&& f->Composite_0@[5].tag@ == "CshAcctOwnr"@
        &&& optional_in(self.csh_acct_ownr, f->Composite_0@[5].field)
        &&& f->Composite_0@[6].tag@ == "CshAcctSvcr"@
        &&& optional_in(self.csh_acct_svcr, f->Composite_0@[6].field)
        &&& f->Composite_0@[7].tag@ == "IntraBal"@
        &&& self.intra_bal == f->Composite_0@[7].field
        &&& f->Composite_0@[8].tag@ == "SplmtryData"@
        &&& optional_all_in(self.splmtry_data, f->Composite_0@[8].field)
    }

    /// Whether two documents hold the same values, text compared by content.
    pub open spec fn same_values(self, other: Self) -> bool {
        &&& self.id == other.id
        &&& same_optional_text(self.corp_actn_evt_id, other.corp_actn_evt_id)
        &&& self.nb_counts == other.nb_counts
        &&& self.lnkgs == other.lnkgs
        &&& self.csh_acct == other.csh_acct
        &&& self.csh_acct_ownr == other.csh_acct_ownr
        &&& self.csh_acct_svcr == other.csh_acct_svcr
        &&& self.intra_bal == other.intra_bal
        &&& self.splmtry_data == other.splmtry_data
    }

    /// Builds the document from a generic record that holds one member per
    /// child, in declared order, under the child's tag. Any other record is
    /// refused with `CARDINALITY`.
    pub fn from_field(f: Field) -> (r: Result<Self, ValidationError>)
        ensures
            match r {
                Ok(d) => d.matches_field(f),
                Err(e) => e.code == CARDINALITY && is_standard(e) && forall|d: Self| !d.matches_field(f),
            },
    {
        let mut members = match f {
            Field::Composite(ms) => ms,
            _ => {
                return Err(ValidationError::of_code(CARDINALITY));
            },
        };
        if members.len() != 9 {
            return Err(ValidationError::of_code(CARDINALITY));
        }
        let ghost ms = members@;
        let m8 = match members.pop() {
            Some(m) => m,
            None => {
                return Err(ValidationError::of_code(CARDINALITY));
            },
        };
        assert(m8 == ms[8]);
        let m7 = match members.pop() {
            Some(m) => m,
            None => {
                return Err(ValidationError::of_code(CARDINALITY));
            },
        };
        assert(m7 == ms[7]);
        let m6 = match members.pop() {
            Some(m) => m,
            None => {
                return Err(ValidationError::of_code(CARDINALITY));
            },
        };
        assert(m6 == ms[6]);
        let m5 = match members.pop() {
            Some(m) => m,
            None => {
                return Err(ValidationError::of_code(CARDINALITY));
            },
        };
        assert(m5 == ms[5]);
        let m4 = match members.pop() {
            Some(m) => m,
            None => {
                return Err(ValidationError::of_code(CARDINALITY));
            },
        };
        assert(m4 == ms[4]);
        let m3 = match members.pop() {
            Some(m) => m,
            None => {
                return Err(ValidationError::of_code(CARDINALITY));
            },
        };
        assert(m3 == ms[3]);
        let m2 = match members.pop() {
            Some(m) => m,
            None => {
                return Err(ValidationError::of_code(CARDINALITY));
            },
        };
        assert(m2 == ms[2]);
        let m1 = match members.pop() {
            Some(m) => m,
            None => {
                return Err(ValidationError::of_code(CARDINALITY));
            },
        };
        assert(m1 == ms[1]);
        let m0 = match members.pop() {
            Some(m) => m,
            None => {
                return Err(ValidationError::of_code(CARDINALITY));
            },
        };
        assert(m0 == ms[0]);
        if !tag_matches(&m0.tag, "Id") {
            return Err(ValidationError::of_code(CARDINALITY));
        }
        if !tag_matches(&m1.tag, "CorpActnEvtId") {
            return Err(ValidationError::of_code(CARDINALITY));
        }
        if !tag_matches(&m2.tag, "NbCounts") {
            return Err(ValidationError::of_code(CARDINALITY));
        }
        if !tag_matches(&m3.tag, "Lnkgs") {
            return Err(ValidationError::of_code(CARDINALITY));
        }
        if !tag_matches(&m4.tag, "CshAcct") {
            return Err(ValidationError::of_code(CARDINALITY));
        }
        if !tag_matches(&m5.tag, "CshAcctOwnr") {
            return Err(ValidationError::of_code(CARDINALITY));
        }
        if !tag_matches(&m6.tag, "CshAcctSvcr") {
            return Err(ValidationError::of_code(CARDINALITY));
        }
        if !tag_matches(&m7.tag, "IntraBal") {
            return Err(ValidationError::of_code(CARDINALITY));
        }
        if !tag_matches(&m8.tag, "SplmtryData") {
            return Err(ValidationError::of_code(CARDINALITY));
        }
        let id = match take_optional(m0.field) {
            Some(v) => v,
            None => {
                return Err(ValidationError::of_code(CARDINALITY));
            },
        };
        let corp_actn_evt_id = match take_optional_text(m1.field) {
            Some(v) => v,
            None => {
                return Err(ValidationError::of_code(CARDINALITY));
            },
        };
        let nb_counts = match take_optional(m2.field) {
            Some(v) => v,
            None => {
                return Err(ValidationError::of_code(CARDINALITY));
            },
        };
        let lnkgs = match take_optional_all(m3.field) {
            Some(v) => v,
            None => {
                return Err(ValidationError::of_code(CARDINALITY));
            },
        };
        let csh_acct = m4.field;
        let csh_acct_ownr = match take_optional(m5.field) {
            Some(v) => v,
            None => {
                return Err(ValidationError::of_code(CARDINALITY));
            },
        };
        let csh_acct_svcr = match take_optional(m6.field) {
            Some(v) => v,
            None => {
                return Err(ValidationError::of_code(CARDINALITY));
            },
        };
        let intra_bal = m7.field;
        let splmtry_data = match take_optional_all(m8.field) {
            Some(v) => v,
            None => {
                return Err(ValidationError::of_code(CARDINALITY));
            },
        };
        Ok(Self { id, corp_actn_evt_id, nb_counts, lnkgs, csh_acct, csh_acct_ownr, csh_acct_svcr, intra_bal, splmtry_data })
    }

    /// The document as a generic record: each child under its tag, in
    /// declared order, with the facets that this shape gives it. It validates
    /// exactly as the document does.
    pub fn into_field(self) -> (r: Field)
        ensures
            r.outcome() == self.outcome(),
            self.matches_field(r),
            r is Composite,
            r->Composite_0@.map_values(|m: Member| m.tag@) == seq![
                "Id"@,
                "CorpActnEvtId"@,
                "NbCounts"@,
                "Lnkgs"@,
                "CshAcct"@,
                "CshAcctOwnr"@,
                "CshAcctSvcr"@,
                "IntraBal"@,
                "SplmtryData"@,
            ],
    {
        let ghost before = self;
        let mut members: Vec<Member> = Vec::new();
        members.push(optional_member("id", "Id", self.id));
        members.push(optional_text_member("corp_actn_evt_id", "CorpActnEvtId", self.corp_actn_evt_id, MAX35_MIN, MAX35_MAX));
        members.push(optional_member("nb_counts", "NbCounts", self.nb_counts));
        members.push(optional_all_member("lnkgs", "Lnkgs", self.lnkgs));
        members.push(child_member("csh_acct", "CshAcct", self.csh_acct));
        members.push(optional_member("csh_acct_ownr", "CshAcctOwnr", self.csh_acct_ownr));
        members.push(optional_member("csh_acct_svcr", "CshAcctSvcr", self.csh_acct_svcr));
        members.push(child_member("intra_bal", "IntraBal", self.intra_bal));
        members.push(optional_all_member("splmtry_data", "SplmtryData", self.splmtry_data));
        proof {
            assert(member_outcomes(members@) =~= before.child_outcomes());
            lemma_members_first_failure(members@, 0);
            assert(member_outcomes(members@).subrange(0, members@.len() as int) =~= member_outcomes(
                members@,
            ));
            assert(members@.map_values(|m: Member| m.tag@) =~= seq![
                "Id"@,
                "CorpActnEvtId"@,
                "NbCounts"@,
                "Lnkgs"@,
                "CshAcct"@,
                "CshAcctOwnr"@,
                "CshAcctSvcr"@,
                "IntraBal"@,
                "SplmtryData"@,
            ]);
        }
        Field::Composite(members)
    }

    /// The external tag of each field, in declared order, keyed by field name.
    pub fn tag_table() -> (r: Vec<(&'static str, &'static str)>)
        ensures
            r@ == seq![
                ("id", "Id"),
                ("corp_actn_evt_id", "CorpActnEvtId"),
                ("nb_counts", "NbCounts"),
                ("lnkgs", "Lnkgs"),
                ("csh_acct", "CshAcct"),
                ("csh_acct_ownr", "CshAcctOwnr"),
                ("csh_acct_svcr", "CshAcctSvcr"),
                ("intra_bal", "IntraBal"),
                ("splmtry_data", "SplmtryData"),
            ],
    {
        vec![
            ("id", "Id"),
            ("corp_actn_evt_id", "CorpActnEvtId"),
            ("nb_counts", "NbCounts"),
            ("lnkgs", "Lnkgs"),
            ("csh_acct", "CshAcct"),
            ("csh_acct_ownr", "CshAcctOwnr"),
            ("csh_acct_svcr", "CshAcctSvcr"),
            ("intra_bal", "IntraBal"),
            ("splmtry_data", "SplmtryData"),
        ]
    }
}

/// The status of a request to modify an intra-balance movement.
///
/// Document type `camt.073.001.02`.
#[derive(Debug)]
pub struct IntraBalanceMovementModificationRequestStatusAdviceV02 {
    /// Tag `Id`.
    pub id: Option<Field>,
    /// Tag `ReqRef`.
    pub req_ref: String,
    /// Tag `CshAcct`.
    pub csh_acct: Field,
    /// Tag `CshAcctOwnr`.
    pub csh_acct_ownr: Option<Field>,
    /// Tag `CshAcctSvcr`.
    pub csh_acct_svcr: Option<Field>,
    /// Tag `ReqDtls`.
    pub req_dtls: Option<Field>,
    /// Tag `PrcgSts`.
    pub prcg_sts: Field,
    /// Tag `UndrlygIntraBal`.
    pub undrlyg_intra_bal: Option<Field>,
    /// Tag `SplmtryData`.
    pub splmtry_data: Option<Vec<Field>>,
}

impl IntraBalanceMovementModificationRequestStatusAdviceV02 {
    /// The outcome of each child in declared order; a flag carries no check.
    pub open spec fn child_outcomes(self) -> Seq<Result<(), u32>> {
        seq![
            optional_outcome(self.id),
            text_outcome(self.req_ref, MAX35_MIN, MAX35_MAX),
            self.csh_acct.outcome(),
            optional_outcome(self.csh_acct_ownr),
            optional_outcome(self.csh_acct_svcr),
            optional_outcome(self.req_dtls),
            self.prcg_sts.outcome(),
            optional_outcome(self.undrlyg_intra_bal),
            optional_all_outcome(self.splmtry_data),
        ]
    }

    /// The first failing child in declared order, or success.
    pub open spec fn outcome(self) -> Result<(), u32> {
        first_failure(self.child_outcomes())
    }

    /// Validates the document's children in declared order, stopping at the
    /// first failure.
    pub fn validate(&self) -> (r: Result<(), ValidationError>)
        ensures
            agrees(r, self.outcome()),
    {
        let ghost s = self.child_outcomes();
        let r = check_optional(&self.id);
        if r.is_err() {
            proof {
                lemma_first_failure_at(s, 0);
            }
            return r;
        }
        let r = check_text(&self.req_ref, MAX35_MIN, MAX35_MAX);
        if r.is_err() {
            proof {
                lemma_first_failure_at(s, 1);
            }
            return r;
        }
        let r = self.csh_acct.validate();
        if r.is_err() {
            proof {
                lemma_first_failure_at(s, 2);
            }
            return r;
        }
        let r = check_optional(&self.csh_acct_ownr);
        if r.is_err() {
            proof {
                lemma_first_failure_at(s, 3);
            }
            return r;
        }
        let r = check_optional(&self.csh_acct_svcr);
        if r.is_err() {
            proof {
                lemma_first_failure_at(s, 4);
            }
            return r;
        }
        let r = check_optional(&self.req_dtls);
        if r.is_err() {
            proof {
                lemma_first_failure_at(s, 5);
            }
            return r;
        }
        let r = self.prcg_sts.validate();
        if r.is_err() {
            proof {
                lemma_first_failure_at(s, 6);
            }
            return r;
        }
        let r = check_optional(&self.undrlyg_intra_bal);
        if r.is_err() {
            proof {
                lemma_first_failure_at(s, 7);
            }
            return r;
        }
        let r = check_optional_all(&self.splmtry_data);
        if r.is_err() {
            proof {
                lemma_first_failure_at(s, 8);
            }
            return r;
        }
        proof {
            lemma_first_failure_none(s);
        }
        Ok(())
    }

    /// Whether a generic record holds exactly this document: one member per
    /// child, in declared order, under the child's tag and holding its value.
    pub open spec fn matches_field(self, f: Field) -> bool {
        &&& f is Composite
        &&& f->Composite_0@.len() == 9
        &&& f->Composite_0@[0].tag@ == "Id"@
        &&& optional_in(self.id, f->Composite_0@[0].field)
        &&& f->Composite_0@[1].tag@ == "ReqRef"@
        &&& text_in(self.req_ref, f->Composite_0@[1].field)
        &&& f->Composite_0@[2].tag@ == "CshAcct"@
        &&& self.csh_acct == f->Composite_0@[2].field
        &&& f->Composite_0@[3].tag@ == "CshAcctOwnr"@
        &&& optional_in(self.csh_acct_ownr, f->Composite_0@[3].field)
        &&& f->Composite_0@[4].tag@ == "CshAcctSvcr"@
        &&& optional_in(self.csh_acct_svcr, f->Composite_0@[4].field)
        &&& f->Composite_0@[5].tag@ == "ReqDtls"@
        &&& optional_in(self.req_dtls, f->Composite_0@[5].field)
        &&& f->Composite_0@[6].tag@ == "PrcgSts"@
        &&& self.prcg_sts == f->Composite_0@[6].field
        &&& f->Composite_0@[7].tag@ == "UndrlygIntraBal"@
        &&& optional_in(self.undrlyg_intra_bal, f->Composite_0@[7].field)
        &&& f->Composite_0@[8].tag@ == "SplmtryData"@
        &&& optional_all_in(self.splmtry_data, f->Composite_0@[8].field)
    }

    /// Whether two documents hold the same values, text compared by content.
    pub open spec fn same_values(self, other: Self) -> bool {
        &&& self.id == other.id
        &&& self.req_ref@ == other.req_ref@
        &&& self.csh_acct == other.csh_acct
        &&& self.csh_acct_ownr == other.csh_acct_ownr
        &&& self.csh_acct_svcr == other.csh_acct_svcr
        &&& self.req_dtls == other.req_dtls
        &&& self.prcg_sts == other.prcg_sts
        &&& self.undrlyg_intra_bal == other.undrlyg_intra_bal
        &&& self.splmtry_data == other.splmtry_data
    }

    /// Builds the document from a generic record that holds one member per
    /// child, in declared order, under the child's tag. Any other record is
    /// refused with `CARDINALITY`.
    pub fn from_field(f: Field) -> (r: Result<Self, ValidationError>)
        ensures
            match r {
                Ok(d) => d.matches_field(f),
                Err(e) => e.code == CARDINALITY && is_standard(e) && forall|d: Self| !d.matches_field(f),
            },
    {
        let mut members = match f {
            Field::Composite(ms) => ms,
            _ => {
                return Err(ValidationError::of_code(CARDINALITY));
            },
        };
        if members.len() != 9 {
            return Err(ValidationError::of_code(CARDINALITY));
        }
        let ghost ms = members@;
        let m8 = match members.pop() {
            Some(m) => m,
            None => {
                return Err(ValidationError::of_code(CARDINALITY));
            },
        };
        assert(m8 == ms[8]);
        let m7 = match members.pop() {
            Some(m) => m,
            None => {
                return Err(ValidationError::of_code(CARDINALITY));
            },
        };
        assert(m7 == ms[7]);
        let m6 = match members.pop() {
            Some(m) => m,
            None => {
                return Err(ValidationError::of_code(CARDINALITY));
            },
        };
        assert(m6 == ms[6]);
        let m5 = match members.pop() {
            Some(m) => m,
            None => {
                return Err(ValidationError::of_code(CARDINALITY));
            },
        };
        assert(m5 == ms[5]);
        let m4 = match members.pop() {
            Some(m) => m,
            None => {
                return Err(ValidationError::of_code(CARDINALITY));
            },
        };
        assert(m4 == ms[4]);
        let m3 = match members.pop() {
            Some(m) => m,
            None => {
                return Err(ValidationError::of_code(CARDINALITY));
            },
        };
        assert(m3 == ms[3]);
        let m2 = match members.pop() {
            Some(m) => m,
            None => {
                return Err(ValidationError::of_code(CARDINALITY));
            },
        };
        assert(m2 == ms[2]);
        let m1 = match members.pop() {
            Some(m) => m,
            None => {
                return Err(ValidationError::of_code(CARDINALITY));
            },
        };
        assert(m1 == ms[1]);
        let m0 = match members.pop() {
            Some(m) => m,
            None => {
                return Err(ValidationError::of_code(CARDINALITY));
            },
        };
        assert(m0 == ms[0]);
        if !tag_matches(&m0.tag, "Id") {
            return Err(ValidationError::of_code(CARDINALITY));
        }
        if !tag_matches(&m1.tag, "ReqRef") {
            return Err(ValidationError::of_code(CARDINALITY));
        }
        if !tag_matches(&m2.tag, "CshAcct") {
            return Err(ValidationError::of_code(CARDINALITY));
        }
        if !tag_matches(&m3.tag, "CshAcctOwnr") {
            return Err(ValidationError::of_code(CARDINALITY));
        }
        if !tag_matches(&m4.tag, "CshAcctSvcr") {
            return Err(ValidationError::of_code(CARDINALITY));
        }
        if !tag_matches(&m5.tag, "ReqDtls") {
            return Err(ValidationError::of_code(CARDINALITY));
        }
        if !tag_matches(&m6.tag, "PrcgSts") {
            return Err(ValidationError::of_code(CARDINALITY));
        }
        if !tag_matches(&m7.tag, "UndrlygIntraBal") {
            return Err(ValidationError::of_code(CARDINALITY));
        }
        if !tag_matches(&m8.tag, "SplmtryData") {
            return Err(ValidationError::of_code(CARDINALITY));
        }
        let id = match take_optional(m0.field) {
            Some(v) => v,
            None => {
                return Err(ValidationError::of_code(CARDINALITY));
            },
        };
        let req_ref = match take_text(m1.field) {
            Some(v) => v,
            None => {
                return Err(ValidationError::of_code(CARDINALITY));
            },
        };
        let csh_acct = m2.field;
        let csh_acct_ownr = match take_optional(m3.field) {
            Some(v) => v,
            None => {
                return Err(ValidationError::of_code(CARDINALITY));
            },
        };
        let csh_acct_svcr = match take_optional(m4.field) {
            Some(v) => v,
            None => {
                return Err(ValidationError::of_code(CARDINALITY));
            },
        };
        let req_dtls = match take_optional(m5.field) {
            Some(v) => v,
            None => {
                return Err(ValidationError::of_code(CARDINALITY));
            },
        };
        let prcg_sts = m6.field;
        let undrlyg_intra_bal = match take_optional(m7.field) {
            Some(v) => v,
            None => {
                return Err(ValidationError::of_code(CARDINALITY));
            },
        };
        let splmtry_data = match take_optional_all(m8.field) {
            Some(v) => v,
            None => {
                return Err(ValidationError::of_code(CARDINALITY));
            },
        };
        Ok(Self { id, req_ref, csh_acct, csh_acct_ownr, csh_acct_svcr, req_dtls, prcg_sts, undrlyg_intra_bal, splmtry_data })
    }

    /// The document as a generic record: each child under its tag, in
    /// declared order, with the facets that this shape gives it. It validates
    /// exactly as the document does.
    pub fn into_field(self) -> (r: Field)
        ensures
            r.outcome() == self.outcome(),
            self.matches_field(r),
            r is Composite,
            r->Composite_0@.map_values(|m: Member| m.tag@) == seq![
                "Id"@,
                "ReqRef"@,
                "CshAcct"@,
                "CshAcctOwnr"@,
                "CshAcctSvcr"@,
                "ReqDtls"@,
                "PrcgSts"@,
                "UndrlygIntraBal"@,
                "SplmtryData"@,
            ],
    {
        let ghost before = self;
        let mut members: Vec<Member> = Vec::new();
        members.push(optional_member("id", "Id", self.id));
        members.push(text_member("req_ref", "ReqRef", self.req_ref, MAX35_MIN, MAX35_MAX));
        members.push(child_member("csh_acct", "CshAcct", self.csh_acct));
        members.push(optional_member("csh_acct_ownr", "CshAcctOwnr", self.csh_acct_ownr));
        members.push(optional_member("csh_acct_svcr", "CshAcctSvcr", self.csh_acct_svcr));
        members.push(optional_member("req_dtls", "ReqDtls", self.req_dtls));
        members.push(child_member("prcg_sts", "PrcgSts", self.prcg_sts));
        members.push(optional_member("undrlyg_intra_bal", "UndrlygIntraBal", self.undrlyg_intra_bal));
        members.push(optional_all_member("splmtry_data", "SplmtryData", self.splmtry_data));
        proof {
            assert(member_outcomes(members@) =~= before.child_outcomes());
            lemma_members_first_failure(members@, 0);
            assert(member_outcomes(members@).subrange(0, members@.len() as int) =~= member_outcomes(
                members@,
            ));
            assert(members@.map_values(|m: Member| m.tag@) =~= seq![
                "Id"@,
                "ReqRef"@,
                "CshAcct"@,
                "CshAcctOwnr"@,
                "CshAcctSvcr"@,
                "ReqDtls"@,
                "PrcgSts"@,
                "UndrlygIntraBal"@,
                "SplmtryData"@,
            ]);
        }
        Field::Composite(members)
    }

    /// The external tag of each field, in declared order, keyed by field name.
    pub fn tag_table() -> (r: Vec<(&'static str, &'static str)>)
        ensures
            r@ == seq![
                ("id", "Id"),
                ("req_ref", "ReqRef"),
                ("csh_acct", "CshAcct"),
                ("csh_acct_ownr", "CshAcctOwnr"),
                ("csh_acct_svcr", "CshAcctSvcr"),
                ("req_dtls", "ReqDtls"),
                ("prcg_sts", "PrcgSts"),
                ("undrlyg_intra_bal", "UndrlygIntraBal"),
                ("splmtry_data", "SplmtryData"),
            ],
    {
        vec![
            ("id", "Id"),
            ("req_ref", "ReqRef"),
            ("csh_acct", "CshAcct"),
            ("csh_acct_ownr", "CshAcctOwnr"),
            ("csh_acct_svcr", "CshAcctSvcr"),
            ("req_dtls", "ReqDtls"),
            ("prcg_sts", "PrcgSts"),
            ("undrlyg_intra_bal", "UndrlygIntraBal"),
            ("splmtry_data", "SplmtryData"),
        ]
    }
}

/// A report of postings of intra-balance movements.
///
/// Document type `camt.084.001.02`.
#[derive(Debug)]
pub struct IntraBalanceMovementPostingReportV02 {
    /// Tag `Id`.
    pub id: Option<Field>,
    /// Tag `Pgntn`.
    pub pgntn: Field,
    /// Tag `RptGnlDtls`.
    pub rpt_gnl_dtls: Field,
    /// Tag `CshAcct`.
    pub csh_acct: Field,
    /// Tag `CshAcctOwnr`.
    pub csh_acct_ownr: Option<Field>,
    /// Tag `CshAcctSvcr`.
    pub csh_acct_svcr: Option<Field>,
    /// Tag `SubBal`.
    pub sub_bal: Option<Vec<Field>>,
}

impl IntraBalanceMovementPostingReportV02 {
    /// The outcome of each child in declared order; a flag carries no check.
    pub open spec fn child_outcomes(self) -> Seq<Result<(), u32>> {
        seq![
            optional_outcome(self.id),
            self.pgntn.outcome(),
            self.rpt_gnl_dtls.outcome(),
            self.csh_acct.outcome(),
            optional_outcome(self.csh_acct_ownr),
            optional_outcome(self.csh_acct_svcr),
            optional_all_outcome(self.sub_bal),
        ]
    }

    /// The first failing child in declared order, or success.
    pub open spec fn outcome(self) -> Result<(), u32> {
        first_failure(self.child_outcomes())
    }

    /// Validates the document's children in declared order, stopping at the
    /// first failure.
    pub fn validate(&self) -> (r: Result<(), ValidationError>)
        ensures
            agrees(r, self.outcome()),
    {
        let ghost s = self.child_outcomes();
        let r = check_optional(&self.id);
        if r.is_err() {
            proof {
                lemma_first_failure_at(s, 0);
            }
            return r;
        }
        let r = self.pgntn.validate();
        if r.is_err() {
            proof {
                lemma_first_failure_at(s, 1);
            }
            return r;
        }
        let r = self.rpt_gnl_dtls.validate();
        if r.is_err() {
            proof {
                lemma_first_failure_at(s, 2);
            }
            return r;
        }
        let r = self.csh_acct.validate();
        if r.is_err() {
            proof {
                lemma_first_failure_at(s, 3);
            }
            return r;
        }
        let r = check_optional(&self.csh_acct_ownr);
        if r.is_err() {
            proof {
                lemma_first_failure_at(s, 4);
            }
            return r;
        }
        let r = check_optional(&self.csh_acct_svcr);
        if r.is_err() {
            proof {
                lemma_first_failure_at(s, 5);
            }
            return r;
        }
        let r = check_optional_all(&self.sub_bal);
        if r.is_err() {
            proof {
                lemma_first_failure_at(s, 6);
            }
            return r;
        }
        proof {
            lemma_first_failure_none(s);
        }
        Ok(())
    }

    /// Whether a generic record holds exactly this document: one member per
    /// child, in declared order, under the child's tag and holding its value.
    pub open spec fn matches_field(self, f: Field) -> bool {
        &&& f is Composite
        &&& f->Composite_0@.len() == 7
        &&& f->Composite_0@[0].tag@ == "Id"@
        &&& optional_in(self.id, f->Composite_0@[0].field)
        &&& f->Composite_0@[1].tag@ == "Pgntn"@
        &&& self.pgntn == f->Composite_0@[1].field
        &&& f->Composite_0@[2].tag@ == "RptGnlDtls"@
        &&& self.rpt_gnl_dtls == f->Composite_0@[2].field
        &&& f->Composite_0@[3].tag@ == "CshAcct"@
        &&& self.csh_acct == f->Composite_0@[3].field
        &&& f->Composite_0@[4].tag@ == "CshAcctOwnr"@
        &&& optional_in(self.csh_acct_ownr, f->Composite_0@[4].field)
        &&& f->Composite_0@[5].tag@ == "CshAcctSvcr"@
        &&& optional_in(self.csh_acct_svcr, f->Composite_0@[5].field)
        &&& f->Composite_0@[6].tag@ == "SubBal"@
        &&& optional_all_in(self.sub_bal, f->Composite_0@[6].field)
    }

    /// Whether two documents hold the same values, text compared by content.
    pub open spec fn same_values(self, other: Self) -> bool {
        &&& self.id == other.id
        &&& self.pgntn == other.pgntn
        &&& self.rpt_gnl_dtls == other.rpt_gnl_dtls
        &&& self.csh_acct == other.csh_acct
        &&& self.csh_acct_ownr == other.csh_acct_ownr
        &&& self.csh_acct_svcr == other.csh_acct_svcr
        &&& self.sub_bal == other.sub_bal
    }

    /// Builds the document from a generic record that holds one member per
    /// child, in declared order, under the child's tag. Any other record is
    /// refused with `CARDINALITY`.
    pub fn from_field(f: Field) -> (r: Result<Self, ValidationError>)
        ensures
            match r {
                Ok(d) => d.matches_field(f),
                Err(e) => e.code == CARDINALITY && is_standard(e) && forall|d: Self| !d.matches_field(f),
            },
    {
        let mut members = match f {
            Field::Composite(ms) => ms,
            _ => {
                return Err(ValidationError::of_code(CARDINALITY));
            },
        };
        if members.len() != 7 {
            return Err(ValidationError::of_code(CARDINALITY));
        }
        let ghost ms = members@;
        let m6 = match members.pop() {
            Some(m) => m,
            None => {
                return Err(ValidationError::of_code(CARDINALITY));
            },
        };
        assert(m6 == ms[6]);
        let m5 = match members.pop() {
            Some(m) => m,
            None => {
                return Err(ValidationError::of_code(CARDINALITY));
            },
        };
        assert(m5 == ms[5]);
        let m4 = match members.pop() {
            Some(m) => m,
            None => {
                return Err(ValidationError::of_code(CARDINALITY));
            },
        };
        assert(m4 == ms[4]);
        let m3 = match members.pop() {
            Some(m) => m,
            None => {
                return Err(ValidationError::of_code(CARDINALITY));
            },
        };
        assert(m3 == ms[3]);
        let m2 = match members.pop() {
            Some(m) => m,
            None => {
                return Err(ValidationError::of_code(CARDINALITY));
            },
        };
        assert(m2 == ms[2]);
        let m1 = match members.pop() {
            Some(m) => m,
            None => {
                return Err(ValidationError::of_code(CARDINALITY));
            },
        };
        assert(m1 == ms[1]);
        let m0 = match members.pop() {
            Some(m) => m,
            None => {
                return Err(ValidationError::of_code(CARDINALITY));
            },
        };
        assert(m0 == ms[0]);
        if !tag_matches(&m0.tag, "Id") {
            return Err(ValidationError::of_code(CARDINALITY));
        }
        if !tag_matches(&m1.tag, "Pgntn") {
            return Err(ValidationError::of_code(CARDINALITY));
        }
        if !tag_matches(&m2.tag, "RptGnlDtls") {
            return Err(ValidationError::of_code(CARDINALITY));
        }
        if !tag_matches(&m3.tag, "CshAcct") {
            return Err(ValidationError::of_code(CARDINALITY));
        }
        if !tag_matches(&m4.tag, "CshAcctOwnr") {
            return Err(ValidationError::of_code(CARDINALITY));
        }
        if !tag_matches(&m5.tag, "CshAcctSvcr") {
            return Err(ValidationError::of_code(CARDINALITY));
        }
        if !tag_matches(&m6.tag, "SubBal") {
            return Err(ValidationError::of_code(CARDINALITY));
        }
        let id = match take_optional(m0.field) {
            Some(v) => v,
            None => {
                return Err(ValidationError::of_code(CARDINALITY));
            },
        };
        let pgntn = m1.field;
        let rpt_gnl_dtls = m2.field;
        let csh_acct = m3.field;
        let csh_acct_ownr = match take_optional(m4.field) {
            Some(v) => v,
            None => {
                return Err(ValidationError::of_code(CARDINALITY));
            },
        };
        let csh_acct_svcr = match take_optional(m5.field) {
            Some(v) => v,
            None => {
                return Err(ValidationError::of_code(CARDINALITY));
            },
        };
        let sub_bal = match take_optional_all(m6.field) {
            Some(v) => v,
            None => {
                return Err(ValidationError::of_code(CARDINALITY));
            },
        };
        Ok(Self { id, pgntn, rpt_gnl_dtls, csh_acct, csh_acct_ownr, csh_acct_svcr, sub_bal })
    }

    /// The document as a generic record: each child under its tag, in
    /// declared order, with the facets that this shape gives it. It validates
    /// exactly as the document does.
    pub fn into_field(self) -> (r: Field)
        ensures
            r.outcome() == self.outcome(),
            self.matches_field(r),
            r is Composite,
            r->Composite_0@.map_values(|m: Member| m.tag@) == seq![
                "Id"@,
                "Pgntn"@,
                "RptGnlDtls"@,
                "CshAcct"@,
                "CshAcctOwnr"@,
                "CshAcctSvcr"@,
                "SubBal"@,
            ],
    {
        let ghost before = self;
        let mut members: Vec<Member> = Vec::new();
        members.push(optional_member("id", "Id", self.id));
        members.push(child_member("pgntn", "Pgntn", self.pgntn));
        members.push(child_member("rpt_gnl_dtls", "RptGnlDtls", self.rpt_gnl_dtls));
        members.push(child_member("csh_acct", "CshAcct", self.csh_acct));
        members.push(optional_member("csh_acct_ownr", "CshAcctOwnr", self.csh_acct_ownr));
        members.push(optional_member("csh_acct_svcr", "CshAcctSvcr", self.csh_acct_svcr));
        members.push(optional_all_member("sub_bal", "SubBal", self.sub_bal));
        proof {
            assert(member_outcomes(members@) =~= before.child_outcomes());
            lemma_members_first_failure(members@, 0);
            assert(member_outcomes(members@).subrange(0, members@.len() as int) =~= member_outcomes(
                members@,
            ));
            assert(members@.map_values(|m: Member| m.tag@) =~= seq![
                "Id"@,
                "Pgntn"@,
                "RptGnlDtls"@,
                "CshAcct"@,
                "CshAcctOwnr"@,
                "CshAcctSvcr"@,
                "SubBal"@,
            ]);
        }
        Field::Composite(members)
    }

    /// The external tag of each field, in declared order, keyed by field name.
    pub fn tag_table() -> (r: Vec<(&'static str, &'static str)>)
        ensures
            r@ == seq![
                ("id", "Id"),
                ("pgntn", "Pgntn"),
                ("rpt_gnl_dtls", "RptGnlDtls"),
                ("csh_acct", "CshAcct"),
                ("csh_acct_ownr", "CshAcctOwnr"),
                ("csh_acct_svcr", "CshAcctSvcr"),
                ("sub_bal", "SubBal"),
            ],
    {
        vec![
            ("id", "Id"),
            ("pgntn", "Pgntn"),
            ("rpt_gnl_dtls", "RptGnlDtls"),
            ("csh_acct", "CshAcct"),
            ("csh_acct_ownr", "CshAcctOwnr"),
            ("csh_acct_svcr", "CshAcctSvcr"),
            ("sub_bal", "SubBal"),
        ]
    }
}

/// A request from one financial institution to another for the status of a payment.
///
/// Document type `pacs.028.001.06`.
#[derive(Debug)]
pub struct FIToFIPaymentStatusRequestV06 {
    /// Tag `GrpHdr`.
    pub grp_hdr: Field,
    /// Tag `OrgnlGrpInf`.
    pub orgnl_grp_inf: Option<Vec<Field>>,
    /// Tag `TxInf`.
    pub tx_inf: Option<Vec<Field>>,
    /// Tag `SplmtryData`.
    pub splmtry_data: Option<Vec<Field>>,
}

impl FIToFIPaymentStatusRequestV06 {
    /// The outcome of each child in declared order; a flag carries no check.
    pub open spec fn child_outcomes(self) -> Seq<Result<(), u32>> {
        seq![
            self.grp_hdr.outcome(),
            optional_all_outcome(self.orgnl_grp_inf),
            optional_all_outcome(self.tx_inf),
            optional_all_outcome(self.splmtry_data),
        ]
    }

    /// The first failing child in declared order, or success.
    pub open spec fn outcome(self) -> Result<(), u32> {
        first_failure(self.child_outcomes())
    }

    /// Validates the document's children in declared order, stopping at the
    /// first failure.
    pub fn validate(&self) -> (r: Result<(), ValidationError>)
        ensures
            agrees(r, self.outcome()),
    {
        let ghost s = self.child_outcomes();
        let r = self.grp_hdr.validate();
        if r.is_err() {
            proof {
                lemma_first_failure_at(s, 0);
            }
            return r;
        }
        let r = check_optional_all(&self.orgnl_grp_inf);
        if r.is_err() {
            proof {
                lemma_first_failure_at(s, 1);
            }
            return r;
        }
        let r = check_optional_all(&self.tx_inf);
        if r.is_err() {
            proof {
                lemma_first_failure_at(s, 2);
            }
            return r;
        }
        let r = check_optional_all(&self.splmtry_data);
        if r.is_err() {
            proof {
                lemma_first_failure_at(s, 3);
            }
            return r;
        }
        proof {
            lemma_first_failure_none(s);
        }
        Ok(())
    }

    /// Whether a generic record holds exactly this document: one member per
    /// child, in declared order, under the child's tag and holding its value.
    pub open spec fn matches_field(self, f: Field) -> bool {
        &&& f is Composite
        &&& f->Composite_0@.len() == 4
        &&& f->Composite_0@[0].tag@ == "GrpHdr"@
        &&& self.grp_hdr == f->Composite_0@[0].field
        &&& f->Composite_0@[1].tag@ == "OrgnlGrpInf"@
        &&& optional_all_in(self.orgnl_grp_inf, f->Composite_0@[1].field)
        &&& f->Composite_0@[2].tag@ == "TxInf"@
        &&& optional_all_in(self.tx_inf, f->Composite_0@[2].field)
        &&& f->Composite_0@[3].tag@ == "SplmtryData"@
        &&& optional_all_in(self.splmtry_data, f->Composite_0@[3].field)
    }

    /// Whether two documents hold the same values, text compared by content.
    pub open spec fn same_values(self, other: Self) -> bool {
        &&& self.grp_hdr == other.grp_hdr
        &&& self.orgnl_grp_inf == other.orgnl_grp_inf
        &&& self.tx_inf == other.tx_inf
        &&& self.splmtry_data == other.splmtry_data
    }

    /// Builds the document from a generic record that holds one member per
    /// child, in declared order, under the child's tag. Any other record is
    /// refused with `CARDINALITY`.
    pub fn from_field(f: Field) -> (r: Result<Self, ValidationError>)
        ensures
            match r {
                Ok(d) => d.matches_field(f),
                Err(e) => e.code == CARDINALITY && is_standard(e) && forall|d: Self| !d.matches_field(f),
            },
    {
        let mut members = match f {
            Field::Composite(ms) => ms,
            _ => {
                return Err(ValidationError::of_code(CARDINALITY));
            },
        };
        if members.len() != 4 {
            return Err(ValidationError::of_code(CARDINALITY));
        }
        let ghost ms = members@;
        let m3 = match members.pop() {
            Some(m) => m,
            None => {
                return Err(ValidationError::of_code(CARDINALITY));
            },
        };
        assert(m3 == ms[3]);
        let m2 = match members.pop() {
            Some(m) => m,
            None => {
                return Err(ValidationError::of_code(CARDINALITY));
            },
        };
        assert(m2 == ms[2]);
        let m1 = match members.pop() {
            Some(m) => m,
            None => {
                return Err(ValidationError::of_code(CARDINALITY));
            },
        };
        assert(m1 == ms[1]);
        let m0 = match members.pop() {
            Some(m) => m,
            None => {
                return Err(ValidationError::of_code(CARDINALITY));
            },
        };
        assert(m0 == ms[0]);
        if !tag_matches(&m0.tag, "GrpHdr") {
            return Err(ValidationError::of_code(CARDINALITY));
        }
        if !tag_matches(&m1.tag, "OrgnlGrpInf") {
            return Err(ValidationError::of_code(CARDINALITY));
        }
        if !tag_matches(&m2.tag, "TxInf") {
            return Err(ValidationError::of_code(CARDINALITY));
        }
        if !tag_matches(&m3.tag, "SplmtryData") {
            return Err(ValidationError::of_code(CARDINALITY));
        }
        let grp_hdr = m0.field;
        let orgnl_grp_inf = match take_optional_all(m1.field) {
            Some(v) => v,
            None => {
                return Err(ValidationError::of_code(CARDINALITY));
            },
        };
        let tx_inf = match take_optional_all(m2.field) {
            Some(v) => v,
            None => {
                return Err(ValidationError::of_code(CARDINALITY));
            },
        };
        let splmtry_data = match take_optional_all(m3.field) {
            Some(v) => v,
            None => {
                return Err(ValidationError::of_code(CARDINALITY));
            },
        };
        Ok(Self { grp_hdr, orgnl_grp_inf, tx_inf, splmtry_data })
    }

    /// The document as a generic record: each child under its tag, in
    /// declared order, with the facets that this shape gives it. It validates
    /// exactly as the document does.
    pub fn into_field(self) -> (r: Field)
        ensures
            r.outcome() == self.outcome(),
            self.matches_field(r),
            r is Composite,
            r->Composite_0@.map_values(|m: Member| m.tag@) == seq![
                "GrpHdr"@,
                "OrgnlGrpInf"@,
                "TxInf"@,
                "SplmtryData"@,
            ],
    {
        let ghost before = self;
        let mut members: Vec<Member> = Vec::new();
        members.push(child_member("grp_hdr", "GrpHdr", self.grp_hdr));
        members.push(optional_all_member("orgnl_grp_inf", "OrgnlGrpInf", self.orgnl_grp_inf));
        members.push(optional_all_member("tx_inf", "TxInf", self.tx_inf));
        members.push(optional_all_member("splmtry_data", "SplmtryData", self.splmtry_data));
        proof {
            assert(member_outcomes(members@) =~= before.child_outcomes());
            lemma_members_first_failure(members@, 0);
            assert(member_outcomes(members@).subrange(0, members@.len() as int) =~= member_outcomes(
                members@,
            ));
            assert(members@.map_values(|m: Member| m.tag@) =~= seq![
                "GrpHdr"@,
                "OrgnlGrpInf"@,
                "TxInf"@,
                "SplmtryData"@,
            ]);
        }
        Field::Composite(members)
    }

    /// The external tag of each field, in declared order, keyed by field name.
    pub fn tag_table() -> (r: Vec<(&'static str, &'static str)>)
        ensures
            r@ == seq![
                ("grp_hdr", "GrpHdr"),
                ("orgnl_grp_inf", "OrgnlGrpInf"),
                ("tx_inf", "TxInf"),
                ("splmtry_data", "SplmtryData"),
            ],
    {
        vec![
            ("grp_hdr", "GrpHdr"),
            ("orgnl_grp_inf", "OrgnlGrpInf"),
            ("tx_inf", "TxInf"),
            ("splmtry_data", "SplmtryData"),
        ]
    }
}

/// The cancellation of a standing settlement instruction.
///
/// Document type `reda.059.001.01`.
#[derive(Debug)]
pub struct StandingSettlementInstructionCancellationV01 {
    /// Tag `MsgRefId`.
    pub msg_ref_id: String,
    /// Tag `FctvDtDtls`.
    pub fctv_dt_dtls: Option<Field>,
    /// Tag `AcctId`.
    pub acct_id: Vec<Field>,
    /// Tag `MktId`.
    pub mkt_id: Field,
    /// Tag `SttlmDtls`.
    pub sttlm_dtls: Field,
    /// Tag `PrvsMsgRef`.
    pub prvs_msg_ref: String,
    /// Tag `SplmtryData`.
    pub splmtry_data: Option<Vec<Field>>,
}

impl StandingSettlementInstructionCancellationV01 {
    /// The outcome of each child in declared order; a flag carries no check.
    pub open spec fn child_outcomes(self) -> Seq<Result<(), u32>> {
        seq![
            text_outcome(self.msg_ref_id, MAX35_MIN, MAX35_MAX),
            optional_outcome(self.fctv_dt_dtls),
            all_outcome(self.acct_id),
            self.mkt_id.outcome(),
            self.sttlm_dtls.outcome(),
            text_outcome(self.prvs_msg_ref, MAX35_MIN, MAX35_MAX),
            optional_all_outcome(self.splmtry_data),
        ]
    }

    /// The first failing child in declared order, or success.
    pub open spec fn outcome(self) -> Result<(), u32> {
        first_failure(self.child_outcomes())
    }

    /// Validates the document's children in declared order, stopping at the
    /// first failure.
    pub fn validate(&self) -> (r: Result<(), ValidationError>)
        ensures
            agrees(r, self.outcome()),
    {
        let ghost s = self.child_outcomes();
        let r = check_text(&self.msg_ref_id, MAX35_MIN, MAX35_MAX);
        if r.is_err() {
            proof {
                lemma_first_failure_at(s, 0);
            }
            return r;
        }
        let r = check_optional(&self.fctv_dt_dtls);
        if r.is_err() {
            proof {
                lemma_first_failure_at(s, 1);
            }
            return r;
        }
        let r = check_all(&self.acct_id);
        if r.is_err() {
            proof {
                lemma_first_failure_at(s, 2);
            }
            return r;
        }
        let r = self.mkt_id.validate();
        if r.is_err() {
            proof {
                lemma_first_failure_at(s, 3);
            }
            return r;
        }
        let r = self.sttlm_dtls.validate();
        if r.is_err() {
            proof {
                lemma_first_failure_at(s, 4);
            }
            return r;
        }
        let r = check_text(&self.prvs_msg_ref, MAX35_MIN, MAX35_MAX);
        if r.is_err() {
            proof {
                lemma_first_failure_at(s, 5);
            }
            return r;
        }
        let r = check_optional_all(&self.splmtry_data);
        if r.is_err() {
            proof {
                lemma_first_failure_at(s, 6);
            }
            return r;
        }
        proof {
            lemma_first_failure_none(s);
        }
        Ok(())
    }

    /// Whether a generic record holds exactly this document: one member per
    /// child, in declared order, under the child's tag and holding its value.
    pub open spec fn matches_field(self, f: Field) -> bool {
        &&& f is Composite
        &&& f->Composite_0@.len() == 7
        &&& f->Composite_0@[0].tag@ == "MsgRefId"@
        &&& text_in(self.msg_ref_id, f->Composite_0@[0].field)
        &&& f->Composite_0@[1].tag@ == "FctvDtDtls"@
        &&& optional_in(self.fctv_dt_dtls, f->Composite_0@[1].field)
        &&& f->Composite_0@[2].tag@ == "AcctId"@
        &&& all_in(self.acct_id, f->Composite_0@[2].field)
        &&& f->Composite_0@[3].tag@ == "MktId"@
        &&& self.mkt_id == f->Composite_0@[3].field
        &&& f->Composite_0@[4].tag@ == "SttlmDtls"@
        &&& self.sttlm_dtls == f->Composite_0@[4].field
        &&& f->Composite_0@[5].tag@ == "PrvsMsgRef"@
        &&& text_in(self.prvs_msg_ref, f->Composite_0@[5].field)
        &&& f->Composite_0@[6].tag@ == "SplmtryData"@
        &&& optional_all_in(self.splmtry_data, f->Composite_0@[6].field)
    }

    /// Whether two documents hold the same values, text compared by content.
    pub open spec fn same_values(self, other: Self) -> bool {
        &&& self.msg_ref_id@ == other.msg_ref_id@
        &&& self.fctv_dt_dtls == other.fctv_dt_dtls
        &&& self.acct_id == other.acct_id
        &&& self.mkt_id == other.mkt_id
        &&& self.sttlm_dtls == other.sttlm_dtls
        &&& self.prvs_msg_ref@ == other.prvs_msg_ref@
        &&& self.splmtry_data == other.splmtry_data
    }

    /// Builds the document from a generic record that holds one member per
    /// child, in declared order, under the child's tag. Any other record is
    /// refused with `CARDINALITY`.
    pub fn from_field(f: Field) -> (r: Result<Self, ValidationError>)
        ensures
            match r {
                Ok(d) => d.matches_field(f),
                Err(e) => e.code == CARDINALITY && is_standard(e) && forall|d: Self| !d.matches_field(f),
            },
    {
        let mut members = match f {
            Field::Composite(ms) => ms,
            _ => {
                return Err(ValidationError::of_code(CARDINALITY));
            },
        };
        if members.len() != 7 {
            return Err(ValidationError::of_code(CARDINALITY));
        }
        let ghost ms = members@;
        let m6 = match members.pop() {
            Some(m) => m,
            None => {
                return Err(ValidationError::of_code(CARDINALITY));
            },
        };
        assert(m6 == ms[6]);
        let m5 = match members.pop() {
            Some(m) => m,
            None => {
                return Err(ValidationError::of_code(CARDINALITY));
            },
        };
        assert(m5 == ms[5]);
        let m4 = match members.pop() {
            Some(m) => m,
            None => {
                return Err(ValidationError::of_code(CARDINALITY));
            },
        };
        assert(m4 == ms[4]);
        let m3 = match members.pop() {
            Some(m) => m,
            None => {
                return Err(ValidationError::of_code(CARDINALITY));
            },
        };
        assert(m3 == ms[3]);
        let m2 = match members.pop() {
            Some(m) => m,
            None => {
                return Err(ValidationError::of_code(CARDINALITY));
            },
        };
        assert(m2 == ms[2]);
        let m1 = match members.pop() {
            Some(m) => m,
            None => {
                return Err(ValidationError::of_code(CARDINALITY));
            },
        };
        assert(m1 == ms[1]);
        let m0 = match members.pop() {
            Some(m) => m,
            None => {
                return Err(ValidationError::of_code(CARDINALITY));
            },
        };
        assert(m0 == ms[0]);
        if !tag_matches(&m0.tag, "MsgRefId") {
            return Err(ValidationError::of_code(CARDINALITY));
        }
        if !tag_matches(&m1.tag, "FctvDtDtls") {
            return Err(ValidationError::of_code(CARDINALITY));
        }
        if !tag_matches(&m2.tag, "AcctId") {
            return Err(ValidationError::of_code(CARDINALITY));
        }
        if !tag_matches(&m3.tag, "MktId") {
            return Err(ValidationError::of_code(CARDINALITY));
        }
        if !tag_matches(&m4.tag, "SttlmDtls") {
            return Err(ValidationError::of_code(CARDINALITY));
        }
        if !tag_matches(&m5.tag, "PrvsMsgRef") {
            return Err(ValidationError::of_code(CARDINALITY));
        }
        if !tag_matches(&m6.tag, "SplmtryData") {
            return Err(ValidationError::of_code(CARDINALITY));
        }
        let msg_ref_id = match take_text(m0.field) {
            Some(v) => v,
            None => {
                return Err(ValidationError::of_code(CARDINALITY));
            },
        };
        let fctv_dt_dtls = match take_optional(m1.field) {
            Some(v) => v,
            None => {
                return Err(ValidationError::of_code(CARDINALITY));
            },
        };
        let acct_id = match take_all(m2.field) {
            Some(v) => v,
            None => {
                return Err(ValidationError::of_code(CARDINALITY));
            },
        };
        let mkt_id = m3.field;
        let sttlm_dtls = m4.field;
        let prvs_msg_ref = match take_text(m5.field) {
            Some(v) => v,
            None => {
                return Err(ValidationError::of_code(CARDINALITY));
            },
        };
        let splmtry_data = match take_optional_all(m6.field) {
            Some(v) => v,
            None => {
                return Err(ValidationError::of_code(CARDINALITY));
            },
        };
        Ok(Self { msg_ref_id, fctv_dt_dtls, acct_id, mkt_id, sttlm_dtls, prvs_msg_ref, splmtry_data })
    }

    /// The document as a generic record: each child under its tag, in
    /// declared order, with the facets that this shape gives it. It validates
    /// exactly as the document does.
    pub fn into_field(self) -> (r: Field)
        ensures
            r.outcome() == self.outcome(),
            self.matches_field(r),
            r is Composite,
            r->Composite_0@.map_values(|m: Member| m.tag@) == seq![
                "MsgRefId"@,
                "FctvDtDtls"@,
                "AcctId"@,
                "MktId"@,
                "SttlmDtls"@,
                "PrvsMsgRef"@,
                "SplmtryData"@,
            ],
    {
        let ghost before = self;
        let mut members: Vec<Member> = Vec::new();
        members.push(text_member("msg_ref_id", "MsgRefId", self.msg_ref_id, MAX35_MIN, MAX35_MAX));
        members.push(optional_member("fctv_dt_dtls", "FctvDtDtls", self.fctv_dt_dtls));
        members.push(all_member("acct_id", "AcctId", self.acct_id));
        members.push(child_member("mkt_id", "MktId", self.mkt_id));
        members.push(child_member("sttlm_dtls", "SttlmDtls", self.sttlm_dtls));
        members.push(text_member("prvs_msg_ref", "PrvsMsgRef", self.prvs_msg_ref, MAX35_MIN, MAX35_MAX));
        members.push(optional_all_member("splmtry_data", "SplmtryData", self.splmtry_data));
        proof {
            assert(member_outcomes(members@) =~= before.child_outcomes());
            lemma_members_first_failure(members@, 0);
            assert(member_outcomes(members@).subrange(0, members@.len() as int) =~= member_outcomes(
                members@,
            ));
            assert(members@.map_values(|m: Member| m.tag@) =~= seq![
                "MsgRefId"@,
                "FctvDtDtls"@,
                "AcctId"@,
                "MktId"@,
                "SttlmDtls"@,
                "PrvsMsgRef"@,
                "SplmtryData"@,
            ]);
        }
        Field::Composite(members)
    }

    /// The external tag of each field, in declared order, keyed by field name.
    pub fn tag_table() -> (r: Vec<(&'static str, &'static str)>)
        ensures
            r@ == seq![
                ("msg_ref_id", "MsgRefId"),
                ("fctv_dt_dtls", "FctvDtDtls"),
                ("acct_id", "AcctId"),
                ("mkt_id", "MktId"),
                ("sttlm_dtls", "SttlmDtls"),
                ("prvs_msg_ref", "PrvsMsgRef"),
                ("splmtry_data", "SplmtryData"),
            ],
    {
        vec![
            ("msg_ref_id", "MsgRefId"),
            ("fctv_dt_dtls", "FctvDtDtls"),
            ("acct_id", "AcctId"),
            ("mkt_id", "MktId"),
            ("sttlm_dtls", "SttlmDtls"),
            ("prvs_msg_ref", "PrvsMsgRef"),
            ("splmtry_data", "SplmtryData"),
        ]
    }
}

} // verus!

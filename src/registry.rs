//! Lookup of document shapes by their external type identifier.
use vstd::prelude::*;
use vstd::string::StringExecFns;

use crate::documents::{
    AccountOpeningAmendmentRequestV05,
    IdentificationVerificationReportV04,
    AccountSwitchInformationResponseV05,
    SystemEventAcknowledgementV01,
    InformationRequestOpeningV02,
    InformationRequestStatusChangeNotificationV01,
    ResolutionOfInvestigationV13,
    FundDetailedEstimatedCashForecastReportV04,
    IntraBalanceMovementInstructionV02,
    IntraBalanceMovementModificationRequestStatusAdviceV02,
    IntraBalanceMovementPostingReportV02,
    FIToFIPaymentStatusRequestV06,
    StandingSettlementInstructionCancellationV01,
};
use crate::error::{agrees, is_standard, ValidationError, CARDINALITY, UNKNOWN_DOCUMENT_TYPE};
use crate::field::Field;

verus! {

/// The document shapes that the registry knows.
#[derive(Debug, Clone, Copy, PartialEq, Eq, Structural)]
pub enum DocumentType {
    /// `acmt.008.001.05`
    AccountOpeningAmendmentRequestV05,
    /// `acmt.024.001.04`
    IdentificationVerificationReportV04,
    /// `acmt.028.001.05`
    AccountSwitchInformationResponseV05,
    /// `admi.011.001.01`
    SystemEventAcknowledgementV01,
    /// `auth.001.001.02`
    InformationRequestOpeningV02,
    /// `auth.003.001.01`
    InformationRequestStatusChangeNotificationV01,
    /// `camt.029.001.13`
    ResolutionOfInvestigationV13,
    /// `camt.042.001.04`
    FundDetailedEstimatedCashForecastReportV04,
    /// `camt.066.001.02`
    IntraBalanceMovementInstructionV02,
    /// `camt.073.001.02`
    IntraBalanceMovementModificationRequestStatusAdviceV02,
    /// `camt.084.001.02`
    IntraBalanceMovementPostingReportV02,
    /// `pacs.028.001.06`
    FIToFIPaymentStatusRequestV06,
    /// `reda.059.001.01`
    StandingSettlementInstructionCancellationV01,
}

impl DocumentType {
    /// The external type identifier of this shape.
    pub open spec fn spec_identifier(self) -> Seq<char> {
        match self {
            DocumentType::AccountOpeningAmendmentRequestV05 => "acmt.008.001.05"@,
            DocumentType::IdentificationVerificationReportV04 => "acmt.024.001.04"@,
            DocumentType::AccountSwitchInformationResponseV05 => "acmt.028.001.05"@,
            DocumentType::SystemEventAcknowledgementV01 => "admi.011.001.01"@,
            DocumentType::InformationRequestOpeningV02 => "auth.001.001.02"@,
            DocumentType::InformationRequestStatusChangeNotificationV01 => "auth.003.001.01"@,
            DocumentType::ResolutionOfInvestigationV13 => "camt.029.001.13"@,
            DocumentType::FundDetailedEstimatedCashForecastReportV04 => "camt.042.001.04"@,
            DocumentType::IntraBalanceMovementInstructionV02 => "camt.066.001.02"@,
            DocumentType::IntraBalanceMovementModificationRequestStatusAdviceV02 => "camt.073.001.02"@,
            DocumentType::IntraBalanceMovementPostingReportV02 => "camt.084.001.02"@,
            DocumentType::FIToFIPaymentStatusRequestV06 => "pacs.028.001.06"@,
            DocumentType::StandingSettlementInstructionCancellationV01 => "reda.059.001.01"@,
        }
    }

    /// The external type identifier of this shape.
    pub fn identifier(&self) -> (r: &'static str)
        ensures
            r@ == self.spec_identifier(),
    {
        match self {
            DocumentType::AccountOpeningAmendmentRequestV05 => "acmt.008.001.05",
            DocumentType::IdentificationVerificationReportV04 => "acmt.024.001.04",
            DocumentType::AccountSwitchInformationResponseV05 => "acmt.028.001.05",
            DocumentType::SystemEventAcknowledgementV01 => "admi.011.001.01",
            DocumentType::InformationRequestOpeningV02 => "auth.001.001.02",
            DocumentType::InformationRequestStatusChangeNotificationV01 => "auth.003.001.01",
            DocumentType::ResolutionOfInvestigationV13 => "camt.029.001.13",
            DocumentType::FundDetailedEstimatedCashForecastReportV04 => "camt.042.001.04",
            DocumentType::IntraBalanceMovementInstructionV02 => "camt.066.001.02",
            DocumentType::IntraBalanceMovementModificationRequestStatusAdviceV02 => "camt.073.001.02",
            DocumentType::IntraBalanceMovementPostingReportV02 => "camt.084.001.02",
            DocumentType::FIToFIPaymentStatusRequestV06 => "pacs.028.001.06",
            DocumentType::StandingSettlementInstructionCancellationV01 => "reda.059.001.01",
        }
    }

    /// Every shape of the registry.
    pub fn all() -> (r: Vec<DocumentType>)
        ensures
            forall|t: DocumentType| r@.contains(t),
    {
        let r = vec![
            DocumentType::AccountOpeningAmendmentRequestV05,
            DocumentType::IdentificationVerificationReportV04,
            DocumentType::AccountSwitchInformationResponseV05,
            DocumentType::SystemEventAcknowledgementV01,
            DocumentType::InformationRequestOpeningV02,
            DocumentType::InformationRequestStatusChangeNotificationV01,
            DocumentType::ResolutionOfInvestigationV13,
            DocumentType::FundDetailedEstimatedCashForecastReportV04,
            DocumentType::IntraBalanceMovementInstructionV02,
            DocumentType::IntraBalanceMovementModificationRequestStatusAdviceV02,
            DocumentType::IntraBalanceMovementPostingReportV02,
            DocumentType::FIToFIPaymentStatusRequestV06,
            DocumentType::StandingSettlementInstructionCancellationV01,
        ];
        assert forall|t: DocumentType| r@.contains(t) by {
            match t {
                DocumentType::AccountOpeningAmendmentRequestV05 => assert(r@[0] == t),
                DocumentType::IdentificationVerificationReportV04 => assert(r@[1] == t),
                DocumentType::AccountSwitchInformationResponseV05 => assert(r@[2] == t),
                DocumentType::SystemEventAcknowledgementV01 => assert(r@[3] == t),
                DocumentType::InformationRequestOpeningV02 => assert(r@[4] == t),
                DocumentType::InformationRequestStatusChangeNotificationV01 => assert(r@[5] == t),
                DocumentType::ResolutionOfInvestigationV13 => assert(r@[6] == t),
                DocumentType::FundDetailedEstimatedCashForecastReportV04 => assert(r@[7] == t),
                DocumentType::IntraBalanceMovementInstructionV02 => assert(r@[8] == t),
                DocumentType::IntraBalanceMovementModificationRequestStatusAdviceV02 => assert(r@[9] == t),
                DocumentType::IntraBalanceMovementPostingReportV02 => assert(r@[10] == t),
                DocumentType::FIToFIPaymentStatusRequestV06 => assert(r@[11] == t),
                DocumentType::StandingSettlementInstructionCancellationV01 => assert(r@[12] == t),
            }
        }
        r
    }
}

/// The shape registered under an identifier, if any.
pub open spec fn registered(id: Seq<char>) -> Option<DocumentType> {
    if exists|t: DocumentType| t.spec_identifier() == id {
        Some(choose|t: DocumentType| t.spec_identifier() == id)
    } else {
        None
    }
}

/// Looks up the shape registered under an identifier. An unknown identifier
/// is an error with code `UNKNOWN_DOCUMENT_TYPE`.
pub fn resolve(id: &str) -> (r: Result<DocumentType, ValidationError>)
    ensures
        match r {
            Ok(t) => t.spec_identifier() == id@,
            Err(e) => registered(id@) is None && e.code == UNKNOWN_DOCUMENT_TYPE && is_standard(e),
        },
{
    let all = DocumentType::all();
    let wanted = String::from_str(id);
    let mut i: usize = 0;
    while i < all.len()
        invariant
            i <= all@.len(),
            wanted@ == id@,
            forall|t: DocumentType| all@.contains(t),
            forall|j: int| 0 <= j < i ==> (#[trigger] all@[j]).spec_identifier() != id@,
        decreases all@.len() - i,
    {
        let known = String::from_str(all[i].identifier());
        if known == wanted {
            return Ok(all[i]);
        }
        i += 1;
    }
    assert forall|t: DocumentType| t.spec_identifier() != id@ by {
        assert(all@.contains(t));
        let j = choose|j: int| 0 <= j < all@.len() && all@[j] == t;
        assert(all@[j].spec_identifier() != id@);
    }
    Err(ValidationError::of_code(UNKNOWN_DOCUMENT_TYPE))
}

/// A document of any registered shape.
#[derive(Debug)]
pub enum Document {
    AccountOpeningAmendmentRequestV05(AccountOpeningAmendmentRequestV05),
    IdentificationVerificationReportV04(IdentificationVerificationReportV04),
    AccountSwitchInformationResponseV05(AccountSwitchInformationResponseV05),
    SystemEventAcknowledgementV01(SystemEventAcknowledgementV01),
    InformationRequestOpeningV02(InformationRequestOpeningV02),
    InformationRequestStatusChangeNotificationV01(InformationRequestStatusChangeNotificationV01),
    ResolutionOfInvestigationV13(ResolutionOfInvestigationV13),
    FundDetailedEstimatedCashForecastReportV04(FundDetailedEstimatedCashForecastReportV04),
    IntraBalanceMovementInstructionV02(IntraBalanceMovementInstructionV02),
    IntraBalanceMovementModificationRequestStatusAdviceV02(IntraBalanceMovementModificationRequestStatusAdviceV02),
    IntraBalanceMovementPostingReportV02(IntraBalanceMovementPostingReportV02),
    FIToFIPaymentStatusRequestV06(FIToFIPaymentStatusRequestV06),
    StandingSettlementInstructionCancellationV01(StandingSettlementInstructionCancellationV01),
}

impl Document {
    /// The shape of this document.
    pub open spec fn spec_document_type(&self) -> DocumentType {
        match self {
            Document::AccountOpeningAmendmentRequestV05(_) => DocumentType::AccountOpeningAmendmentRequestV05,
            Document::IdentificationVerificationReportV04(_) => DocumentType::IdentificationVerificationReportV04,
            Document::AccountSwitchInformationResponseV05(_) => DocumentType::AccountSwitchInformationResponseV05,
            Document::SystemEventAcknowledgementV01(_) => DocumentType::SystemEventAcknowledgementV01,
            Document::InformationRequestOpeningV02(_) => DocumentType::InformationRequestOpeningV02,
            Document::InformationRequestStatusChangeNotificationV01(_) => DocumentType::InformationRequestStatusChangeNotificationV01,
            Document::ResolutionOfInvestigationV13(_) => DocumentType::ResolutionOfInvestigationV13,
            Document::FundDetailedEstimatedCashForecastReportV04(_) => DocumentType::FundDetailedEstimatedCashForecastReportV04,
            Document::IntraBalanceMovementInstructionV02(_) => DocumentType::IntraBalanceMovementInstructionV02,
            Document::IntraBalanceMovementModificationRequestStatusAdviceV02(_) => DocumentType::IntraBalanceMovementModificationRequestStatusAdviceV02,
            Document::IntraBalanceMovementPostingReportV02(_) => DocumentType::IntraBalanceMovementPostingReportV02,
            Document::FIToFIPaymentStatusRequestV06(_) => DocumentType::FIToFIPaymentStatusRequestV06,
            Document::StandingSettlementInstructionCancellationV01(_) => DocumentType::StandingSettlementInstructionCancellationV01,
        }
    }

    /// The shape of this document.
    pub fn document_type(&self) -> (r: DocumentType)
        ensures
            r == self.spec_document_type(),
    {
        match self {
            Document::AccountOpeningAmendmentRequestV05(_) => DocumentType::AccountOpeningAmendmentRequestV05,
            Document::IdentificationVerificationReportV04(_) => DocumentType::IdentificationVerificationReportV04,
            Document::AccountSwitchInformationResponseV05(_) => DocumentType::AccountSwitchInformationResponseV05,
            Document::SystemEventAcknowledgementV01(_) => DocumentType::SystemEventAcknowledgementV01,
            Document::InformationRequestOpeningV02(_) => DocumentType::InformationRequestOpeningV02,
            Document::InformationRequestStatusChangeNotificationV01(_) => DocumentType::InformationRequestStatusChangeNotificationV01,
            Document::ResolutionOfInvestigationV13(_) => DocumentType::ResolutionOfInvestigationV13,
            Document::FundDetailedEstimatedCashForecastReportV04(_) => DocumentType::FundDetailedEstimatedCashForecastReportV04,
            Document::IntraBalanceMovementInstructionV02(_) => DocumentType::IntraBalanceMovementInstructionV02,
            Document::IntraBalanceMovementModificationRequestStatusAdviceV02(_) => DocumentType::IntraBalanceMovementModificationRequestStatusAdviceV02,
            Document::IntraBalanceMovementPostingReportV02(_) => DocumentType::IntraBalanceMovementPostingReportV02,
            Document::FIToFIPaymentStatusRequestV06(_) => DocumentType::FIToFIPaymentStatusRequestV06,
            Document::StandingSettlementInstructionCancellationV01(_) => DocumentType::StandingSettlementInstructionCancellationV01,
        }
    }

    pub open spec fn outcome(&self) -> Result<(), u32> {
        match self {
            Document::AccountOpeningAmendmentRequestV05(d) => d.outcome(),
            Document::IdentificationVerificationReportV04(d) => d.outcome(),
            Document::AccountSwitchInformationResponseV05(d) => d.outcome(),
            Document::SystemEventAcknowledgementV01(d) => d.outcome(),
            Document::InformationRequestOpeningV02(d) => d.outcome(),
            Document::InformationRequestStatusChangeNotificationV01(d) => d.outcome(),
            Document::ResolutionOfInvestigationV13(d) => d.outcome(),
            Document::FundDetailedEstimatedCashForecastReportV04(d) => d.outcome(),
            Document::IntraBalanceMovementInstructionV02(d) => d.outcome(),
            Document::IntraBalanceMovementModificationRequestStatusAdviceV02(d) => d.outcome(),
            Document::IntraBalanceMovementPostingReportV02(d) => d.outcome(),
            Document::FIToFIPaymentStatusRequestV06(d) => d.outcome(),
            Document::StandingSettlementInstructionCancellationV01(d) => d.outcome(),
        }
    }

    /// The document as a generic record, which validates exactly as the
    /// document does.
    pub fn into_field(self) -> (r: Field)
        ensures
            r.outcome() == self.outcome(),
    {
        match self {
            Document::AccountOpeningAmendmentRequestV05(d) => d.into_field(),
            Document::IdentificationVerificationReportV04(d) => d.into_field(),
            Document::AccountSwitchInformationResponseV05(d) => d.into_field(),
            Document::SystemEventAcknowledgementV01(d) => d.into_field(),
            Document::InformationRequestOpeningV02(d) => d.into_field(),
            Document::InformationRequestStatusChangeNotificationV01(d) => d.into_field(),
            Document::ResolutionOfInvestigationV13(d) => d.into_field(),
            Document::FundDetailedEstimatedCashForecastReportV04(d) => d.into_field(),
            Document::IntraBalanceMovementInstructionV02(d) => d.into_field(),
            Document::IntraBalanceMovementModificationRequestStatusAdviceV02(d) => d.into_field(),
            Document::IntraBalanceMovementPostingReportV02(d) => d.into_field(),
            Document::FIToFIPaymentStatusRequestV06(d) => d.into_field(),
            Document::StandingSettlementInstructionCancellationV01(d) => d.into_field(),
        }
    }

    /// Whether a generic record holds exactly this document.
    pub open spec fn matches_field(&self, f: Field) -> bool {
        match self {
            Document::AccountOpeningAmendmentRequestV05(d) => d.matches_field(f),
            Document::IdentificationVerificationReportV04(d) => d.matches_field(f),
            Document::AccountSwitchInformationResponseV05(d) => d.matches_field(f),
            Document::SystemEventAcknowledgementV01(d) => d.matches_field(f),
            Document::InformationRequestOpeningV02(d) => d.matches_field(f),
            Document::InformationRequestStatusChangeNotificationV01(d) => d.matches_field(f),
            Document::ResolutionOfInvestigationV13(d) => d.matches_field(f),
            Document::FundDetailedEstimatedCashForecastReportV04(d) => d.matches_field(f),
            Document::IntraBalanceMovementInstructionV02(d) => d.matches_field(f),
            Document::IntraBalanceMovementModificationRequestStatusAdviceV02(d) => d.matches_field(f),
            Document::IntraBalanceMovementPostingReportV02(d) => d.matches_field(f),
            Document::FIToFIPaymentStatusRequestV06(d) => d.matches_field(f),
            Document::StandingSettlementInstructionCancellationV01(d) => d.matches_field(f),
        }
    }

    /// Whether two documents are of one shape and hold the same values.
    pub open spec fn same_values(&self, other: &Document) -> bool {
        match (self, other) {
            (Document::AccountOpeningAmendmentRequestV05(a), Document::AccountOpeningAmendmentRequestV05(b)) => a.same_values(*b),
            (Document::IdentificationVerificationReportV04(a), Document::IdentificationVerificationReportV04(b)) => a.same_values(*b),
            (Document::AccountSwitchInformationResponseV05(a), Document::AccountSwitchInformationResponseV05(b)) => a.same_values(*b),
            (Document::SystemEventAcknowledgementV01(a), Document::SystemEventAcknowledgementV01(b)) => a.same_values(*b),
            (Document::InformationRequestOpeningV02(a), Document::InformationRequestOpeningV02(b)) => a.same_values(*b),
            (Document::InformationRequestStatusChangeNotificationV01(a), Document::InformationRequestStatusChangeNotificationV01(b)) => a.same_values(*b),
            (Document::ResolutionOfInvestigationV13(a), Document::ResolutionOfInvestigationV13(b)) => a.same_values(*b),
            (Document::FundDetailedEstimatedCashForecastReportV04(a), Document::FundDetailedEstimatedCashForecastReportV04(b)) => a.same_values(*b),
            (Document::IntraBalanceMovementInstructionV02(a), Document::IntraBalanceMovementInstructionV02(b)) => a.same_values(*b),
            (Document::IntraBalanceMovementModificationRequestStatusAdviceV02(a), Document::IntraBalanceMovementModificationRequestStatusAdviceV02(b)) => a.same_values(*b),
            (Document::IntraBalanceMovementPostingReportV02(a), Document::IntraBalanceMovementPostingReportV02(b)) => a.same_values(*b),
            (Document::FIToFIPaymentStatusRequestV06(a), Document::FIToFIPaymentStatusRequestV06(b)) => a.same_values(*b),
            (Document::StandingSettlementInstructionCancellationV01(a), Document::StandingSettlementInstructionCancellationV01(b)) => a.same_values(*b),
            _ => false,
        }
    }

    /// Builds a document of the given shape from a generic record, such as
    /// one that `decode` returns. A record that does not hold one member per
    /// child of the shape, in declared order and under the child's tag, is
    /// refused with `CARDINALITY`.
    pub fn from_field(t: DocumentType, f: Field) -> (r: Result<Document, ValidationError>)
        ensures
            match r {
                Ok(d) => d.spec_document_type() == t && d.matches_field(f),
                Err(e) => e.code == CARDINALITY && is_standard(e) && forall|d: Document|
                    d.spec_document_type() == t ==> !(#[trigger] d.matches_field(f)),
            },
    {
        match t {
            DocumentType::AccountOpeningAmendmentRequestV05 => match AccountOpeningAmendmentRequestV05::from_field(f) {
                Ok(d) => Ok(Document::AccountOpeningAmendmentRequestV05(d)),
                Err(e) => {
                    assert forall|d: Document| d.spec_document_type() == t implies !(
                    #[trigger] d.matches_field(f)) by {
                        if let Document::AccountOpeningAmendmentRequestV05(x) = d {
                            assert(!x.matches_field(f));
                        }
                    }
                    Err(e)
                },
            },
            DocumentType::IdentificationVerificationReportV04 => match IdentificationVerificationReportV04::from_field(f) {
                Ok(d) => Ok(Document::IdentificationVerificationReportV04(d)),
                Err(e) => {
                    assert forall|d: Document| d.spec_document_type() == t implies !(
                    #[trigger] d.matches_field(f)) by {
                        if let Document::IdentificationVerificationReportV04(x) = d {
                            assert(!x.matches_field(f));
                        }
                    }
                    Err(e)
                },
            },
            DocumentType::AccountSwitchInformationResponseV05 => match AccountSwitchInformationResponseV05::from_field(f) {
                Ok(d) => Ok(Document::AccountSwitchInformationResponseV05(d)),
                Err(e) => {
                    assert forall|d: Document| d.spec_document_type() == t implies !(
                    #[trigger] d.matches_field(f)) by {
                        if let Document::AccountSwitchInformationResponseV05(x) = d {
                            assert(!x.matches_field(f));
                        }
                    }
                    Err(e)
                },
            },
            DocumentType::SystemEventAcknowledgementV01 => match SystemEventAcknowledgementV01::from_field(f) {
                Ok(d) => Ok(Document::SystemEventAcknowledgementV01(d)),
                Err(e) => {
                    assert forall|d: Document| d.spec_document_type() == t implies !(
                    #[trigger] d.matches_field(f)) by {
                        if let Document::SystemEventAcknowledgementV01(x) = d {
                            assert(!x.matches_field(f));
                        }
                    }
                    Err(e)
                },
            },
            DocumentType::InformationRequestOpeningV02 => match InformationRequestOpeningV02::from_field(f) {
                Ok(d) => Ok(Document::InformationRequestOpeningV02(d)),
                Err(e) => {
                    assert forall|d: Document| d.spec_document_type() == t implies !(
                    #[trigger] d.matches_field(f)) by {
                        if let Document::InformationRequestOpeningV02(x) = d {
                            assert(!x.matches_field(f));
                        }
                    }
                    Err(e)
                },
            },
            DocumentType::InformationRequestStatusChangeNotificationV01 => match InformationRequestStatusChangeNotificationV01::from_field(f) {
                Ok(d) => Ok(Document::InformationRequestStatusChangeNotificationV01(d)),
                Err(e) => {
                    assert forall|d: Document| d.spec_document_type() == t implies !(
                    #[trigger] d.matches_field(f)) by {
                        if let Document::InformationRequestStatusChangeNotificationV01(x) = d {
                            assert(!x.matches_field(f));
                        }
                    }
                    Err(e)
                },
            },
            DocumentType::ResolutionOfInvestigationV13 => match ResolutionOfInvestigationV13::from_field(f) {
                Ok(d) => Ok(Document::ResolutionOfInvestigationV13(d)),
                Err(e) => {
                    assert forall|d: Document| d.spec_document_type() == t implies !(
                    #[trigger] d.matches_field(f)) by {
                        if let Document::ResolutionOfInvestigationV13(x) = d {
                            assert(!x.matches_field(f));
                        }
                    }
                    Err(e)
                },
            },
            DocumentType::FundDetailedEstimatedCashForecastReportV04 => match FundDetailedEstimatedCashForecastReportV04::from_field(f) {
                Ok(d) => Ok(Document::FundDetailedEstimatedCashForecastReportV04(d)),
                Err(e) => {
                    assert forall|d: Document| d.spec_document_type() == t implies !(
                    #[trigger] d.matches_field(f)) by {
                        if let Document::FundDetailedEstimatedCashForecastReportV04(x) = d {
                            assert(!x.matches_field(f));
                        }
                    }
                    Err(e)
                },
            },
            DocumentType::IntraBalanceMovementInstructionV02 => match IntraBalanceMovementInstructionV02::from_field(f) {
                Ok(d) => Ok(Document::IntraBalanceMovementInstructionV02(d)),
                Err(e) => {
                    assert forall|d: Document| d.spec_document_type() == t implies !(
                    #[trigger] d.matches_field(f)) by {
                        if let Document::IntraBalanceMovementInstructionV02(x) = d {
                            assert(!x.matches_field(f));
                        }
                    }
                    Err(e)
                },
            },
            DocumentType::IntraBalanceMovementModificationRequestStatusAdviceV02 => match IntraBalanceMovementModificationRequestStatusAdviceV02::from_field(f) {
                Ok(d) => Ok(Document::IntraBalanceMovementModificationRequestStatusAdviceV02(d)),
                Err(e) => {
                    assert forall|d: Document| d.spec_document_type() == t implies !(
                    #[trigger] d.matches_field(f)) by {
                        if let Document::IntraBalanceMovementModificationRequestStatusAdviceV02(x) = d {
                            assert(!x.matches_field(f));
                        }
                    }
                    Err(e)
                },
            },
            DocumentType::IntraBalanceMovementPostingReportV02 => match IntraBalanceMovementPostingReportV02::from_field(f) {
                Ok(d) => Ok(Document::IntraBalanceMovementPostingReportV02(d)),
                Err(e) => {
                    assert forall|d: Document| d.spec_document_type() == t implies !(
                    #[trigger] d.matches_field(f)) by {
                        if let Document::IntraBalanceMovementPostingReportV02(x) = d {
                            assert(!x.matches_field(f));
                        }
                    }
                    Err(e)
                },
            },
            DocumentType::FIToFIPaymentStatusRequestV06 => match FIToFIPaymentStatusRequestV06::from_field(f) {
                Ok(d) => Ok(Document::FIToFIPaymentStatusRequestV06(d)),
                Err(e) => {
                    assert forall|d: Document| d.spec_document_type() == t implies !(
                    #[trigger] d.matches_field(f)) by {
                        if let Document::FIToFIPaymentStatusRequestV06(x) = d {
                            assert(!x.matches_field(f));
                        }
                    }
                    Err(e)
                },
            },
            DocumentType::StandingSettlementInstructionCancellationV01 => match StandingSettlementInstructionCancellationV01::from_field(f) {
                Ok(d) => Ok(Document::StandingSettlementInstructionCancellationV01(d)),
                Err(e) => {
                    assert forall|d: Document| d.spec_document_type() == t implies !(
                    #[trigger] d.matches_field(f)) by {
                        if let Document::StandingSettlementInstructionCancellationV01(x) = d {
                            assert(!x.matches_field(f));
                        }
                    }
                    Err(e)
                },
            },
        }
    }

    /// Validates the document by the rules of its shape.
    pub fn validate(&self) -> (r: Result<(), ValidationError>)
        ensures
            agrees(r, self.outcome()),
    {
        match self {
            Document::AccountOpeningAmendmentRequestV05(d) => d.validate(),
            Document::IdentificationVerificationReportV04(d) => d.validate(),
            Document::AccountSwitchInformationResponseV05(d) => d.validate(),
            Document::SystemEventAcknowledgementV01(d) => d.validate(),
            Document::InformationRequestOpeningV02(d) => d.validate(),
            Document::InformationRequestStatusChangeNotificationV01(d) => d.validate(),
            Document::ResolutionOfInvestigationV13(d) => d.validate(),
            Document::FundDetailedEstimatedCashForecastReportV04(d) => d.validate(),
            Document::IntraBalanceMovementInstructionV02(d) => d.validate(),
            Document::IntraBalanceMovementModificationRequestStatusAdviceV02(d) => d.validate(),
            Document::IntraBalanceMovementPostingReportV02(d) => d.validate(),
            Document::FIToFIPaymentStatusRequestV06(d) => d.validate(),
            Document::StandingSettlementInstructionCancellationV01(d) => d.validate(),
        }
    }
}

} // verus!

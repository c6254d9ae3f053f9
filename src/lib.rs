//! Validation of schema-constrained business documents.
//!
//! A document is a tree of fields of five structural kinds (scalar, optional,
//! repeated, composite, choice). Scalars carry facets (length bounds,
//! patterns, enumerations, numeric ranges). Validation walks the tree in
//! declared order and stops at the first failure. A tag mapping turns trees
//! into flat streams of tagged tokens and back, and a registry finds a
//! document shape by its type identifier.
mod codec;
mod compose;
mod documents;
mod error;
mod facet;
mod field;
pub mod laws;
mod registry;

pub use codec::{decode, encode, Presence, Shape, Slot, Token};
pub use documents::{
    AccountOpeningAmendmentRequestV05, AccountSwitchInformationResponseV05,
    FIToFIPaymentStatusRequestV06, FundDetailedEstimatedCashForecastReportV04,
    IdentificationVerificationReportV04, InformationRequestOpeningV02,
    InformationRequestStatusChangeNotificationV01, IntraBalanceMovementInstructionV02,
    IntraBalanceMovementModificationRequestStatusAdviceV02, IntraBalanceMovementPostingReportV02,
    ResolutionOfInvestigationV13, StandingSettlementInstructionCancellationV01,
    SystemEventAcknowledgementV01, MAX35_MAX, MAX35_MIN, SESSION_ID_PATTERN,
};
pub use error::{
    ValidationError, ABOVE_MAXIMUM, BELOW_MINIMUM, CARDINALITY, NOT_IN_ENUMERATION,
    PATTERN_MISMATCH, TOO_LONG, TOO_SHORT, UNKNOWN_DOCUMENT_TYPE, UNKNOWN_TAG,
};
pub use facet::{Facet, Scalar};
pub use field::{Field, Member};
pub use registry::{resolve, Document, DocumentType};

//! The failures that a command or a query can report.

use vstd::prelude::*;

verus! {

/// `cosmwasm_std::StdError`, the host's error type: a value of it is
/// carried through and never read.
#[verifier::external_type_specification]
#[verifier::external_body]
pub struct ExStdError(cosmwasm_std::StdError);

/// Why a command or a query was refused.
#[derive(Debug)]
pub enum ContractError {
    /// A failure reported by the host, such as an ill-formed identity.
    Std(cosmwasm_std::StdError),
    /// Reserved for operations that only the administrator may perform.
    Unauthorized {},
    /// A poll was requested with more options than a poll may have.
    TooManyOptions {},
    /// No poll is stored under the given id.
    PollNotFound {},
    /// The poll has no option with the given label.
    OptionNotFound {},
    /// The command or query is declared but has no behaviour yet.
    NotImplemented {},
}

/// `cosmwasm_std::StdError`'s `to_string`: the host's own text for its
/// error. Nothing is claimed of it.
#[verifier::external_body]
fn host_text(e: &cosmwasm_std::StdError) -> (r: String) {
    e.to_string()
}

impl ContractError {
    /// The text that each failure of this module is reported with; a
    /// failure of the host has the host's text.
    pub open spec fn text(self) -> Option<Seq<char>> {
        match self {
            ContractError::Std(_) => None,
            ContractError::Unauthorized {  } => Some("Unauthorized"@),
            ContractError::TooManyOptions {  } => Some("Too many poll options"@),
            ContractError::PollNotFound {  } => Some("Poll not found"@),
            ContractError::OptionNotFound {  } => Some("Option dosn't found in the poll"@),
            ContractError::NotImplemented {  } => Some("Not implemented"@),
        }
    }

    /// The text that the failure is reported with.
    pub fn message(&self) -> (r: String)
        ensures
            self.text() is Some ==> r@ == self.text()->0,
    {
        match self {
            ContractError::Std(e) => host_text(e),
            ContractError::Unauthorized {  } => "Unauthorized".to_owned(),
            ContractError::TooManyOptions {  } => "Too many poll options".to_owned(),
            ContractError::PollNotFound {  } => "Poll not found".to_owned(),
            ContractError::OptionNotFound {  } => "Option dosn't found in the poll".to_owned(),
            ContractError::NotImplemented {  } => "Not implemented".to_owned(),
        }
    }
}

} // verus!

use vstd::prelude::*;

verus! {

/// The error type of the standard library of the contract platform, carried
/// through unchanged where a parse or an address check fails.
#[verifier::external_type_specification]
#[verifier::external_body]
pub struct ExStdError(cosmwasm_std::StdError);

/// Why a request to the contract was refused.
#[derive(Debug)]
pub enum ContractError {
    Std(cosmwasm_std::StdError),
    Unauthorized {},
    CustomError { val: String },
    NoInvoiceValue {},
    NoDateDueValue {},
    IncorrectPayer {},
    InvalidPaymentValue {},
    InvalidDate {},
}

} // verus!

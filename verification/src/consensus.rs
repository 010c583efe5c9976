//! The consensus rules that a download consults, as far as a download consults them.
use vstd::prelude::*;

use crate::primitives::SealedHeader;

verus! {

/// The rules for headers.
///
/// Implementations decide freely: a download holds for every answer, and two calls on the same
/// headers may be answered differently.
pub trait HeaderValidator {
    /// Why headers or a body are refused.
    type Error;

    /// Validates a range of headers in rising order.
    fn validate_header_range(&self, headers: &[SealedHeader]) -> (result: Result<(), Self::Error>);
}

/// The rules for blocks with bodies of type `B`.
pub trait Consensus<B>: HeaderValidator {
    /// Validates that a body belongs to a header.
    fn validate_body_against_header(&self, body: &B, header: &SealedHeader) -> (result: Result<
        (),
        Self::Error,
    >);
}

/// Asked whether `body` belongs to `header`, `consensus` can answer `valid`.
pub open spec fn body_verdict<B, C: Consensus<B>>(
    consensus: &C,
    body: &B,
    header: &SealedHeader,
    valid: bool,
) -> bool {
    exists|result: Result<(), C::Error>| #[trigger]
        call_ensures(C::validate_body_against_header, (consensus, body, header), result) && valid
            == result is Ok
}

/// Asked whether the range `rising` is valid, `consensus` can answer `valid`.
pub open spec fn range_verdict<C: HeaderValidator>(
    consensus: &C,
    rising: Seq<SealedHeader>,
    valid: bool,
) -> bool {
    exists|headers: &[SealedHeader], result: Result<(), C::Error>| #[trigger]
        call_ensures(C::validate_header_range, (consensus, headers), result) && headers@ == rising
            && valid == result is Ok
}

/// Asks `consensus` whether a body belongs to a header.
pub fn is_body_valid<B, C: Consensus<B>>(consensus: &C, body: &B, header: &SealedHeader) -> (valid:
    bool)
    ensures
        body_verdict(consensus, body, header, valid),
        exists|result: Result<(), C::Error>| #[trigger]
            call_ensures(C::validate_body_against_header, (consensus, body, header), result)
                && valid == result is Ok,
{
    consensus.validate_body_against_header(body, header).is_ok()
}

/// Asks `consensus` whether a range of headers in rising order is valid.
pub fn is_range_valid<C: HeaderValidator>(consensus: &C, rising: &[SealedHeader]) -> (valid: bool)
    ensures
        range_verdict(consensus, rising@, valid),
        exists|result: Result<(), C::Error>| #[trigger]
            call_ensures(C::validate_header_range, (consensus, rising), result) && valid
                == result is Ok,
{
    consensus.validate_header_range(rising).is_ok()
}

/// The refusal of [`TestConsensus`].
#[derive(Clone, Copy, Debug)]
pub struct ValidationRefused;

/// Consensus rules for tests: everything is valid, unless told otherwise.
#[derive(Debug)]
pub struct TestConsensus {
    /// Whether headers are refused.
    pub fail_validation: bool,
    /// Whether bodies are refused.
    pub fail_body_against_header: bool,
}

impl Default for TestConsensus {
    fn default() -> (consensus: TestConsensus)
        ensures
            !consensus.fail_validation,
            !consensus.fail_body_against_header,
    {
        TestConsensus { fail_validation: false, fail_body_against_header: false }
    }
}

impl TestConsensus {
    /// Sets whether everything is refused.
    pub fn set_fail_validation(&mut self, fail: bool)
        ensures
            final(self).fail_validation == fail,
            final(self).fail_body_against_header == fail,
    {
        self.fail_validation = fail;
        self.fail_body_against_header = fail;
    }
}

impl HeaderValidator for TestConsensus {
    type Error = ValidationRefused;

    fn validate_header_range(&self, headers: &[SealedHeader]) -> (result: Result<
        (),
        ValidationRefused,
    >)
        ensures
            result is Ok <==> !self.fail_validation || headers@.len() == 0,
    {
        if self.fail_validation && headers.len() > 0 {
            Err(ValidationRefused)
        } else {
            Ok(())
        }
    }
}

impl<B> Consensus<B> for TestConsensus {
    fn validate_body_against_header(&self, body: &B, header: &SealedHeader) -> (result: Result<
        (),
        ValidationRefused,
    >)
        ensures
            result is Ok <==> !self.fail_body_against_header,
    {
        if self.fail_body_against_header {
            Err(ValidationRefused)
        } else {
            Ok(())
        }
    }
}

/// An answer of the consensus rules is the outcome of a call on exactly what is asked about: it is
/// positive if that call returned `Ok`, and negative if it returned an error.
pub proof fn law_verdict_is_the_outcome_of_a_call<B, C: Consensus<B>>(
    consensus: &C,
    body: &B,
    header: &SealedHeader,
    rising: Seq<SealedHeader>,
    valid: bool,
)
    ensures
        body_verdict(consensus, body, header, valid) <==> exists|result: Result<(), C::Error>|
            #[trigger]
            call_ensures(C::validate_body_against_header, (consensus, body, header), result)
                && valid == result is Ok,
        range_verdict(consensus, rising, valid) <==> exists|
            headers: &[SealedHeader],
            result: Result<(), C::Error>,
        | #[trigger]
            call_ensures(C::validate_header_range, (consensus, headers), result) && headers@
                == rising && valid == result is Ok,
{
}

/// The rules for tests give one answer only: everything is valid, unless they were told otherwise.
pub proof fn law_test_consensus_is_decided<B>(
    consensus: &TestConsensus,
    body: &B,
    header: &SealedHeader,
    rising: Seq<SealedHeader>,
    valid: bool,
)
    ensures
        body_verdict(consensus, body, header, valid) ==> valid
            == !consensus.fail_body_against_header,
        range_verdict(consensus, rising, valid) ==> valid == (!consensus.fail_validation
            || rising.len() == 0),
{
}

} // verus!

//! The result of a run under its earlier document kind.

use crate::api::envelope::{EnvelopeError, EnvelopeFault};
use crate::api::mistresult::{
    deserialized_result, result_document, result_view, serialize_result_as, MistOutput, MistResult,
    OutputView,
};
use crate::yaml::emitted_text;
use vstd::prelude::*;

verus! {

/// What a package hands back when it succeeds.
pub type MistHuskOutput = MistOutput;

/// What a package hands back.
pub type MistHuskResult = MistResult;

/// Writes a result as a `MistHuskResult` document.
pub fn serialize_result(result: &MistHuskResult) -> (r: Result<String, EnvelopeError>)
    ensures
        match r {
            Ok(s) => emitted_text(result_document("MistHuskResult"@, result_view(*result)))
                == Some(s@),
            Err(e) => emitted_text(result_document("MistHuskResult"@, result_view(*result)))
                is None && e is Emit,
        },
{
    serialize_result_as("MistHuskResult", result)
}

/// Reads a result from its YAML document; the kind that the document names is not looked at.
pub fn deserialize_result(result_str: &str) -> (r: Result<MistHuskResult, EnvelopeError>)
    ensures
        match r {
            Ok(res) => deserialized_result(result_str@) == Ok::<_, EnvelopeFault>(
                result_view(res),
            ),
            Err(e) => deserialized_result(result_str@) == Err::<
                Result<OutputView, Seq<char>>,
                _,
            >(e.fault()),
        },
{
    crate::api::mistresult::deserialize_result(result_str)
}

} // verus!

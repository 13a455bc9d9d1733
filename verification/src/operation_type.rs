//! The two directions in which the pipeline runs.

use vstd::prelude::*;
use vstd::string::StringExecFns;

verus! {

/// Which way a buffer goes through the pipeline.
#[derive(Clone, Copy, Debug, PartialEq, Eq, Structural)]
pub enum OperationType {
    ENCRYPT,
    DECRYPT,
}

/// `text` with every character in lower case.
pub uninterp spec fn lowercase_of(text: Seq<char>) -> Seq<char>;

/// Calls `str::to_lowercase` of the standard library.
///
/// Believed, not proved: the result is the lower-case form of `text`.
#[verifier::external_body]
fn to_lowercase(text: &str) -> (lower: String)
    ensures
        lower@ == lowercase_of(text@),
{
    text.to_lowercase()
}

/// The operation that a lower-case name stands for, if any.
pub open spec fn operation_named(lower: Seq<char>) -> Option<OperationType> {
    if lower == "encrypt"@ {
        Some(OperationType::ENCRYPT)
    } else if lower == "decrypt"@ {
        Some(OperationType::DECRYPT)
    } else {
        None
    }
}

/// The complaint about a value that names no operation.
pub open spec fn invalid_operation_message(given: Seq<char>) -> Seq<char> {
    "Invalid value for operation type: "@ + given
}

/// The two names are different texts.
pub proof fn lemma_names_differ()
    ensures
        "encrypt"@ != "decrypt"@,
{
    reveal_strlit("encrypt");
    reveal_strlit("decrypt");
    assert("encrypt"@[0] == 'e');
    assert("decrypt"@[0] == 'd');
}

impl OperationType {
    /// Reads an operation from its name, in any mix of upper and lower case.
    pub fn from_str(s: &str) -> (result: Result<OperationType, String>)
        ensures
            result is Ok <==> operation_named(lowercase_of(s@)) is Some,
            result is Ok ==> Some(result->Ok_0) == operation_named(lowercase_of(s@)),
            result is Err ==> result->Err_0@ == invalid_operation_message(s@),
    {
        let lower: String = to_lowercase(s);
        OperationType::from_lowercase(lower.as_str(), s)
    }

    /// Reads an operation from `lower`, a name already in lower case;
    /// `given` is the value as the user wrote it, for the complaint.
    pub fn from_lowercase(lower: &str, given: &str) -> (result: Result<OperationType, String>)
        ensures
            result is Ok <==> operation_named(lower@) is Some,
            result is Ok ==> Some(result->Ok_0) == operation_named(lower@),
            result is Err ==> result->Err_0@ == invalid_operation_message(given@),
    {
        let name: String = String::from_str(lower);
        if name == String::from_str("encrypt") {
            Ok(OperationType::ENCRYPT)
        } else if name == String::from_str("decrypt") {
            proof {
                lemma_names_differ();
            }
            Ok(OperationType::DECRYPT)
        } else {
            Err(String::from_str("Invalid value for operation type: ").concat(given))
        }
    }
}

impl std::str::FromStr for OperationType {
    type Err = String;

    /// Reads an operation as the method of the same name on the type does.
    fn from_str(s: &str) -> (result: Result<Self, Self::Err>)
        ensures
            result is Ok <==> operation_named(lowercase_of(s@)) is Some,
            result is Ok ==> Some(result->Ok_0) == operation_named(lowercase_of(s@)),
            result is Err ==> result->Err_0@ == invalid_operation_message(s@),
    {
        OperationType::from_str(s)
    }
}

} // verus!

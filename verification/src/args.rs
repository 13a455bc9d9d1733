//! What the command line asks for, as plain values.

use crate::operation_type::invalid_operation_message;
use crate::operation_type::lowercase_of;
use crate::operation_type::operation_named;
use crate::operation_type::OperationType;
use vstd::prelude::*;
use vstd::string::StringExecFns;

verus! {

/// One invocation: which file to read, where to write, which way to go,
/// and whether compression is on.
#[derive(Debug)]
pub struct Args {
    pub source_file: String,
    pub output_file: String,
    pub operation: OperationType,
    /// Compress before encrypting, or decompress after decrypting.
    pub use_compression: bool,
}

impl Args {
    /// Puts together an invocation from the values given on the command
    /// line. The operation is read as `OperationType::from_str` reads it;
    /// compression is on exactly where its value is `true`.
    pub fn from_values(
        source_file: String,
        output_file: String,
        operation: &str,
        use_compression: &str,
    ) -> (result: Result<Args, String>)
        ensures
            result is Ok <==> operation_named(lowercase_of(operation@)) is Some,
            result is Ok ==> result->Ok_0.source_file == source_file,
            result is Ok ==> result->Ok_0.output_file == output_file,
            result is Ok ==> Some(result->Ok_0.operation) == operation_named(
                lowercase_of(operation@),
            ),
            result is Ok ==> result->Ok_0.use_compression == (use_compression@ == "true"@),
            result is Err ==> result->Err_0@ == invalid_operation_message(operation@),
    {
        match OperationType::from_str(operation) {
            Ok(operation) => Ok(
                Args {
                    source_file,
                    output_file,
                    operation,
                    use_compression: String::from_str(use_compression) == String::from_str("true"),
                },
            ),
            Err(message) => Err(message),
        }
    }
}

} // verus!

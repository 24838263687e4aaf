use vstd::prelude::*;

verus! {

/// The name prefix of the application's temporary files.
pub open spec fn temp_file_prefix_spec(prefix: Seq<char>) -> Seq<char> {
    "echo-"@ + prefix
}

/// The prefix of a temporary file of this application for `prefix`.
pub fn temp_file_prefix(prefix: &str) -> (r: String)
    ensures
        r@ == temp_file_prefix_spec(prefix@),
{
    String::from_str("echo-").concat(prefix)
}

} // verus!

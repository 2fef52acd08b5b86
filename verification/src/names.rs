//! The name of the assistant that does the work, in sentences and in the names of its models.

use vstd::prelude::*;
use vstd::string::*;

use crate::text;

verus! {

/// A sentence with the assistant's name in it.
pub open spec fn sentence(name: Seq<char>, before: &str, after: &str) -> Seq<char> {
    before@ + name + after@
}

/// A sentence with the assistant's name in it.
pub fn naming(assistant: &str, before: &str, after: &str) -> (result: String)
    ensures
        result@ == sentence(assistant@, before, after),
{
    let mut result = before.to_owned();
    result.append(assistant);
    result.append(after);
    result
}

/// The name of a model: the assistant's name in lower case, and the version.
pub open spec fn model(name: Seq<char>, version: &str) -> Seq<char> {
    text::lowered(name) + version@
}

/// The name of a model.
pub fn model_name(assistant: &str, version: &str) -> (result: String)
    ensures
        result@ == model(assistant@, version),
{
    let mut result = text::to_lower(assistant);
    result.append(version);
    result
}

} // verus!

//! Plain data carried over the node's operation surface: request and
//! response payloads and the sample records of the JSON demonstration
//! endpoint. Transport-level (de)serialization lives outside the library;
//! these are the values it hands in and takes back.

use vstd::prelude::*;
use vstd::string::StringExecFns;
use crate::errors::{NodeError, spec_describe, spec_status_code};

verus! {

/// The uniform operation answer: a status code and an explanatory payload.
pub struct DefaultResponse {
    pub status_code: u16,
    pub text: String,
}

impl DefaultResponse {
    /// The answer an error surfaces as.
    pub fn of_error(e: &NodeError) -> (r: DefaultResponse)
        ensures
            r.status_code == spec_status_code(*e),
            r.text@ == spec_describe(*e),
    {
        DefaultResponse { status_code: e.status_code(), text: e.describe() }
    }

    /// The answer of an operation that created something: 201 and the text.
    pub fn created(text: String) -> (r: DefaultResponse)
        ensures
            r.status_code == 201,
            r.text@ == text@,
    {
        DefaultResponse { status_code: 201, text }
    }

    /// The answer of a plain successful lookup: 200 and the text.
    pub fn ok(text: String) -> (r: DefaultResponse)
        ensures
            r.status_code == 200,
            r.text@ == text@,
    {
        DefaultResponse { status_code: 200, text }
    }
}

/// A sample stored record.
pub struct MyModel {
    pub id: i32,
    pub data: String,
}

/// A sample JSON request payload.
pub struct TestJsonRequest {
    pub name: String,
    pub age: u16,
}

/// The payload of the JSON demonstration endpoint.
pub struct ExamplePost {
    pub name: String,
    pub age: i32,
    pub email: String,
}

/// Query parameters of a receipt fetch.
#[derive(Debug)]
pub struct QueryParams {
    pub uuid: String,
}

/// The JSON demonstration endpoint's behaviour: overwrite the posted name
/// with the fixed sample value and answer 200 with that value.
pub fn apply_example_post(post: &mut ExamplePost) -> (r: DefaultResponse)
    ensures
        final(post).name@ == "test_value"@,
        final(post).age == old(post).age,
        final(post).email@ == old(post).email@,
        r.status_code == 200,
        r.text@ == "test_value"@,
{
    post.name = String::from_str("test_value");
    DefaultResponse { status_code: 200, text: String::from_str("test_value") }
}

} // verus!

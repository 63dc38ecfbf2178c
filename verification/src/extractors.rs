//! Request extractors: the decision a typed extractor makes once the
//! framework has told it what the request carries.

use vstd::prelude::*;
use vstd::string::StringExecFns;

use crate::error::{HandlerError, HandlerErrorKind};

verus! {

/// An example extracted request value. Extraction needs the shared
/// application state; the surrounding program reports whether that
/// state is present.
#[derive(Clone, Debug)]
pub struct ExampleRequest;

impl ExampleRequest {
    /// Succeeds exactly when the application state is available;
    /// otherwise the request is rejected with a general "Bad state"
    /// error.
    pub fn from_request_state(state_available: bool) -> (r: Result<ExampleRequest, HandlerError>)
        ensures
            state_available <==> r is Ok,
            r matches Err(e) ==> e.spec_kind() matches HandlerErrorKind::General(m) && m@
                == "Bad state"@,
    {
        if state_available {
            Ok(ExampleRequest)
        } else {
            Err(
                HandlerError::from_kind(
                    HandlerErrorKind::General(String::from_str("Bad state")),
                ),
            )
        }
    }
}

} // verus!

use vstd::prelude::*;

use crate::ids::{is_fresh_id, new_uuid};

verus! {

/// The trace id of a request, which every handler passes on.
#[derive(Debug)]
pub struct TraceId(pub String);

impl Clone for TraceId {
    fn clone(&self) -> (r: Self)
        ensures
            r == *self,
    {
        TraceId(self.0.clone())
    }
}

/// The trace id of a request: the one in its `X-Trace-Id` header, or else a
/// fresh UUID.
pub fn trace_id_of(header: Option<&str>) -> (id: TraceId)
    ensures
        match header {
            Some(text) => id.0@ == text@,
            None => is_fresh_id(id.0@),
        },
{
    match header {
        Some(text) => TraceId(text.to_string()),
        None => TraceId(new_uuid()),
    }
}

} // verus!

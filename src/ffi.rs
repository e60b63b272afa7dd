use vstd::prelude::*;

use crate::process::{Dynamic, Process};

verus! {

/// What a host implements to serve the functions that a module imports.
pub trait FfiHandler {
    /// Serves a call of `function` with `args`. The results go onto the
    /// operand stack with `process.stack_push`, in order.
    fn handle(&mut self, process: &mut Process, function: &str, args: Vec<Dynamic>);

    /// Reports a call that could not be served: the function does not exist,
    /// or its arguments do not match.
    fn unhandled(&mut self, function: &str, args: Vec<Dynamic>);
}

} // verus!

//! Rendering of log lines. The host decides where they go.

use vstd::prelude::*;
use vstd::string::StringExecFns;

verus! {

/// Renders an informational log line for a component.
pub fn log(component: &str, message: &str) -> (r: String)
    ensures
        r@ == "["@ + component@ + "] "@ + message@,
{
    let mut s = String::from_str("[");
    s.append(component);
    s.append("] ");
    s.append(message);
    s
}

/// Renders an error log line for a component.
pub fn log_error(component: &str, message: &str) -> (r: String)
    ensures
        r@ == "["@ + component@ + "] ERROR: "@ + message@,
{
    let mut s = String::from_str("[");
    s.append(component);
    s.append("] ERROR: ");
    s.append(message);
    s
}

} // verus!

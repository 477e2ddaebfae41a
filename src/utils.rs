use vstd::prelude::*;

use crate::runtime::{displays, Value};

verus! {

/// The display string of a runtime value: a string as it is, a boolean as
/// `true` or `false`, a number as `show` writes it.
pub fn to_string<N: Copy, S: Fn(N) -> String>(value: &Value<N>, show: &S) -> (r: String)
    requires
        forall|n: N| show.requires((n,)),
    ensures
        displays(*value, r, *show),
{
    match value {
        Value::String(s) => s.clone(),
        Value::Bool(b) => if *b {
            String::from_str("true")
        } else {
            String::from_str("false")
        },
        Value::Number(n) => show(*n),
        Value::Error => String::from_str("<Error>"),
    }
}

} // verus!

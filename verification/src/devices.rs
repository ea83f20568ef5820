//! The informational device listing: plain records built from the names the
//! audio subsystem enumerates and the names of its default endpoints. The
//! enumeration itself happens outside this crate; this module only marks
//! each record against the defaults and renders the short role tag.

use vstd::prelude::*;

verus! {

/// One entry of the device listing, in enumeration order.
#[derive(Debug, Clone)]
pub struct DeviceInfo {
    pub name: String,
    pub is_default_input: bool,
    pub is_default_output: bool,
}

/// Whether an optional default-endpoint name equals the given name.
pub open spec fn is_named(default_name: Option<String>, name: Seq<char>) -> bool {
    match default_name {
        Some(d) => d@ == name,
        None => false,
    }
}

/// Builds the listing: one record per enumerated name, in order, flagged as
/// the default input or output exactly when its name equals that default's
/// name.
pub fn mark_defaults(
    names: &Vec<String>,
    default_input: &Option<String>,
    default_output: &Option<String>,
) -> (r: Vec<DeviceInfo>)
    ensures
        r@.len() == names@.len(),
        forall|i: int|
            0 <= i < r@.len() ==> {
                &&& (#[trigger] r@[i]).name@ == names@[i]@
                &&& r@[i].is_default_input == is_named(*default_input, names@[i]@)
                &&& r@[i].is_default_output == is_named(*default_output, names@[i]@)
            },
{
    let mut out: Vec<DeviceInfo> = Vec::new();
    let mut i: usize = 0;
    while i < names.len()
        invariant
            i <= names@.len(),
            out@.len() == i,
            forall|j: int|
                0 <= j < i as int ==> {
                    &&& (#[trigger] out@[j]).name@ == names@[j]@
                    &&& out@[j].is_default_input == is_named(*default_input, names@[j]@)
                    &&& out@[j].is_default_output == is_named(*default_output, names@[j]@)
                },
        decreases names@.len() - i,
    {
        let name = names[i].clone();
        let is_in = match default_input {
            Some(d) => *d == names[i],
            None => false,
        };
        let is_out = match default_output {
            Some(d) => *d == names[i],
            None => false,
        };
        out.push(DeviceInfo { name, is_default_input: is_in, is_default_output: is_out });
        i += 1;
    }
    out
}

/// The tag rendered beside a listed default endpoint.
pub open spec fn marks_spec(default_input: bool, default_output: bool) -> Seq<char> {
    if default_input && default_output {
        "*I *O"@
    } else if default_input {
        "*I"@
    } else if default_output {
        "*O"@
    } else {
        ""@
    }
}

impl DeviceInfo {
    /// The short role tag shown beside this entry: which of the subsystem's
    /// default endpoints it is, if any.
    pub fn marks(&self) -> (r: String)
        ensures
            r@ == marks_spec(self.is_default_input, self.is_default_output),
    {
        if self.is_default_input && self.is_default_output {
            String::from_str("*I *O")
        } else if self.is_default_input {
            String::from_str("*I")
        } else if self.is_default_output {
            String::from_str("*O")
        } else {
            String::from_str("")
        }
    }
}

} // verus!

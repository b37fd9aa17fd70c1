//! Environment built-ins: turning the outcome of an environment variable
//! lookup into an FMPL value.

use vstd::prelude::*;
use vstd::string::StringExecFns;
use crate::error::{Error, Result};
use crate::value::Value;

verus! {

broadcast use vstd::string::group_string_axioms;

/// The outcome of looking up an environment variable.
#[derive(Debug)]
pub enum EnvLookup {
    /// The variable is set to this text.
    Present(String),
    /// The variable is not set.
    NotPresent,
    /// The variable is set but not valid Unicode; the text describes why.
    NotUnicode(String),
}

/// The io built-in object for file and environment operations.
pub struct IoBuiltin;

/// The message of a failed environment variable read.
pub open spec fn env_error_message(name: Seq<char>, detail: Seq<char>) -> Seq<char> {
    "Failed to read env var '"@ + name + "': "@ + detail
}

impl IoBuiltin {
    /// The value of an environment variable lookup: its text, null when it
    /// is not set, an error when it is not valid Unicode.
    pub fn get_env(name: &str, lookup: EnvLookup) -> (r: Result<Value>)
        ensures
            match lookup {
                EnvLookup::Present(v) => r matches Ok(Value::String(s)) && s@ == v@,
                EnvLookup::NotPresent => r matches Ok(Value::Null),
                EnvLookup::NotUnicode(d) => r matches Err(Error::Runtime(m)) && m@ == env_error_message(
                    name@,
                    d@,
                ),
            },
    {
        match lookup {
            EnvLookup::Present(value) => Ok(Value::String(value)),
            EnvLookup::NotPresent => Ok(Value::Null),
            EnvLookup::NotUnicode(detail) => {
                let mut msg = "Failed to read env var '".to_string();
                msg.append(name);
                msg.append("': ");
                msg.append(detail.as_str());
                Err(Error::Runtime(msg))
            },
        }
    }
}

/// The env built-in object for environment variable access.
pub struct EnvBuiltin;

impl EnvBuiltin {
    /// The value of an environment variable lookup (see [`IoBuiltin::get_env`]).
    pub fn get(name: &str, lookup: EnvLookup) -> (r: Result<Value>)
        ensures
            match lookup {
                EnvLookup::Present(v) => r matches Ok(Value::String(s)) && s@ == v@,
                EnvLookup::NotPresent => r matches Ok(Value::Null),
                EnvLookup::NotUnicode(d) => r matches Err(Error::Runtime(m)) && m@ == env_error_message(
                    name@,
                    d@,
                ),
            },
    {
        IoBuiltin::get_env(name, lookup)
    }
}

} // verus!

use vstd::prelude::*;

use crate::error::Error;

verus! {

/// Why an environment variable could not be read.
#[derive(Debug, Clone)]
pub enum EnvVarCause {
    /// The variable is not set.
    NotPresent,
    /// The variable is set but unusable; the text says why.
    Invalid(String),
}

/// The setting `config` from the environment, given what reading the
/// variable gave: its value, or an `Env` error that names the missing
/// setting or says why it is unusable.
pub fn read_env(config: &str, var: Result<String, EnvVarCause>) -> (res: Result<String, Error>)
    ensures
        var matches Ok(value) ==> res == Ok::<String, Error>(value),
        var matches Err(EnvVarCause::NotPresent) ==> (res matches Err(Error::Env(m)) && m@ == "missing env::"@ + config@),
        var matches Err(EnvVarCause::Invalid(reason)) ==> (res matches Err(Error::Env(m)) && m@ == reason@),
{
    match var {
        Ok(value) => Ok(value),
        Err(cause) => {
            let reasons = match cause {
                EnvVarCause::NotPresent => {
                    let mut message = String::from_str("missing env::");
                    message.append(config);
                    message
                },
                EnvVarCause::Invalid(reason) => reason,
            };
            Err(Error::Env(reasons))
        },
    }
}

} // verus!

//! What configurations have in common.

use vstd::prelude::*;

verus! {

/// A setting that must be given and is not.
#[derive(Clone, Copy, Debug, PartialEq, Eq, Structural)]
pub enum ConfigError {
    /// `OPENAI_API_KEY` is missing.
    NoOpenAiApiKey,
    /// `MATRIX_USERNAME` is missing.
    NoMatrixUsername,
    /// `MATRIX_PASSWORD` is missing.
    NoMatrixPassword,
}

impl ConfigError {
    /// What the error says.
    pub open spec fn describes(self) -> Seq<char> {
        match self {
            ConfigError::NoOpenAiApiKey =>
                "no OpenAI API Key given by env parameter OPENAI_API_KEY"@,
            ConfigError::NoMatrixUsername => "No MATRIX_USERNAME given as env parameter"@,
            ConfigError::NoMatrixPassword => "No MATRIX_PASSWORD given as env parameter"@,
        }
    }

    /// Describes the error.
    pub fn message(&self) -> (message: String)
        ensures
            message@ == self.describes(),
    {
        match self {
            ConfigError::NoOpenAiApiKey =>
                "no OpenAI API Key given by env parameter OPENAI_API_KEY".to_owned(),
            ConfigError::NoMatrixUsername =>
                "No MATRIX_USERNAME given as env parameter".to_owned(),
            ConfigError::NoMatrixPassword =>
                "No MATRIX_PASSWORD given as env parameter".to_owned(),
        }
    }
}

/// A setting, or what holds where it is not given.
pub open spec fn setting(value: Option<String>, default: Seq<char>) -> Seq<char> {
    match value {
        Some(value) => value@,
        None => default,
    }
}

/// A setting, or `default` where it is not given.
pub fn setting_or(value: Option<String>, default: &str) -> (result: String)
    ensures
        result@ == setting(value, default@),
{
    match value {
        Some(value) => value,
        None => default.to_owned(),
    }
}

} // verus!

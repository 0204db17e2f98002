use vstd::prelude::*;

verus! {

/// The process-wide settings of the client: the bearer token and the model name.
#[derive(Debug)]
pub struct Config {
    pub api_key: String,
    pub model: String,
}

/// A required setting that was not supplied.
#[derive(Debug, Clone, Copy, PartialEq, Eq)]
pub enum ConfigError {
    MissingApiKey,
    MissingModel,
}

impl Config {
    /// Builds the settings from the values found at startup; the API key is
    /// checked first.
    pub fn from_values(api_key: Option<String>, model: Option<String>) -> (r: Result<
        Config,
        ConfigError,
    >)
        ensures
            api_key is None ==> r == Err::<Config, ConfigError>(ConfigError::MissingApiKey),
            api_key is Some && model is None ==> r == Err::<Config, ConfigError>(
                ConfigError::MissingModel,
            ),
            api_key is Some && model is Some ==> r == Ok::<Config, ConfigError>(
                Config { api_key: api_key->0, model: model->0 },
            ),
    {
        match (api_key, model) {
            (None, _) => Err(ConfigError::MissingApiKey),
            (Some(_), None) => Err(ConfigError::MissingModel),
            (Some(k), Some(m)) => Ok(Config { api_key: k, model: m }),
        }
    }
}

} // verus!

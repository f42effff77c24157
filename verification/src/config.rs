use vstd::prelude::*;
use vstd::string::StringExecFns;

use crate::error::VaskError;

verus! {

/// The Gemini model used when neither flag, environment nor config file names one.
pub const DEFAULT_MODEL: &'static str = "gemini-3.5-flash";

/// The settings a run goes with.
#[derive(Debug, Clone)]
pub struct Config {
    pub api_key: String,
    pub model: String,
}

/// What the config file may set.
#[derive(Debug)]
pub struct FileConfig {
    pub api_key: Option<String>,
    pub default_model: Option<String>,
}

impl Default for FileConfig {
    fn default() -> (r: FileConfig)
        ensures
            r.api_key is None,
            r.default_model is None,
    {
        FileConfig { api_key: None, default_model: None }
    }
}

/// The first of three optional settings that is given, in order of precedence.
pub open spec fn first_given(a: Option<String>, b: Option<String>, c: Option<String>) -> Option<String> {
    if a is Some {
        a
    } else if b is Some {
        b
    } else {
        c
    }
}

/// The model that a run resolves to: flag, then environment, then config file, then
/// the default.
pub open spec fn resolved_model(
    model_flag: Option<String>,
    env_model: Option<String>,
    file_model: Option<String>,
) -> Seq<char> {
    match first_given(model_flag, env_model, file_model) {
        Some(m) => m@,
        None => DEFAULT_MODEL@,
    }
}

fn first_of(a: Option<String>, b: Option<String>, c: Option<String>) -> (r: Option<String>)
    ensures
        r == first_given(a, b, c),
{
    match a {
        Some(x) => Some(x),
        None => match b {
            Some(y) => Some(y),
            None => c,
        },
    }
}

/// Resolves the API key and model from a flag, the environment and the config file,
/// in that order of precedence; the model falls back to [`DEFAULT_MODEL`]. Fails when no
/// source gives an API key.
pub fn resolve_inner(
    model_flag: Option<String>,
    key_flag: Option<String>,
    env_key: Option<String>,
    env_model: Option<String>,
    file: FileConfig,
) -> (r: Result<Config, VaskError>)
    ensures
        r is Ok <==> first_given(key_flag, env_key, file.api_key) is Some,
        r matches Err(e) ==> e is MissingApiKey,
        r matches Ok(cfg) ==> {
            &&& Some(cfg.api_key) == first_given(key_flag, env_key, file.api_key)
            &&& cfg.model@ == resolved_model(model_flag, env_model, file.default_model)
        },
        // A flag always wins over the environment and the config file, and the
        // environment over the config file.
        key_flag matches Some(k) ==> r matches Ok(cfg) && cfg.api_key == k,
        (key_flag is None && env_key is Some) ==> (r is Ok && r->Ok_0.api_key == env_key->0),
        (key_flag is None && env_key is None && file.api_key is Some) ==> (r is Ok
            && r->Ok_0.api_key == file.api_key->0),
        (key_flag is None && env_key is None && file.api_key is None) ==> r is Err,
        model_flag matches Some(m) ==> r matches Ok(cfg) ==> cfg.model == m,
        (model_flag is None && env_model is Some && r is Ok) ==> r->Ok_0.model == env_model->0,
        (model_flag is None && env_model is None && file.default_model is Some && r is Ok)
            ==> r->Ok_0.model == file.default_model->0,
        (model_flag is None && env_model is None && file.default_model is None && r is Ok)
            ==> r->Ok_0.model@ == "gemini-3.5-flash"@,
{
    let api_key = match first_of(key_flag, env_key, file.api_key) {
        Some(k) => k,
        None => return Err(VaskError::MissingApiKey),
    };
    let model = match first_of(model_flag, env_model, file.default_model) {
        Some(m) => m,
        None => String::from_str(DEFAULT_MODEL),
    };
    Ok(Config { api_key, model })
}

} // verus!

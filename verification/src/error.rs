use vstd::prelude::*;
use vstd::string::StringExecFns;

verus! {

/// What the library refuses, and why.
#[derive(Debug)]
pub enum VaskError {
    /// The URL starts with neither `https://` nor `http://`.
    BadScheme { url: String },
    /// The URL's host (with any leading `www.` removed) is not a YouTube host.
    NotYouTube { host: String, url: String },
    /// No API key was given by flag, environment or config file.
    MissingApiKey,
    /// A Gemini response without `candidates[0].content.parts` as an array; `body` is the
    /// response as it is shown.
    NoCandidateParts { body: String },
    /// A Gemini response none of whose parts carries a `text` string; `body` is the
    /// response as it is shown.
    NoTextPart { body: String },
    /// A Gemini call that answered with a status outside 200..=299; `status` is the status
    /// as it is shown (code and reason), `body` the text that came with it.
    ApiError { status: String, body: String },
}

/// The message shown for an error.
pub open spec fn error_text(e: VaskError) -> Seq<char> {
    match e {
        VaskError::BadScheme { url } => "URL must start with http(s)://: "@ + url@,
        VaskError::NotYouTube { host, url } =>
            "not a recognized YouTube URL (host '"@ + host@ + "'): "@ + url@,
        VaskError::MissingApiKey =>
            "no API key found. Set GEMINI_API_KEY, pass --api-key, or add api_key to ~/.config/vask/config.toml"@,
        VaskError::NoCandidateParts { body } => "no candidates/parts in Gemini response: "@ + body@,
        VaskError::NoTextPart { body } => "no text part in Gemini response: "@ + body@,
        VaskError::ApiError { status, body } => "Gemini API error "@ + status@ + ": "@ + body@,
    }
}

impl VaskError {
    /// The message shown for this error.
    pub fn message(&self) -> (r: String)
        ensures
            r@ == error_text(*self),
    {
        match self {
            VaskError::BadScheme { url } => {
                String::from_str("URL must start with http(s)://: ").concat(url.as_str())
            },
            VaskError::NotYouTube { host, url } => {
                String::from_str("not a recognized YouTube URL (host '")
                    .concat(host.as_str())
                    .concat("'): ")
                    .concat(url.as_str())
            },
            VaskError::MissingApiKey => String::from_str(
                "no API key found. Set GEMINI_API_KEY, pass --api-key, or add api_key to ~/.config/vask/config.toml",
            ),
            VaskError::NoCandidateParts { body } => {
                String::from_str("no candidates/parts in Gemini response: ").concat(body.as_str())
            },
            VaskError::NoTextPart { body } => {
                String::from_str("no text part in Gemini response: ").concat(body.as_str())
            },
            VaskError::ApiError { status, body } => {
                String::from_str("Gemini API error ").concat(status.as_str()).concat(": ").concat(
                    body.as_str(),
                )
            },
        }
    }
}

} // verus!

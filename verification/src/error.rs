//! The error surface of the core: every fallible operation returns one of
//! these typed errors to its caller; nothing is retried internally.

use vstd::prelude::*;

verus! {

/// One error kind per failure class of the pipeline.
#[derive(Debug, Clone, PartialEq, Eq)]
pub enum Error {
    /// The configuration root could not be resolved.
    ConfigInitialization { message: String },
    /// Building the template registry failed; the failure is terminal.
    TemplateInitialization { message: String },
    /// A required sheet is absent; `key` names the missing sheet.
    KeyNotFound { key: String },
    /// A cell held a literal that does not parse; carries field/row context.
    ValueParse { message: String },
    /// The parsed data breaks a structural invariant (overlap, bounds, names).
    Validation { message: String },
    /// A valid component cannot be represented in a target schema.
    Conversion { message: String },
    /// A render-time template error, surfaced as-is.
    Render { message: String },
}

/// The human-readable message of an error: a fixed prefix for its class,
/// then what it carries.
pub open spec fn spec_message(e: Error) -> Seq<char> {
    match e {
        Error::ConfigInitialization { message } => "configuration error: "@ + message@,
        Error::TemplateInitialization { message } => "template registry error: "@ + message@,
        Error::KeyNotFound { key } => "missing sheet: "@ + key@,
        Error::ValueParse { message } => "value parse error: "@ + message@,
        Error::Validation { message } => "validation error: "@ + message@,
        Error::Conversion { message } => "conversion error: "@ + message@,
        Error::Render { message } => "render error: "@ + message@,
    }
}

impl Error {
    /// A human-readable message for the boundary with the front end.
    pub fn message(&self) -> (r: String)
        ensures
            r@ == spec_message(*self),
    {
        match self {
            Error::ConfigInitialization { message } => {
                let mut s = String::from_str("configuration error: ");
                s.append(message.as_str());
                s
            },
            Error::TemplateInitialization { message } => {
                let mut s = String::from_str("template registry error: ");
                s.append(message.as_str());
                s
            },
            Error::KeyNotFound { key } => {
                let mut s = String::from_str("missing sheet: ");
                s.append(key.as_str());
                s
            },
            Error::ValueParse { message } => {
                let mut s = String::from_str("value parse error: ");
                s.append(message.as_str());
                s
            },
            Error::Validation { message } => {
                let mut s = String::from_str("validation error: ");
                s.append(message.as_str());
                s
            },
            Error::Conversion { message } => {
                let mut s = String::from_str("conversion error: ");
                s.append(message.as_str());
                s
            },
            Error::Render { message } => {
                let mut s = String::from_str("render error: ");
                s.append(message.as_str());
                s
            },
        }
    }
}

} // verus!

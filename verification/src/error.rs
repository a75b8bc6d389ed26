use vstd::prelude::*;

verus! {

/// Every failure the library and the surrounding program can report.
/// All of them are terminal for a run: nothing is retried.
#[derive(Debug, PartialEq, Eq)]
pub enum Error {
    /// Neither the configuration file nor the CLI/environment supplied
    /// an account id or an access token.
    MissingCredential,
    /// A date value was not a valid `YYYY-MM-DD` calendar date.
    InvalidDate { field: String, value: String },
    /// The configuration file could not be read.
    ConfigFileUnreadable,
    /// The HTTP transport failed before a response arrived.
    ApiRequestFailed,
    /// The API answered with a non-2xx status or a body of the wrong shape.
    ApiResponseMalformed,
    /// The template file could not be read.
    TemplateNotFound,
    /// The template engine rejected the template or its data.
    TemplateRenderError { message: String },
}

} // verus!

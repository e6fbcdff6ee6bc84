//! The errors of the launcher.

use vstd::prelude::*;

verus! {

/// Everything that stops the launcher.
#[derive(Debug, Clone, PartialEq, Eq)]
pub enum LauncherError {
    /// The path of the application does not name a file.
    RegistryNoFile,
    /// The path of the application is relative.
    RegistryNotAbsolute,
    /// The path of the application cannot be written as text.
    RegistryInvalid,
    /// The configuration could not be parsed.
    Config { message: String },
    /// Reading or writing failed.
    IOError { message: String },
    /// A rule was evaluated whose expression is no regular expression.
    /// `pattern` is the expression that failed to compile.
    Pattern { pattern: String },
}

/// An error as contracts see it.
pub enum ErrorView {
    RegistryNoFile,
    RegistryNotAbsolute,
    RegistryInvalid,
    Config { message: Seq<char> },
    IOError { message: Seq<char> },
    Pattern { pattern: Seq<char> },
}

impl View for LauncherError {
    type V = ErrorView;

    open spec fn view(&self) -> ErrorView {
        match self {
            LauncherError::RegistryNoFile => ErrorView::RegistryNoFile,
            LauncherError::RegistryNotAbsolute => ErrorView::RegistryNotAbsolute,
            LauncherError::RegistryInvalid => ErrorView::RegistryInvalid,
            LauncherError::Config { message } => ErrorView::Config { message: message@ },
            LauncherError::IOError { message } => ErrorView::IOError { message: message@ },
            LauncherError::Pattern { pattern } => ErrorView::Pattern { pattern: pattern@ },
        }
    }
}

/// A result as contracts see it: the value as it is, the error by its view.
pub open spec fn seen<T>(result: Result<T, LauncherError>) -> Result<T, ErrorView> {
    match result {
        Ok(value) => Ok(value),
        Err(why) => Err(why@),
    }
}

impl LauncherError {
    /// The text that describes this error.
    pub open spec fn spec_message(&self) -> Seq<char> {
        match self {
            LauncherError::RegistryNoFile => "Expected path to be a file"@,
            LauncherError::RegistryNotAbsolute => "Expected path to be absolute"@,
            LauncherError::RegistryInvalid =>
                "Path is not valid. Symbolic links and network drives are not supported"@,
            LauncherError::Config { message } => "Config invalid"@,
            LauncherError::IOError { message } => message@,
            LauncherError::Pattern { pattern } => "Regex failed to compile."@,
        }
    }

    /// Describes the error in words.
    pub fn message(&self) -> (text: String)
        ensures
            text@ == self.spec_message(),
    {
        match self {
            LauncherError::RegistryNoFile => "Expected path to be a file".to_owned(),
            LauncherError::RegistryNotAbsolute => "Expected path to be absolute".to_owned(),
            LauncherError::RegistryInvalid =>
                "Path is not valid. Symbolic links and network drives are not supported".to_owned(),
            LauncherError::Config { message } => "Config invalid".to_owned(),
            LauncherError::IOError { message } => message.clone(),
            LauncherError::Pattern { pattern } => "Regex failed to compile.".to_owned(),
        }
    }
}

} // verus!

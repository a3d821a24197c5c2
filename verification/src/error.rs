//! The closed set of error kinds that commands report.

use vstd::prelude::*;
use vstd::string::StringExecFns;
use vstd::std_specs::convert::FromSpecImpl;

verus! {

/// An application error: a kind and a human-readable message.
#[derive(Debug)]
pub enum AppError {
    /// Errors related to local file storage.
    Storage(String),
    /// Errors related to cloud drive operations.
    Drive(String),
    /// Errors related to OAuth authentication.
    OAuth(String),
    /// Errors related to window management.
    Window(String),
    /// Errors related to data validation.
    Validation(String),
    /// Errors related to network operations.
    Network(String),
}

impl AppError {
    /// The message carried by the error.
    pub open spec fn message(&self) -> Seq<char> {
        match self {
            AppError::Storage(m) => m@,
            AppError::Drive(m) => m@,
            AppError::OAuth(m) => m@,
            AppError::Window(m) => m@,
            AppError::Validation(m) => m@,
            AppError::Network(m) => m@,
        }
    }

    /// The text that introduces errors of this kind when they are displayed.
    pub open spec fn label(&self) -> Seq<char> {
        match self {
            AppError::Storage(_) => "Storage error: "@,
            AppError::Drive(_) => "Drive error: "@,
            AppError::OAuth(_) => "OAuth error: "@,
            AppError::Window(_) => "Window error: "@,
            AppError::Validation(_) => "Validation error: "@,
            AppError::Network(_) => "Network error: "@,
        }
    }

    /// What the error looks like when displayed: the label, then the message.
    pub open spec fn display(&self) -> Seq<char> {
        self.label() + self.message()
    }

    pub fn storage(msg: &str) -> (e: Self)
        ensures
            e is Storage,
            e.message() == msg@,
    {
        AppError::Storage(String::from_str(msg))
    }

    pub fn drive(msg: &str) -> (e: Self)
        ensures
            e is Drive,
            e.message() == msg@,
    {
        AppError::Drive(String::from_str(msg))
    }

    pub fn oauth(msg: &str) -> (e: Self)
        ensures
            e is OAuth,
            e.message() == msg@,
    {
        AppError::OAuth(String::from_str(msg))
    }

    pub fn window(msg: &str) -> (e: Self)
        ensures
            e is Window,
            e.message() == msg@,
    {
        AppError::Window(String::from_str(msg))
    }

    pub fn validation(msg: &str) -> (e: Self)
        ensures
            e is Validation,
            e.message() == msg@,
    {
        AppError::Validation(String::from_str(msg))
    }

    pub fn network(msg: &str) -> (e: Self)
        ensures
            e is Network,
            e.message() == msg@,
    {
        AppError::Network(String::from_str(msg))
    }

    /// The message carried by the error.
    pub fn cause(&self) -> (m: &str)
        ensures
            m@ == self.message(),
    {
        match self {
            AppError::Storage(m) => m.as_str(),
            AppError::Drive(m) => m.as_str(),
            AppError::OAuth(m) => m.as_str(),
            AppError::Window(m) => m.as_str(),
            AppError::Validation(m) => m.as_str(),
            AppError::Network(m) => m.as_str(),
        }
    }

    /// Renders the error for display.
    pub fn to_string(&self) -> (s: String)
        ensures
            s@ == self.display(),
    {
        match self {
            AppError::Storage(m) => String::from_str("Storage error: ").concat(m.as_str()),
            AppError::Drive(m) => String::from_str("Drive error: ").concat(m.as_str()),
            AppError::OAuth(m) => String::from_str("OAuth error: ").concat(m.as_str()),
            AppError::Window(m) => String::from_str("Window error: ").concat(m.as_str()),
            AppError::Validation(m) => String::from_str("Validation error: ").concat(m.as_str()),
            AppError::Network(m) => String::from_str("Network error: ").concat(m.as_str()),
        }
    }
}

/// An error turns into the text that it displays.
impl core::convert::From<AppError> for String {
    fn from(error: AppError) -> (s: String)
        ensures
            s@ == error.display(),
    {
        error.to_string()
    }
}

impl FromSpecImpl<AppError> for String {
    open spec fn obeys_from_spec() -> bool {
        false
    }

    open spec fn from_spec(error: AppError) -> String {
        arbitrary()
    }
}

} // verus!

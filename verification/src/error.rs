//! The library's error type: one variant per failure domain, each carrying
//! a human-readable detail.

use vstd::prelude::*;
use crate::unicode::{push_str_chars_string};

verus! {

#[derive(Debug, Clone, PartialEq, Eq)]
pub enum AppError {
    Database(String),
    Recording(String),
    Transcription(String),
    Network(String),
    Io(String),
    Permission(String),
    NotFound(String),
    InvalidInput(String),
}

pub type AppResult<T> = Result<T, AppError>;

/// The label that the message of each variant starts with.
pub open spec fn error_label(e: AppError) -> Seq<char> {
    match e {
        AppError::Database(_) => "Database error: "@,
        AppError::Recording(_) => "Recording error: "@,
        AppError::Transcription(_) => "Transcription error: "@,
        AppError::Network(_) => "Network error: "@,
        AppError::Io(_) => "IO error: "@,
        AppError::Permission(_) => "Permission denied: "@,
        AppError::NotFound(_) => "Not found: "@,
        AppError::InvalidInput(_) => "Invalid input: "@,
    }
}

/// The detail that an error carries.
pub open spec fn error_detail(e: AppError) -> Seq<char> {
    match e {
        AppError::Database(m) => m@,
        AppError::Recording(m) => m@,
        AppError::Transcription(m) => m@,
        AppError::Network(m) => m@,
        AppError::Io(m) => m@,
        AppError::Permission(m) => m@,
        AppError::NotFound(m) => m@,
        AppError::InvalidInput(m) => m@,
    }
}

/// `o` failed with an `Io` error whose message is `msg`.
pub open spec fn io_failure<T>(o: AppResult<T>, msg: Seq<char>) -> bool {
    o matches Err(AppError::Io(m)) && m@ == msg
}

impl AppError {
    /// The detail carried by this error.
    pub fn detail(&self) -> (r: &String)
        ensures
            r@ == error_detail(*self),
    {
        match self {
            AppError::Database(m) => m,
            AppError::Recording(m) => m,
            AppError::Transcription(m) => m,
            AppError::Network(m) => m,
            AppError::Io(m) => m,
            AppError::Permission(m) => m,
            AppError::NotFound(m) => m,
            AppError::InvalidInput(m) => m,
        }
    }

    /// The message shown to users: the variant's label, then the detail.
    pub fn to_string(&self) -> (r: String)
        ensures
            r@ == error_label(*self) + error_detail(*self),
    {
        let label: &str = match self {
            AppError::Database(_) => "Database error: ",
            AppError::Recording(_) => "Recording error: ",
            AppError::Transcription(_) => "Transcription error: ",
            AppError::Network(_) => "Network error: ",
            AppError::Io(_) => "IO error: ",
            AppError::Permission(_) => "Permission denied: ",
            AppError::NotFound(_) => "Not found: ",
            AppError::InvalidInput(_) => "Invalid input: ",
        };
        let mut out = String::new();
        push_str_chars_string(&mut out, label);
        push_str_chars_string(&mut out, self.detail().as_str());
        out
    }
}

} // verus!

//! The failures of the crate.

use vstd::prelude::*;
use vstd::string::StringExecFns;

verus! {

/// What can go wrong, each kind with the detail that goes into its
/// message.
#[derive(Debug)]
pub enum AppError {
    /// The data source could not be reached.
    Network(String),
    /// The cache could not take or keep an entry.
    Cache(String),
    /// A payload could not be encoded or decoded.
    Serialization(String),
    /// The data source answered, but not with a usable chart.
    YahooFinance(String),
    /// The data are there, but too few or malformed.
    DataParsing(String),
    /// Stored settings could not be read or written.
    Storage(String),
}

/// The kinds of failure, without their detail.
#[derive(Clone, Copy, Debug, PartialEq, Eq, Structural)]
pub enum ErrorKind {
    Network,
    Cache,
    Serialization,
    YahooFinance,
    DataParsing,
    Storage,
}

/// A failure as contracts speak of it: its kind and its detail.
pub struct Failure {
    pub kind: ErrorKind,
    pub detail: Seq<char>,
}

impl View for AppError {
    type V = Failure;

    open spec fn view(&self) -> Failure {
        Failure { kind: self.spec_kind(), detail: self.detail() }
    }
}

impl AppError {
    /// The kind of the error.
    pub open spec fn spec_kind(self) -> ErrorKind {
        match self {
            AppError::Network(_) => ErrorKind::Network,
            AppError::Cache(_) => ErrorKind::Cache,
            AppError::Serialization(_) => ErrorKind::Serialization,
            AppError::YahooFinance(_) => ErrorKind::YahooFinance,
            AppError::DataParsing(_) => ErrorKind::DataParsing,
            AppError::Storage(_) => ErrorKind::Storage,
        }
    }

    /// The kind of the error.
    pub fn kind(&self) -> (k: ErrorKind)
        ensures
            k == self.spec_kind(),
    {
        match self {
            AppError::Network(_) => ErrorKind::Network,
            AppError::Cache(_) => ErrorKind::Cache,
            AppError::Serialization(_) => ErrorKind::Serialization,
            AppError::YahooFinance(_) => ErrorKind::YahooFinance,
            AppError::DataParsing(_) => ErrorKind::DataParsing,
            AppError::Storage(_) => ErrorKind::Storage,
        }
    }

    /// The detail that the error carries.
    pub open spec fn detail(self) -> Seq<char> {
        match self {
            AppError::Network(s) => s@,
            AppError::Cache(s) => s@,
            AppError::Serialization(s) => s@,
            AppError::YahooFinance(s) => s@,
            AppError::DataParsing(s) => s@,
            AppError::Storage(s) => s@,
        }
    }

    /// The words that open the message of each kind.
    pub open spec fn prefix(self) -> Seq<char> {
        match self {
            AppError::Network(_) => "Network error: "@,
            AppError::Cache(_) => "Cache error: "@,
            AppError::Serialization(_) => "Serialization error: "@,
            AppError::YahooFinance(_) => "Yahoo Finance API error: "@,
            AppError::DataParsing(_) => "Data parsing error: "@,
            AppError::Storage(_) => "Storage error: "@,
        }
    }

    /// The message: the words of the kind, then the detail.
    pub open spec fn text(self) -> Seq<char> {
        self.prefix() + self.detail()
    }

    /// The message as a string.
    pub fn message(&self) -> (r: String)
        ensures
            r@ == self.text(),
    {
        match self {
            AppError::Network(s) => "Network error: ".to_owned().concat(s.as_str()),
            AppError::Cache(s) => "Cache error: ".to_owned().concat(s.as_str()),
            AppError::Serialization(s) => "Serialization error: ".to_owned().concat(s.as_str()),
            AppError::YahooFinance(s) => "Yahoo Finance API error: ".to_owned().concat(
                s.as_str(),
            ),
            AppError::DataParsing(s) => "Data parsing error: ".to_owned().concat(s.as_str()),
            AppError::Storage(s) => "Storage error: ".to_owned().concat(s.as_str()),
        }
    }
}

} // verus!

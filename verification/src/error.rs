//! The structured errors that every operation reports.

use crate::text::{push_str, string_of};
use vstd::prelude::*;

verus! {

/// Which kind of text failed to parse.
#[derive(Debug, Clone, Copy, PartialEq, Eq, Structural)]
pub enum ParseKind {
    /// A decimal number.
    Decimal,
    /// A calendar date.
    Date,
    /// A date with a time of day.
    Timestamp,
    /// A UUID.
    Uuid,
    /// A 256-bit integer in decimal digits.
    Int256,
    /// A JSON document.
    Json,
}

/// What went wrong in an operation of this library.
#[derive(Debug, Clone, PartialEq)]
pub enum FdwError {
    /// A required option is absent; holds the option's name.
    OptionMissing(String),
    /// A remote column type has no conversion; holds the type's name.
    UnsupportedColumnType(String),
    /// A placeholder of a query template matches no qualifier; holds the
    /// placeholder's name.
    UnmatchedParameter(String),
    /// A placeholder matches a list-valued qualifier; holds the
    /// placeholder's name.
    NoArrayParameter(String),
    /// A text or a number does not denote a value of the wanted kind.
    ValueParse(ParseKind),
    /// The remote side handed over something that breaks its own protocol.
    RemoteProtocol,
    /// The plugin side handed over something that the bridge cannot carry.
    PluginFault,
}

/// The mathematical content of an error.
pub enum FdwErrorView {
    OptionMissing(Seq<char>),
    UnsupportedColumnType(Seq<char>),
    UnmatchedParameter(Seq<char>),
    NoArrayParameter(Seq<char>),
    ValueParse(ParseKind),
    RemoteProtocol,
    PluginFault,
}

impl View for FdwError {
    type V = FdwErrorView;

    open spec fn view(&self) -> FdwErrorView {
        match self {
            FdwError::OptionMissing(s) => FdwErrorView::OptionMissing(s@),
            FdwError::UnsupportedColumnType(s) => FdwErrorView::UnsupportedColumnType(s@),
            FdwError::UnmatchedParameter(s) => FdwErrorView::UnmatchedParameter(s@),
            FdwError::NoArrayParameter(s) => FdwErrorView::NoArrayParameter(s@),
            FdwError::ValueParse(k) => FdwErrorView::ValueParse(*k),
            FdwError::RemoteProtocol => FdwErrorView::RemoteProtocol,
            FdwError::PluginFault => FdwErrorView::PluginFault,
        }
    }
}

impl ParseKind {
    /// The name of the kind of value, as a report words it.
    pub open spec fn spec_name(self) -> Seq<char> {
        match self {
            ParseKind::Decimal => "decimal"@,
            ParseKind::Date => "date"@,
            ParseKind::Timestamp => "timestamp"@,
            ParseKind::Uuid => "uuid"@,
            ParseKind::Int256 => "256-bit integer"@,
            ParseKind::Json => "json"@,
        }
    }

    /// The name of the kind of value.
    pub fn name(self) -> (s: &'static str)
        ensures
            s@ == self.spec_name(),
    {
        match self {
            ParseKind::Decimal => "decimal",
            ParseKind::Date => "date",
            ParseKind::Timestamp => "timestamp",
            ParseKind::Uuid => "uuid",
            ParseKind::Int256 => "256-bit integer",
            ParseKind::Json => "json",
        }
    }
}

/// The report of an error, as the user reads it.
pub open spec fn error_message(e: FdwErrorView) -> Seq<char> {
    match e {
        FdwErrorView::OptionMissing(name) => "required option '"@ + name + "' is not specified"@,
        FdwErrorView::UnsupportedColumnType(name) => "column type "@ + name + " is not supported"@,
        FdwErrorView::UnmatchedParameter(name) => "parameter '"@ + name
            + "' matches no qualifier"@,
        FdwErrorView::NoArrayParameter(name) => "parameter '"@ + name
            + "' cannot take a list of values"@,
        FdwErrorView::ValueParse(kind) => "value is not a valid "@ + kind.spec_name(),
        FdwErrorView::RemoteProtocol => "remote system broke its protocol"@,
        FdwErrorView::PluginFault => "plugin handed over a value that cannot be carried"@,
    }
}

impl FdwError {
    /// The report of the error.
    pub fn message(&self) -> (s: String)
        ensures
            s@ == error_message(self@),
    {
        let mut buf: Vec<char> = Vec::new();
        match self {
            FdwError::OptionMissing(name) => {
                push_str(&mut buf, "required option '");
                push_str(&mut buf, name.as_str());
                push_str(&mut buf, "' is not specified");
            },
            FdwError::UnsupportedColumnType(name) => {
                push_str(&mut buf, "column type ");
                push_str(&mut buf, name.as_str());
                push_str(&mut buf, " is not supported");
            },
            FdwError::UnmatchedParameter(name) => {
                push_str(&mut buf, "parameter '");
                push_str(&mut buf, name.as_str());
                push_str(&mut buf, "' matches no qualifier");
            },
            FdwError::NoArrayParameter(name) => {
                push_str(&mut buf, "parameter '");
                push_str(&mut buf, name.as_str());
                push_str(&mut buf, "' cannot take a list of values");
            },
            FdwError::ValueParse(kind) => {
                push_str(&mut buf, "value is not a valid ");
                push_str(&mut buf, kind.name());
            },
            FdwError::RemoteProtocol => {
                push_str(&mut buf, "remote system broke its protocol");
            },
            FdwError::PluginFault => {
                push_str(&mut buf, "plugin handed over a value that cannot be carried");
            },
        }
        string_of(&buf)
    }
}

} // verus!

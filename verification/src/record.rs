//! Log records on their way to the sinks.

use crate::outside::ansi_stripped;
use crate::outside::strip_ansi;
use std::borrow::Cow;
use vstd::prelude::*;

verus! {

/// How severe a record is.
#[derive(Clone, Copy, Debug, PartialEq, Eq, Structural)]
pub enum SeverityNumber {
    Trace,
    Debug,
    Info,
    Warn,
    Error,
}

impl SeverityNumber {
    /// The name of the severity in a record.
    pub open spec fn text(self) -> Seq<char> {
        match self {
            SeverityNumber::Trace => "TRACE"@,
            SeverityNumber::Debug => "DEBUG"@,
            SeverityNumber::Info => "INFO"@,
            SeverityNumber::Warn => "WARN"@,
            SeverityNumber::Error => "ERROR"@,
        }
    }

    /// The name of the severity in a record.
    pub fn as_str(self) -> (r: &'static str)
        ensures
            r@ == self.text(),
    {
        match self {
            SeverityNumber::Trace => "TRACE",
            SeverityNumber::Debug => "DEBUG",
            SeverityNumber::Info => "INFO",
            SeverityNumber::Warn => "WARN",
            SeverityNumber::Error => "ERROR",
        }
    }
}

/// What a record says of the message it carries.
#[derive(Debug)]
pub struct LogMessage {
    /// The number of the error code, if the message has one.
    pub code: Option<u32>,
    /// The dependency package that the message is about.
    pub package_name: Option<String>,
}

impl Clone for LogMessage {
    fn clone(&self) -> (r: Self)
        ensures
            r == *self,
    {
        LogMessage { code: self.code, package_name: self.package_name.clone() }
    }
}

/// A log record.
#[derive(Debug)]
pub struct LogRecordInfo {
    pub severity_number: SeverityNumber,
    pub severity_text: String,
    pub body: String,
    /// Set where the record is a log message and not another event.
    pub log_message: Option<LogMessage>,
}

impl Clone for LogRecordInfo {
    fn clone(&self) -> (r: Self)
        ensures
            r == *self,
    {
        LogRecordInfo {
            severity_number: self.severity_number,
            severity_text: self.severity_text.clone(),
            body: self.body.clone(),
            log_message: self.log_message.clone(),
        }
    }
}

/// Whether `r` is `record`, with the body replaced where `stripped` holds another one.
pub open spec fn has_stripped_body(
    r: Cow<'_, LogRecordInfo>,
    record: LogRecordInfo,
    stripped: Option<Seq<char>>,
) -> bool {
    match stripped {
        None => r == Cow::<LogRecordInfo>::Borrowed(&record),
        Some(body) => r matches Cow::Owned(copy) && copy.body@ == body && copy == (LogRecordInfo {
            body: copy.body,
            ..record
        }),
    }
}

/// The record with `stripped` as its body; the record itself where nothing was stripped.
pub fn with_stripped_body<'a>(record: &'a LogRecordInfo, stripped: Option<String>) -> (r: Cow<
    'a,
    LogRecordInfo,
>)
    ensures
        has_stripped_body(
            r,
            *record,
            match stripped {
                Some(s) => Some(s@),
                None => None,
            },
        ),
{
    match stripped {
        Some(body) => Cow::Owned(
            LogRecordInfo {
                severity_number: record.severity_number,
                severity_text: record.severity_text.clone(),
                body,
                log_message: record.log_message.clone(),
            },
        ),
        None => Cow::Borrowed(record),
    }
}

/// Strips terminal escape sequences from the body of a log message. A record that is no log
/// message, or whose body holds none, is handed on without a copy.
pub fn dbt_log_preprocessor_hook<'a>(record: &'a LogRecordInfo) -> (r: Cow<'a, LogRecordInfo>)
    ensures
        has_stripped_body(
            r,
            *record,
            if record.log_message is None {
                None
            } else {
                ansi_stripped(record.body@)
            },
        ),
{
    if record.log_message.is_none() {
        return with_stripped_body(record, None);
    }
    with_stripped_body(record, strip_ansi(record.body.as_str()))
}

/// What a sink does to a record before it writes it.
#[derive(Clone, Copy, Debug, PartialEq, Eq, Structural)]
pub enum LogPreprocessor {
    /// It strips terminal escape sequences from log messages, with
    /// [`dbt_log_preprocessor_hook`].
    StripEscapes,
}

impl LogPreprocessor {
    /// The record as it is written.
    pub fn apply<'a>(self, record: &'a LogRecordInfo) -> (r: Cow<'a, LogRecordInfo>)
        ensures
            has_stripped_body(
                r,
                *record,
                if record.log_message is None {
                    None
                } else {
                    ansi_stripped(record.body@)
                },
            ),
    {
        match self {
            LogPreprocessor::StripEscapes => dbt_log_preprocessor_hook(record),
        }
    }
}

} // verus!

//! Laws of what becomes of commands, and of the records that they log.

use crate::command::exec_outcome;
use crate::command::resolved_log_path;
use crate::command::ExecError;
use crate::command::RunFailure;
use crate::error::ErrorCode;
use crate::error::FsError;
use crate::feature_handles::noop_tracing_config_provider;
use crate::feature_handles::NoOpTracingConfigProvider;
use crate::feature_handles::TracingConfigProvider;
use crate::level::LevelFilter;
use crate::outside::ansi_stripped;
use crate::path::FsPath;
use crate::record::dbt_log_preprocessor_hook;
use crate::record::with_stripped_body;
use crate::record::LogMessage;
use crate::record::LogPreprocessor;
use crate::record::LogRecordInfo;
use crate::record::SeverityNumber;
use crate::warn_error_options::apply_verdict;
use crate::warn_error_options::effective_decision;
use crate::warn_error_options::is_decided;
use crate::warn_error_options::package_of;
use crate::warn_error_options::warning_code;
use crate::warn_error_options::TelemetryWarnErrorOptionsMiddleware;
use crate::warn_error_options::WarnErrorDecision;
use crate::warn_error_options::WarnErrorOptions;
use crate::warn_error_options::WarnVerdict;
use std::borrow::Cow;
use vstd::prelude::*;

verus! {

/// A command that fails is reported with its own error, unless it asks for the exit status of a
/// success and every shutdown succeeded. Where the command succeeds, a shutdown that failed is
/// reported. Nothing else is reported as a failure.
pub proof fn law_failed_command_is_reported<E>(
    result: Result<(), RunFailure<E>>,
    shutdown_errors: &Vec<FsError>,
    r: Result<(), ExecError<E>>,
)
    requires
        call_ensures(exec_outcome::<E>, (result, shutdown_errors), r),
    ensures
        result matches Err(failure) ==> {
            &&& failure.exit_status is None ==> r == Err::<(), ExecError<E>>(
                ExecError::Run(failure.error),
            )
            &&& failure.exit_status matches Some(status) ==> {
                &&& status != 0 ==> r == Err::<(), ExecError<E>>(ExecError::Run(failure.error))
                &&& status == 0 && shutdown_errors@.len() > 0 ==> r == Err::<(), ExecError<E>>(
                    ExecError::Run(failure.error),
                )
                &&& status == 0 && shutdown_errors@.len() == 0 ==> r is Ok
            }
        },
        result is Ok && shutdown_errors@.len() == 0 ==> r is Ok,
        result is Ok && shutdown_errors@.len() > 0 ==> {
            &&& r matches Err(ExecError::Shutdown(e))
            &&& e.code == ErrorCode::Unexpected
            &&& e.message@ == "Failed to shutdown telemetry"@
        },
{
    if let Err(failure) = result {
        if !(failure.exit_status == Some(0i32) && shutdown_errors@.len() == 0) {
            assert(r is Err);
        }
    }
}

/// A command goes on with the log file that was opened, else with the log path it was given.
pub proof fn law_resolved_log_path<P: TracingConfigProvider>(
    log_path: Option<FsPath>,
    provider: &P,
    r: Option<FsPath>,
)
    requires
        call_ensures(resolved_log_path::<P>, (log_path, provider), r),
    ensures
        provider.log_file() matches Some(file) ==> (r matches Some(path) && path@ == file),
        provider.log_file() is None && log_path is None ==> r is None,
        provider.log_file() is None ==> (log_path matches Some(given) ==> (r matches Some(path)
            && path@ == given@)),
{
}

/// A provider that keeps nothing has no options in force and knows no log file.
pub proof fn law_noop_provider(p: NoOpTracingConfigProvider)
    requires
        call_ensures(noop_tracing_config_provider, (), p),
    ensures
        !p.keeps(),
        p.options().error.len() == 0,
        p.options().warn.len() == 0,
        p.options().silence.len() == 0,
        p.log_file() is None,
{
}

/// Only a warning that carries an error code is looked up: not a record of another severity, nor
/// one that is no log message or has no code, nor one whose code is no error code at all.
pub proof fn law_looked_up_codes(record: &LogRecordInfo, r: Option<u16>)
    requires
        call_ensures(warning_code, (record,), r),
    ensures
        record.severity_number != SeverityNumber::Warn ==> r is None,
        record.log_message is None ==> r is None,
        record.log_message matches Some(message) ==> {
            &&& message.code is None ==> r is None
            &&& message.code matches Some(code) ==> {
                &&& code >= 65536 ==> r is None
                &&& record.severity_number == SeverityNumber::Warn && code < 65536 ==> r == Some(
                    code as u16,
                )
            }
        },
{
}

/// A record that is not a warning is handed on as it is, whatever the options say.
pub proof fn law_only_warnings_are_decided_on<K, P: TracingConfigProvider, F>(
    middleware: &TelemetryWarnErrorOptionsMiddleware<K>,
    provider: &P,
    record: LogRecordInfo,
    look_up: F,
    r: Option<LogRecordInfo>,
)
    where F: Fn(&WarnErrorOptions, u16, Option<&String>) -> Option<WarnVerdict>,
    requires
        call_ensures(
            TelemetryWarnErrorOptionsMiddleware::<K>::on_log_record::<P, F>,
            (middleware, provider, record, look_up),
            r,
        ),
    ensures
        record.severity_number != SeverityNumber::Warn ==> r == Some(record),
        record.log_message is None ==> r == Some(record),
        record.log_message matches Some(message) ==> {
            &&& message.code is None ==> r == Some(record)
            &&& message.code matches Some(code) ==> (code >= 65536 ==> r == Some(record))
        },
{
}

/// Whatever the options say, a record that is handed on says what it said: it is the record
/// itself, or the same message as an error.
pub proof fn law_decided_records_say_the_same<K, P: TracingConfigProvider, F>(
    middleware: &TelemetryWarnErrorOptionsMiddleware<K>,
    provider: &P,
    record: LogRecordInfo,
    look_up: F,
    r: Option<LogRecordInfo>,
)
    where F: Fn(&WarnErrorOptions, u16, Option<&String>) -> Option<WarnVerdict>,
    requires
        call_ensures(
            TelemetryWarnErrorOptionsMiddleware::<K>::on_log_record::<P, F>,
            (middleware, provider, record, look_up),
            r,
        ),
    ensures
        r matches Some(e) ==> {
            &&& e.body == record.body
            &&& e.log_message == record.log_message
            &&& e != record ==> {
                &&& record.severity_number == SeverityNumber::Warn
                &&& e.severity_number == SeverityNumber::Error
                &&& e.severity_text@ == "ERROR"@
            }
        },
{
}

/// Whether `look_up` has one answer for the warning `record`, whose code is `code`, under the
/// options that are in force.
pub open spec fn is_answer<P: TracingConfigProvider, F>(
    provider: &P,
    record: LogRecordInfo,
    code: u16,
    look_up: F,
    answer: Option<WarnVerdict>,
) -> bool where F: Fn(&WarnErrorOptions, u16, Option<&String>) -> Option<WarnVerdict> {
    forall|o: &WarnErrorOptions, package: Option<&String>, given: Option<WarnVerdict>|
        {
            &&& o.error@ == provider.options().error
            &&& o.warn@ == provider.options().warn
            &&& o.silence@ == provider.options().silence
            &&& record.log_message matches Some(message)
            &&& match (package, message.package_name) {
                (Some(asked), Some(name)) => asked@ == name@,
                (None, None) => true,
                _ => false,
            }
            &&& #[trigger] look_up.ensures((o, code, package), given)
        } ==> given == answer
}

/// What the options in force decide for the code and the package of a warning is what becomes of
/// it: it is dropped, stays as it is, or becomes an error. Only the upgrade of a warning that
/// dbt-core does not have is withheld, and only by a middleware that was made so. A code that no
/// error has leaves the warning as it is.
pub proof fn law_options_in_force_decide<K, P: TracingConfigProvider, F>(
    handle: K,
    skip_fusion_only_upgrades: bool,
    middleware: &TelemetryWarnErrorOptionsMiddleware<K>,
    provider: &P,
    record: LogRecordInfo,
    message: LogMessage,
    code: u16,
    look_up: F,
    answer: Option<WarnVerdict>,
    r: Option<LogRecordInfo>,
)
    where F: Fn(&WarnErrorOptions, u16, Option<&String>) -> Option<WarnVerdict>,
    requires
        call_ensures(
            TelemetryWarnErrorOptionsMiddleware::<K>::new,
            (handle, skip_fusion_only_upgrades),
            *middleware,
        ),
        call_ensures(
            TelemetryWarnErrorOptionsMiddleware::<K>::on_log_record::<P, F>,
            (middleware, provider, record, look_up),
            r,
        ),
        record.severity_number == SeverityNumber::Warn,
        record.log_message == Some(message),
        message.code == Some(code as u32),
        is_answer(provider, record, code, look_up, answer),
    ensures
        answer is None ==> r == Some(record),
        answer matches Some(verdict) ==> match verdict.decision {
            WarnErrorDecision::Retain => r == Some(record),
            WarnErrorDecision::Silence => r is None,
            WarnErrorDecision::UpgradeToError => {
                &&& verdict.fusion_only && skip_fusion_only_upgrades ==> r == Some(record)
                &&& !(verdict.fusion_only && skip_fusion_only_upgrades) ==> {
                    &&& r matches Some(e)
                    &&& e.severity_number == SeverityNumber::Error
                    &&& e.severity_text@ == "ERROR"@
                    &&& e.body == record.body
                    &&& e.log_message == record.log_message
                }
            },
        },
{
    let (o, package, given) = choose|
        o: &WarnErrorOptions,
        package: Option<&String>,
        given: Option<WarnVerdict>,
    |
        {
            &&& o@ == provider.options()
            &&& (match package {
                Some(name) => Some(name@),
                None => None,
            }) == package_of(record)
            &&& #[trigger] look_up.ensures((o, code, package), given)
            &&& match given {
                Some(verdict) => is_decided(
                    r,
                    record,
                    effective_decision(verdict, middleware.skips()),
                ),
                None => r == Some(record),
            }
        };
    assert(o.error@ == provider.options().error);
    assert(given == answer);
}

/// What a verdict makes of a warning.
pub proof fn law_applied_verdicts(
    record: LogRecordInfo,
    verdict: WarnVerdict,
    skip_fusion_only_upgrades: bool,
    r: Option<LogRecordInfo>,
)
    requires
        call_ensures(apply_verdict, (record, verdict, skip_fusion_only_upgrades), r),
    ensures
        r is None <==> verdict.decision == WarnErrorDecision::Silence,
        verdict.decision == WarnErrorDecision::Retain ==> r == Some(record),
        verdict.decision == WarnErrorDecision::UpgradeToError && verdict.fusion_only
            && skip_fusion_only_upgrades ==> r == Some(record),
        verdict.decision == WarnErrorDecision::UpgradeToError && !(verdict.fusion_only
            && skip_fusion_only_upgrades) ==> {
            &&& r matches Some(e)
            &&& e.severity_number == SeverityNumber::Error
            &&& e.severity_text@ == "ERROR"@
            &&& e.body == record.body
            &&& e.log_message == record.log_message
        },
{
}

/// The names of the severities.
pub proof fn law_severity_names(severity: SeverityNumber, r: &'static str)
    requires
        call_ensures(SeverityNumber::as_str, (severity,), r),
    ensures
        severity == SeverityNumber::Trace ==> r@ == "TRACE"@,
        severity == SeverityNumber::Debug ==> r@ == "DEBUG"@,
        severity == SeverityNumber::Info ==> r@ == "INFO"@,
        severity == SeverityNumber::Warn ==> r@ == "WARN"@,
        severity == SeverityNumber::Error ==> r@ == "ERROR"@,
{
}

/// The record that is handed on, be it borrowed or a copy.
pub open spec fn record_of(r: Cow<'_, LogRecordInfo>) -> LogRecordInfo {
    match r {
        Cow::Borrowed(record) => *record,
        Cow::Owned(record) => record,
    }
}

/// Stripping touches the body of a log message and nothing else. A record that is no log message,
/// or in which there is nothing to strip, is handed on without a copy.
pub proof fn law_stripping_keeps_the_rest<'a>(record: &'a LogRecordInfo, r: Cow<'a, LogRecordInfo>)
    requires
        call_ensures(dbt_log_preprocessor_hook, (record,), r),
    ensures
        record_of(r).severity_number == record.severity_number,
        record_of(r).severity_text == record.severity_text,
        record_of(r).log_message == record.log_message,
        record.log_message is None ==> r is Borrowed && record_of(r) == *record,
        record.log_message is Some ==> match ansi_stripped(record.body@) {
            None => r is Borrowed && record_of(r) == *record,
            Some(body) => r is Owned && record_of(r).body@ == body,
        },
{
}

/// A sink that strips writes what [`law_stripping_keeps_the_rest`] says.
pub proof fn law_preprocessor_strips<'a>(
    preprocessor: LogPreprocessor,
    record: &'a LogRecordInfo,
    r: Cow<'a, LogRecordInfo>,
)
    requires
        call_ensures(LogPreprocessor::apply, (preprocessor, record), r),
    ensures
        record_of(r).severity_number == record.severity_number,
        record_of(r).severity_text == record.severity_text,
        record_of(r).log_message == record.log_message,
        record.log_message is None ==> r is Borrowed && record_of(r) == *record,
        record.log_message is Some ==> match ansi_stripped(record.body@) {
            None => r is Borrowed && record_of(r) == *record,
            Some(body) => r is Owned && record_of(r).body@ == body,
        },
{
}

/// A stripped body replaces the body; without one the record is handed on as it is.
pub proof fn law_stripped_body<'a>(
    record: &'a LogRecordInfo,
    stripped: Option<String>,
    r: Cow<'a, LogRecordInfo>,
)
    requires
        call_ensures(with_stripped_body, (record, stripped), r),
    ensures
        stripped is None ==> r is Borrowed && record_of(r) == *record,
        stripped matches Some(body) ==> {
            &&& r is Owned
            &&& record_of(r).body@ == body@
            &&& record_of(r).severity_number == record.severity_number
            &&& record_of(r).severity_text == record.severity_text
            &&& record_of(r).log_message == record.log_message
        },
{
}

/// Each level lets through more than the one before it, from nothing to everything.
pub proof fn law_levels_are_ordered()
    ensures
        LevelFilter::Off.rank() < LevelFilter::Error.rank() < LevelFilter::Warn.rank()
            < LevelFilter::Info.rank() < LevelFilter::Debug.rank() < LevelFilter::Trace.rank(),
{
}

/// The more verbose of two levels: one that lets everything through wins over all others, one that
/// lets nothing through over none, and the order of the two does not matter.
pub proof fn law_most_verbose(a: LevelFilter, b: LevelFilter, r: LevelFilter, s: LevelFilter)
    requires
        call_ensures(LevelFilter::most_verbose, (a, b), r),
        call_ensures(LevelFilter::most_verbose, (b, a), s),
    ensures
        r == s,
        r == a || r == b,
        a == b ==> r == a,
        a == LevelFilter::Trace ==> r == LevelFilter::Trace,
        a == LevelFilter::Off ==> r == b,
        a == LevelFilter::Debug && b != LevelFilter::Trace ==> r == LevelFilter::Debug,
        a == LevelFilter::Info && b != LevelFilter::Trace && b != LevelFilter::Debug ==> r
            == LevelFilter::Info,
        r == LevelFilter::Error ==> (a == LevelFilter::Error || a == LevelFilter::Off) && (b
            == LevelFilter::Error || b == LevelFilter::Off),
{
}

} // verus!

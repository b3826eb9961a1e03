//! Warnings that are silenced or turned into errors.

use crate::feature_handles::TracingConfigProvider;
use crate::record::LogMessage;
use crate::record::LogRecordInfo;
use crate::record::SeverityNumber;
use vstd::prelude::*;

verus! {

/// One entry of a list of warnings.
#[derive(Clone, Copy, Debug, PartialEq, Eq)]
pub enum WarnErrorOptionValue {
    /// Every warning.
    All,
    /// The warning with this error code.
    FusionCode(u16),
    /// The warning that dbt-core knows by this name.
    SupportedLegacy(&'static str),
}

/// Which warnings are errors, which stay warnings and which are silenced.
#[derive(Debug)]
pub struct WarnErrorOptions {
    pub error: Vec<WarnErrorOptionValue>,
    pub warn: Vec<WarnErrorOptionValue>,
    pub silence: Vec<WarnErrorOptionValue>,
}

/// The lists of some [`WarnErrorOptions`].
pub struct OptionLists {
    pub error: Seq<WarnErrorOptionValue>,
    pub warn: Seq<WarnErrorOptionValue>,
    pub silence: Seq<WarnErrorOptionValue>,
}

/// Options that say nothing of any warning.
pub open spec fn no_options() -> OptionLists {
    OptionLists { error: Seq::empty(), warn: Seq::empty(), silence: Seq::empty() }
}

impl View for WarnErrorOptions {
    type V = OptionLists;

    open spec fn view(&self) -> OptionLists {
        OptionLists { error: self.error@, warn: self.warn@, silence: self.silence@ }
    }
}

impl Default for WarnErrorOptions {
    fn default() -> (r: Self)
        ensures
            r@ == no_options(),
    {
        WarnErrorOptions { error: Vec::new(), warn: Vec::new(), silence: Vec::new() }
    }
}

impl Clone for WarnErrorOptions {
    fn clone(&self) -> (r: Self)
        ensures
            r@ == self@,
    {
        let r = WarnErrorOptions {
            error: self.error.clone(),
            warn: self.warn.clone(),
            silence: self.silence.clone(),
        };
        assert(r.error@ =~= self.error@);
        assert(r.warn@ =~= self.warn@);
        assert(r.silence@ =~= self.silence@);
        r
    }
}

/// What becomes of a warning.
#[derive(Clone, Copy, Debug, PartialEq, Eq, Structural)]
pub enum WarnErrorDecision {
    /// It stays a warning.
    Retain,
    /// It is dropped.
    Silence,
    /// It becomes an error.
    UpgradeToError,
}

/// What the options in force say of a warning whose code is known.
#[derive(Clone, Copy, Debug, PartialEq, Eq, Structural)]
pub struct WarnVerdict {
    pub decision: WarnErrorDecision,
    /// Whether the warning has no counterpart in dbt-core.
    pub fusion_only: bool,
}

/// The decision that takes effect: an upgrade of a warning that dbt-core does not have is
/// withheld where `skip_fusion_only_upgrades` is set. Silencing is not.
pub open spec fn effective_decision(
    verdict: WarnVerdict,
    skip_fusion_only_upgrades: bool,
) -> WarnErrorDecision {
    if skip_fusion_only_upgrades && verdict.fusion_only && verdict.decision
        == WarnErrorDecision::UpgradeToError {
        WarnErrorDecision::Retain
    } else {
        verdict.decision
    }
}

/// Only upgrades are ever withheld, and of those only the ones of warnings that dbt-core does not
/// have, and only where that is asked for. What is silenced stays silenced.
pub proof fn law_only_fusion_only_upgrades_are_withheld(
    verdict: WarnVerdict,
    skip_fusion_only_upgrades: bool,
)
    ensures
        effective_decision(verdict, skip_fusion_only_upgrades) != verdict.decision <==> (
        skip_fusion_only_upgrades && verdict.fusion_only && verdict.decision
            == WarnErrorDecision::UpgradeToError),
        effective_decision(verdict, skip_fusion_only_upgrades) == WarnErrorDecision::Silence
            <==> verdict.decision == WarnErrorDecision::Silence,
{
}

/// Whether `r` is what a decision makes of `record`.
pub open spec fn is_decided(
    r: Option<LogRecordInfo>,
    record: LogRecordInfo,
    decision: WarnErrorDecision,
) -> bool {
    match decision {
        WarnErrorDecision::Silence => r is None,
        WarnErrorDecision::Retain => r == Some(record),
        WarnErrorDecision::UpgradeToError => r matches Some(e) && {
            &&& e.severity_number == SeverityNumber::Error
            &&& e.severity_text@ == SeverityNumber::Error.text()
            &&& e.body == record.body
            &&& e.log_message == record.log_message
        },
    }
}

/// A warning is dropped exactly where it is silenced and becomes an error exactly where it is
/// upgraded; what it says never changes.
pub proof fn law_decided_records_keep_their_message(
    r: Option<LogRecordInfo>,
    record: LogRecordInfo,
    decision: WarnErrorDecision,
)
    requires
        record.severity_number == SeverityNumber::Warn,
        is_decided(r, record, decision),
    ensures
        r is None <==> decision == WarnErrorDecision::Silence,
        r matches Some(e) ==> {
            &&& e.severity_number == SeverityNumber::Error <==> decision
                == WarnErrorDecision::UpgradeToError
            &&& e.severity_number == SeverityNumber::Warn <==> decision
                == WarnErrorDecision::Retain
            &&& e.body == record.body
            &&& e.log_message == record.log_message
        },
{
}

/// The error code for which the options are asked: that of a log message which is a warning
/// and whose code fits the numbers of error codes.
pub open spec fn code_to_look_up(record: LogRecordInfo) -> Option<u16> {
    match record.log_message {
        Some(LogMessage { code: Some(code), .. }) if record.severity_number == SeverityNumber::Warn
            && code <= u16::MAX => Some(code as u16),
        _ => None,
    }
}

/// The package name of a log message.
pub open spec fn package_of(record: LogRecordInfo) -> Option<Seq<char>> {
    match record.log_message {
        Some(LogMessage { package_name: Some(name), .. }) => Some(name@),
        _ => None,
    }
}

/// The error code for which the options are asked, if they are asked at all.
pub fn warning_code(record: &LogRecordInfo) -> (r: Option<u16>)
    ensures
        r == code_to_look_up(*record),
{
    if record.severity_number != SeverityNumber::Warn {
        return None;
    }
    match &record.log_message {
        Some(message) => match message.code {
            Some(code) => if code <= 0xffff {
                Some(code as u16)
            } else {
                None
            },
            None => None,
        },
        None => None,
    }
}

/// What becomes of a warning: it is dropped, handed on, or handed on as an error.
pub fn apply_verdict(
    record: LogRecordInfo,
    verdict: WarnVerdict,
    skip_fusion_only_upgrades: bool,
) -> (r: Option<LogRecordInfo>)
    ensures
        is_decided(r, record, effective_decision(verdict, skip_fusion_only_upgrades)),
{
    let mut decision: WarnErrorDecision = verdict.decision;
    if skip_fusion_only_upgrades && decision == WarnErrorDecision::UpgradeToError
        && verdict.fusion_only {
        decision = WarnErrorDecision::Retain;
    }
    match decision {
        WarnErrorDecision::Silence => None,
        WarnErrorDecision::Retain => Some(record),
        WarnErrorDecision::UpgradeToError => {
            let mut record = record;
            record.severity_number = SeverityNumber::Error;
            record.severity_text = SeverityNumber::Error.as_str().to_owned();
            Some(record)
        },
    }
}

/// Silences warnings and turns them into errors, as the options of a provider say. `K` is the
/// type of handles to a provider; what the provider says can change while the middleware lives.
pub struct TelemetryWarnErrorOptionsMiddleware<K> {
    config_provider: K,
    /// Withholds upgrades of warnings with no dbt-core counterpart.
    skip_fusion_only_upgrades: bool,
}

impl<K> TelemetryWarnErrorOptionsMiddleware<K> {
    /// The handle to the provider whose options are asked.
    pub closed spec fn handle(&self) -> K {
        self.config_provider
    }

    /// Whether upgrades of warnings with no dbt-core counterpart are withheld.
    pub closed spec fn skips(&self) -> bool {
        self.skip_fusion_only_upgrades
    }

    /// A middleware that asks the provider behind `config_provider`.
    pub fn new(config_provider: K, skip_fusion_only_upgrades: bool) -> (r: Self)
        ensures
            r.handle() == config_provider,
            r.skips() == skip_fusion_only_upgrades,
    {
        TelemetryWarnErrorOptionsMiddleware { config_provider, skip_fusion_only_upgrades }
    }

    /// The handle to the provider whose options are asked.
    pub fn config_provider(&self) -> (r: &K)
        ensures
            *r == self.handle(),
    {
        &self.config_provider
    }

    /// Lets a record through, drops it or turns it into an error, by the options that are in
    /// force now. `provider` is the provider behind the handle, as it is now.
    ///
    /// Only a log message that is a warning with an error code is looked up: `look_up` says what
    /// the options decide for the code and the package of the message, `None` where no error has
    /// that code.
    pub fn on_log_record<P: TracingConfigProvider, F>(
        &self,
        provider: &P,
        record: LogRecordInfo,
        look_up: F,
    ) -> (r: Option<LogRecordInfo>)
        where F: Fn(&WarnErrorOptions, u16, Option<&String>) -> Option<WarnVerdict>,
        requires
            forall|o: &WarnErrorOptions, code: u16, package: Option<&String>|
                look_up.requires((o, code, package)),
        ensures
            code_to_look_up(record) is None ==> r == Some(record),
            code_to_look_up(record) matches Some(code) ==> exists|
                o: &WarnErrorOptions,
                package: Option<&String>,
                answer: Option<WarnVerdict>,
            |
                {
                    &&& o@ == provider.options()
                    &&& (match package {
                        Some(name) => Some(name@),
                        None => None,
                    }) == package_of(record)
                    &&& #[trigger] look_up.ensures((o, code, package), answer)
                    &&& match answer {
                        Some(verdict) => is_decided(
                            r,
                            record,
                            effective_decision(verdict, self.skips()),
                        ),
                        None => r == Some(record),
                    }
                },
    {
        let code: u16 = match warning_code(&record) {
            Some(code) => code,
            None => {
                return Some(record);
            },
        };
        let package: Option<&String> = match &record.log_message {
            Some(message) => message.package_name.as_ref(),
            None => None,
        };
        let ask = |o: &WarnErrorOptions| -> (answer: Option<WarnVerdict>)
            ensures
                look_up.ensures((o, code, package), answer),
            { look_up(o, code, package) };
        let answer: Option<WarnVerdict> = provider.with_warn_error_options(ask);
        match answer {
            Some(verdict) => apply_verdict(record, verdict, self.skip_fusion_only_upgrades),
            None => Some(record),
        }
    }
}

} // verus!

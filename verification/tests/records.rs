use dbt_trace::feature_handles::noop_tracing_config_provider;
use dbt_trace::feature_handles::FsTracingConfigProvider;
use dbt_trace::feature_handles::TracingConfigProvider;
use dbt_trace::path::FsPath;
use dbt_trace::record::dbt_log_preprocessor_hook;
use dbt_trace::record::with_stripped_body;
use dbt_trace::record::LogMessage;
use dbt_trace::record::LogPreprocessor;
use dbt_trace::record::LogRecordInfo;
use dbt_trace::record::SeverityNumber;
use dbt_trace::warn_error_options::apply_verdict;
use dbt_trace::warn_error_options::warning_code;
use dbt_trace::warn_error_options::TelemetryWarnErrorOptionsMiddleware;
use dbt_trace::warn_error_options::WarnErrorDecision;
use dbt_trace::warn_error_options::WarnErrorOptionValue;
use dbt_trace::warn_error_options::WarnErrorOptions;
use dbt_trace::warn_error_options::WarnVerdict;
use std::borrow::Cow;

const NO_NODES_SELECTED: u16 = 1001;
const UNUSED_CONFIG_KEY: u16 = 1002;
const DEPRECATED_MODEL: u16 = 1003;

/// Decides as the options of the command line do, for the codes above: silencing goes before
/// upgrading, and `NoNodesSelected` is what dbt-core calls `NothingToDo`.
fn look_up(options: &WarnErrorOptions, code: u16, _package: Option<&String>) -> Option<WarnVerdict> {
    let known = [NO_NODES_SELECTED, UNUSED_CONFIG_KEY, DEPRECATED_MODEL];
    if !known.contains(&code) {
        return None;
    }
    let holds = |list: &Vec<WarnErrorOptionValue>| {
        list.iter().any(|value| match value {
            WarnErrorOptionValue::All => true,
            WarnErrorOptionValue::FusionCode(c) => *c == code,
            WarnErrorOptionValue::SupportedLegacy(name) => {
                *name == "NothingToDo" && code == NO_NODES_SELECTED
            }
        })
    };
    let decision = if holds(&options.silence) {
        WarnErrorDecision::Silence
    } else if holds(&options.error) && !holds(&options.warn) {
        WarnErrorDecision::UpgradeToError
    } else {
        WarnErrorDecision::Retain
    };
    Some(WarnVerdict { decision, fusion_only: code == UNUSED_CONFIG_KEY })
}

fn warn_log_message(code: u16, body: &str) -> LogRecordInfo {
    LogRecordInfo {
        severity_number: SeverityNumber::Warn,
        severity_text: SeverityNumber::Warn.as_str().to_string(),
        body: body.to_string(),
        log_message: Some(LogMessage { code: Some(code as u32), package_name: None }),
    }
}

#[test]
fn warn_error_options_middleware_updates_runtime_decisions() {
    let mut config_provider = FsTracingConfigProvider::default();
    let warn_error_options_middleware =
        TelemetryWarnErrorOptionsMiddleware::new("config_provider", false);
    let mut captured_log_records: Vec<LogRecordInfo> = Vec::new();

    captured_log_records.extend(warn_error_options_middleware.on_log_record(
        &config_provider,
        warn_log_message(NO_NODES_SELECTED, "warn"),
        look_up,
    ));

    config_provider.set_warn_error_options(WarnErrorOptions {
        error: vec![WarnErrorOptionValue::FusionCode(NO_NODES_SELECTED)],
        ..Default::default()
    });
    captured_log_records.extend(warn_error_options_middleware.on_log_record(
        &config_provider,
        warn_log_message(NO_NODES_SELECTED, "error"),
        look_up,
    ));

    config_provider.set_warn_error_options(WarnErrorOptions {
        silence: vec![WarnErrorOptionValue::SupportedLegacy("NothingToDo")],
        ..Default::default()
    });
    captured_log_records.extend(warn_error_options_middleware.on_log_record(
        &config_provider,
        warn_log_message(NO_NODES_SELECTED, "silence"),
        look_up,
    ));

    let count = |severity: SeverityNumber| {
        captured_log_records.iter().filter(|r| r.severity_number == severity).count()
    };
    let warning_count = count(SeverityNumber::Warn);
    let error_count = count(SeverityNumber::Error);

    assert_eq!(captured_log_records.len(), 2);
    assert_eq!(captured_log_records[0].severity_number, SeverityNumber::Warn);
    assert_eq!(captured_log_records[1].severity_number, SeverityNumber::Error);
    assert_eq!(warning_count, 1);
    assert_eq!(error_count, 1);
}

#[test]
fn skip_fusion_only_upgrades_withholds_upgrade_only_for_fusion_only_codes() {
    let mut config_provider = FsTracingConfigProvider::from_warn_error_options(WarnErrorOptions {
        error: vec![WarnErrorOptionValue::All],
        ..Default::default()
    });
    let warn_error_options_middleware =
        TelemetryWarnErrorOptionsMiddleware::new("config_provider", true);
    let mut captured_log_records: Vec<LogRecordInfo> = Vec::new();

    captured_log_records.extend(warn_error_options_middleware.on_log_record(
        &config_provider,
        warn_log_message(UNUSED_CONFIG_KEY, "fusion-only"),
        look_up,
    ));
    captured_log_records.extend(warn_error_options_middleware.on_log_record(
        &config_provider,
        warn_log_message(DEPRECATED_MODEL, "has dbt-core counterpart"),
        look_up,
    ));

    // Silencing must still take effect for a fusion-only code.
    config_provider.set_warn_error_options(WarnErrorOptions {
        error: vec![WarnErrorOptionValue::All],
        silence: vec![WarnErrorOptionValue::FusionCode(UNUSED_CONFIG_KEY)],
        ..Default::default()
    });
    captured_log_records.extend(warn_error_options_middleware.on_log_record(
        &config_provider,
        warn_log_message(UNUSED_CONFIG_KEY, "silenced"),
        look_up,
    ));

    assert_eq!(captured_log_records.len(), 2);
    assert_eq!(
        captured_log_records[0].severity_number,
        SeverityNumber::Warn,
        "fusion-only warning must not be upgraded while replaying"
    );
    assert_eq!(
        captured_log_records[1].severity_number,
        SeverityNumber::Error,
        "warning with a dbt-core counterpart must still be upgraded"
    );
}

#[test]
fn a_middleware_keeps_its_handle() {
    let middleware = TelemetryWarnErrorOptionsMiddleware::new(17u8, false);
    assert_eq!(*middleware.config_provider(), 17);
}

#[test]
fn an_upgrade_changes_the_severity_alone() {
    let record = LogRecordInfo {
        log_message: Some(LogMessage {
            code: Some(1003),
            package_name: Some("pkg".to_string()),
        }),
        ..warn_log_message(DEPRECATED_MODEL, "old model")
    };
    let verdict = WarnVerdict { decision: WarnErrorDecision::UpgradeToError, fusion_only: true };
    let upgraded = apply_verdict(record.clone(), verdict, false).unwrap();
    assert_eq!(upgraded.severity_number, SeverityNumber::Error);
    assert_eq!(upgraded.severity_text, "ERROR");
    assert_eq!(upgraded.body, "old model");
    let message = upgraded.log_message.unwrap();
    assert_eq!(message.code, Some(1003));
    assert_eq!(message.package_name.as_deref(), Some("pkg"));
    let kept = apply_verdict(record, verdict, true).unwrap();
    assert_eq!(kept.severity_number, SeverityNumber::Warn);
}

#[test]
fn only_warnings_with_a_code_are_looked_up() {
    assert_eq!(warning_code(&warn_log_message(7, "x")), Some(7));
    let info =
        LogRecordInfo { severity_number: SeverityNumber::Info, ..warn_log_message(7, "x") };
    assert_eq!(warning_code(&info), None);
    let event = LogRecordInfo { log_message: None, ..warn_log_message(7, "x") };
    assert_eq!(warning_code(&event), None);
    let no_code = LogRecordInfo {
        log_message: Some(LogMessage { code: None, package_name: None }),
        ..warn_log_message(7, "x")
    };
    assert_eq!(warning_code(&no_code), None);
    let large = LogRecordInfo {
        log_message: Some(LogMessage { code: Some(65536), package_name: None }),
        ..warn_log_message(7, "x")
    };
    assert_eq!(warning_code(&large), None);
}

#[test]
fn unknown_codes_are_let_through() {
    let provider = FsTracingConfigProvider::from_warn_error_options(WarnErrorOptions {
        silence: vec![WarnErrorOptionValue::All],
        ..Default::default()
    });
    let middleware = TelemetryWarnErrorOptionsMiddleware::new((), false);
    assert!(middleware.on_log_record(&provider, warn_log_message(9, "x"), look_up).is_some());
    assert!(middleware.on_log_record(&provider, warn_log_message(1001, "x"), look_up).is_none());
}

#[test]
fn the_package_of_a_message_is_handed_to_the_look_up() {
    let provider = FsTracingConfigProvider::default();
    let middleware = TelemetryWarnErrorOptionsMiddleware::new((), false);
    let record = LogRecordInfo {
        log_message: Some(LogMessage { code: Some(5), package_name: Some("dep".to_string()) }),
        ..warn_log_message(5, "x")
    };
    let out = middleware.on_log_record(&provider, record, |_, code, package| {
        assert_eq!(code, 5);
        assert_eq!(package.map(|p| p.as_str()), Some("dep"));
        Some(WarnVerdict { decision: WarnErrorDecision::Silence, fusion_only: false })
    });
    assert!(out.is_none());
}

#[test]
fn escape_sequences_are_stripped_from_log_messages() {
    let record = warn_log_message(1, "\u{1b}[31mred\u{1b}[0m text");
    match dbt_log_preprocessor_hook(&record) {
        Cow::Owned(copy) => {
            assert_eq!(copy.body, "red text");
            assert_eq!(copy.severity_text, "WARN");
        }
        Cow::Borrowed(_) => panic!("a copy was expected"),
    }
}

#[test]
fn a_preprocessor_is_applied() {
    let record = warn_log_message(1, "\u{1b}[1mbold\u{1b}[0m");
    assert_eq!(LogPreprocessor::StripEscapes.apply(&record).body, "bold");
}

#[test]
fn records_without_escape_sequences_are_not_copied() {
    let record = warn_log_message(1, "plain");
    assert!(matches!(dbt_log_preprocessor_hook(&record), Cow::Borrowed(_)));
    let event = LogRecordInfo { log_message: None, ..warn_log_message(1, "\u{1b}[31mred") };
    assert!(matches!(dbt_log_preprocessor_hook(&event), Cow::Borrowed(_)));
    assert!(matches!(with_stripped_body(&event, Some("red".to_string())), Cow::Owned(_)));
}

#[test]
fn a_provider_gives_back_what_it_was_given() {
    let mut provider = FsTracingConfigProvider::default();
    assert!(provider.get_file_log_path().is_none());
    provider.set_file_log_path(Some(FsPath::from_text("logs/dbt.log")));
    let path = provider.get_file_log_path().unwrap();
    assert_eq!(path.as_bytes(), b"logs/dbt.log");
    provider.set_warn_error_options(WarnErrorOptions {
        warn: vec![WarnErrorOptionValue::All],
        ..Default::default()
    });
    assert_eq!(provider.with_warn_error_options(|o: &WarnErrorOptions| o.warn.len()), 1);
    assert!(provider.get_file_log_path().is_some());
}

#[test]
fn the_noop_provider_keeps_nothing() {
    let mut provider = noop_tracing_config_provider();
    provider.set_file_log_path(Some(FsPath::from_text("x")));
    assert!(provider.get_file_log_path().is_none());
    provider.set_warn_error_options(WarnErrorOptions {
        error: vec![WarnErrorOptionValue::All],
        ..Default::default()
    });
    assert_eq!(provider.with_warn_error_options(|o: &WarnErrorOptions| o.error.len()), 0);
}

use dbt_trace::command::command_trace_config;
use dbt_trace::command::conformance_env_file;
use dbt_trace::command::exec_outcome;
use dbt_trace::command::resolved_log_path;
use dbt_trace::command::ExecError;
use dbt_trace::command::RunFailure;
use dbt_trace::command::DBT_CORE;
use dbt_trace::command::DBT_PACKAGE;
use dbt_trace::config::calculate_trace_dirs;
use dbt_trace::config::FsCommand;
use dbt_trace::config::FsTraceConfig;
use dbt_trace::config::FsTraceConfigBuilder;
use dbt_trace::config::IoArgs;
use dbt_trace::config::LogFormat;
use dbt_trace::error::ErrorCode;
use dbt_trace::error::FsError;
use dbt_trace::feature_handles::noop_tracing_config_provider;
use dbt_trace::feature_handles::FsTracingConfigProvider;
use dbt_trace::feature_handles::TracingConfigProvider;
use dbt_trace::level::LevelFilter;
use dbt_trace::path::FsPath;
use dbt_trace::platform::Platform;
use dbt_trace::warn_error_options::WarnErrorOptionValue;
use dbt_trace::warn_error_options::WarnErrorOptions;
use std::collections::HashSet;

fn text(p: &FsPath) -> String {
    String::from_utf8(p.as_bytes().to_vec()).unwrap()
}

fn opt_text(p: &Option<FsPath>) -> Option<String> {
    p.as_ref().map(text)
}

fn path(s: &str) -> FsPath {
    FsPath::from_text(s)
}

fn io_args() -> IoArgs {
    IoArgs {
        log_path: Some(path("my_logs")),
        max_log_verbosity: LevelFilter::Warn,
        max_file_log_verbosity: LevelFilter::Trace,
        otel_file_name: Some("otel.jsonl".to_string()),
        otel_parquet_file_name: Some("otel.parquet".to_string()),
        invocation_id: 42,
        otel_parent_span_id: Some(7),
        export_to_otlp: true,
        log_format: LogFormat::Json,
        log_format_file: Some(LogFormat::Text),
        show: HashSet::from(["progress".to_string()]),
        show_all_deprecations: true,
        log_file_max_bytes: 99,
    }
}

#[test]
fn the_defaults_of_a_builder() {
    let b = FsTraceConfigBuilder::new("dbt", "dbt-core");
    assert_eq!(b.package, "dbt");
    assert_eq!(b.brand_name, "dbt-core");
    assert_eq!(b.command, FsCommand::Unset);
    assert_eq!(b.max_log_verbosity, LevelFilter::Info);
    assert_eq!(b.max_file_log_verbosity, LevelFilter::Debug);
    assert_eq!(b.log_file_max_bytes, 10 * 1024 * 1024);
    assert_eq!(b.log_format, LogFormat::Default);
    assert!(b.show_options.is_empty());
    assert!(!b.enable_query_log);
}

#[test]
fn invocations_are_named_by_fresh_identifiers() {
    let a = FsTraceConfigBuilder::new("dbt", "dbt-core").invocation_id;
    let b = FsTraceConfigBuilder::new("dbt", "dbt-core").invocation_id;
    assert_ne!(a, b);
    for id in [a, b] {
        let id = uuid::Uuid::from_u128(id);
        assert_eq!(id.get_version_num(), 7);
        assert_eq!(id.get_variant(), uuid::Variant::RFC4122);
    }
}

#[test]
fn default_paths_lie_in_the_detected_project() {
    let c = FsTraceConfigBuilder::new("dbt", "dbt-core").build(Some(path("/proj")), Platform::Posix);
    assert_eq!(text(&c.log_path), "/proj/logs");
    assert!(c.otel_file_path.is_none());
    assert!(c.otel_parquet_file_path.is_none());
}

#[test]
fn default_paths_lie_in_the_working_directory_without_a_project() {
    let c = FsTraceConfigBuilder::new("dbt", "dbt-core")
        .with_otel_file_name(Some("o.jsonl"))
        .with_otel_parquet_file_name(Some("o.parquet"))
        .build(None, Platform::Posix);
    assert_eq!(text(&c.log_path), "logs");
    assert_eq!(opt_text(&c.otel_file_path), Some("logs/o.jsonl".to_string()));
    assert_eq!(
        opt_text(&c.otel_parquet_file_path),
        Some("target/private/metadata/o.parquet".to_string())
    );
}

#[test]
fn given_directories_win() {
    let c = FsTraceConfigBuilder::new("dbt", "dbt-core")
        .with_project_dir(Some(&path("/given")))
        .with_target_path(Some(&path("out")))
        .with_log_path(Some(&path("l")))
        .with_otel_file_name(Some("o.jsonl"))
        .with_otel_parquet_file_name(Some("o.parquet"))
        .build(Some(path("/proj")), Platform::Posix);
    assert_eq!(text(&c.log_path), "/given/l");
    assert_eq!(opt_text(&c.otel_file_path), Some("/given/l/o.jsonl".to_string()));
    assert_eq!(
        opt_text(&c.otel_parquet_file_path),
        Some("out/private/metadata/o.parquet".to_string())
    );
}

#[test]
fn an_absolute_log_path_is_taken_as_it_is() {
    let c = FsTraceConfigBuilder::new("dbt", "dbt-core")
        .with_project_dir(Some(&path("/given")))
        .with_log_path(Some(&path("/var/log/dbt")))
        .build(None, Platform::Posix);
    assert_eq!(text(&c.log_path), "/var/log/dbt");
}

#[test]
fn trace_directories() {
    let (in_dir, out_dir) = calculate_trace_dirs(None, None, None, Platform::Posix);
    assert_eq!((text(&in_dir), text(&out_dir)), (String::new(), "target".to_string()));
    let (in_dir, out_dir) = calculate_trace_dirs(Some(&path("p")), None, Some(path("d")), Platform::Posix);
    assert_eq!((text(&in_dir), text(&out_dir)), ("p".to_string(), "p/target".to_string()));
}

#[test]
fn a_builder_takes_what_the_arguments_say() {
    let b = FsTraceConfigBuilder::from_io_args("dbt", "dbt-core", &io_args());
    assert_eq!(opt_text(&b.log_path), Some("my_logs".to_string()));
    assert_eq!(b.max_log_verbosity, LevelFilter::Warn);
    assert_eq!(b.max_file_log_verbosity, LevelFilter::Trace);
    assert_eq!(b.otel_file_name.as_deref(), Some("otel.jsonl"));
    assert_eq!(b.otel_parquet_file_name.as_deref(), Some("otel.parquet"));
    assert_eq!(b.invocation_id, 42);
    assert_eq!(b.parent_span_id, Some(7));
    assert!(b.export_to_otlp);
    assert_eq!(b.log_format, LogFormat::Json);
    assert_eq!(b.file_log_format, Some(LogFormat::Text));
    assert!(b.show_options.contains("progress"));
    assert!(b.show_all_deprecations);
    assert_eq!(b.log_file_max_bytes, 99);
    assert!(b.project_dir.is_none());
    assert_eq!(b.command, FsCommand::Unset);
}

#[test]
fn setters_set_one_thing_each() {
    let b = FsTraceConfigBuilder::with_defaults("dbt", "dbt-core", 1)
        .with_brand_name("dbt-fusion")
        .with_command(FsCommand::Named("run"))
        .with_max_log_verbosity(LevelFilter::Error)
        .with_max_file_log_verbosity(LevelFilter::Off)
        .with_log_file_name(Some("my.log"))
        .with_log_file_max_bytes(0)
        .with_invocation_id(5)
        .with_parent_span_id(Some(6))
        .with_export_to_otlp(true)
        .with_log_format(LogFormat::Otel)
        .with_file_log_format(Some(LogFormat::Json))
        .with_query_log_enabled(true)
        .with_show_options(HashSet::from(["all".to_string()]))
        .with_show_all_deprecations(true)
        .with_skip_fusion_only_upgrades(true);
    assert_eq!(b.package, "dbt");
    let c: FsTraceConfig = b.build(None, Platform::Posix);
    assert_eq!(c.brand_name, "dbt-fusion");
    assert_eq!(c.command, FsCommand::Named("run"));
    assert_eq!(c.max_log_verbosity, LevelFilter::Error);
    assert_eq!(c.max_file_log_verbosity, LevelFilter::Off);
    assert_eq!(c.log_file_name.as_deref(), Some("my.log"));
    assert_eq!(c.log_file_max_bytes, 0);
    assert_eq!(c.invocation_id, 5);
    assert_eq!(c.parent_span_id, Some(6));
    assert!(c.export_to_otlp && c.enable_query_log && c.show_all_deprecations);
    assert!(c.skip_fusion_only_upgrades);
    assert_eq!(c.log_format, LogFormat::Otel);
    assert_eq!(c.file_log_format, Some(LogFormat::Json));
    assert!(c.show_options.contains("all"));
}

#[test]
fn a_provider_starts_from_the_options_of_the_configuration() {
    let c = FsTraceConfigBuilder::new("dbt", "dbt-core")
        .with_warn_error_options(WarnErrorOptions {
            error: vec![WarnErrorOptionValue::FusionCode(3)],
            ..Default::default()
        })
        .build(None, Platform::Posix);
    let provider = c.create_config_provider();
    let first = provider.with_warn_error_options(|o: &WarnErrorOptions| o.error[0]);
    assert_eq!(first, WarnErrorOptionValue::FusionCode(3));
    assert!(provider.get_file_log_path().is_none());
}

#[test]
fn a_command_always_logs_its_queries() {
    let c = command_trace_config(
        DBT_PACKAGE,
        DBT_CORE,
        &io_args(),
        FsCommand::Named("compile"),
        Some(&path("/p")),
        None,
        WarnErrorOptions::default(),
        true,
        None,
        Platform::Posix,
    );
    assert!(c.enable_query_log);
    assert_eq!(c.package, "dbt");
    assert_eq!(c.brand_name, "dbt-core");
    assert_eq!(c.command, FsCommand::Named("compile"));
    assert_eq!(text(&c.log_path), "/p/my_logs");
    assert_eq!(opt_text(&c.otel_file_path), Some("/p/my_logs/otel.jsonl".to_string()));
    assert_eq!(
        opt_text(&c.otel_parquet_file_path),
        Some("/p/target/private/metadata/otel.parquet".to_string())
    );
    assert!(c.skip_fusion_only_upgrades);
}

#[test]
fn the_opened_log_file_is_the_log_path() {
    let mut provider = FsTracingConfigProvider::default();
    let given = resolved_log_path(Some(path("given")), &provider);
    assert_eq!(opt_text(&given), Some("given".to_string()));
    provider.set_file_log_path(Some(path("logs/dbt.log")));
    let opened = resolved_log_path(Some(path("given")), &provider);
    assert_eq!(opt_text(&opened), Some("logs/dbt.log".to_string()));
    let none = resolved_log_path(None, &noop_tracing_config_provider());
    assert!(none.is_none());
}

fn lost() -> Vec<FsError> {
    vec![FsError::with_message(ErrorCode::IoError, "lost")]
}

#[test]
fn a_success_needs_a_clean_shutdown() {
    assert!(exec_outcome::<&str>(Ok(()), &vec![]).is_ok());
    match exec_outcome::<&str>(Ok(()), &lost()) {
        Err(ExecError::Shutdown(e)) => {
            assert_eq!(e.code, ErrorCode::Unexpected);
            assert_eq!(e.message, "Failed to shutdown telemetry");
        }
        other => panic!("{other:?}"),
    }
}

#[test]
fn an_early_exit_can_be_a_success() {
    let early = || Err(RunFailure { exit_status: Some(0), error: "early" });
    assert!(exec_outcome(early(), &vec![]).is_ok());
    assert!(matches!(exec_outcome(early(), &lost()), Err(ExecError::Run("early"))));
}

#[test]
fn the_error_of_a_command_goes_first() {
    for exit_status in [None, Some(1)] {
        let failed = Err(RunFailure { exit_status, error: "failed" });
        assert!(matches!(exec_outcome(failed, &lost()), Err(ExecError::Run("failed"))));
    }
}

#[test]
fn the_conformance_file_lies_in_the_project() {
    assert_eq!(text(&conformance_env_file(&path("/p"), Platform::Posix)), "/p/.env.conformance");
}

#[test]
fn the_more_verbose_level_wins() {
    assert_eq!(LevelFilter::Off.most_verbose(LevelFilter::Error), LevelFilter::Error);
    assert_eq!(LevelFilter::Trace.most_verbose(LevelFilter::Debug), LevelFilter::Trace);
    assert_eq!(LevelFilter::Warn.most_verbose(LevelFilter::Info), LevelFilter::Info);
    assert_eq!(LevelFilter::Debug.verbosity(), 4);
}

#[test]
fn a_copied_configuration_says_the_same() {
    let b = FsTraceConfigBuilder::from_io_args("dbt", "dbt-core", &io_args());
    let c = b.clone().build(None, Platform::Posix).clone();
    assert_eq!(text(&c.log_path), "my_logs");
    assert_eq!(opt_text(&c.otel_file_path), Some("my_logs/otel.jsonl".to_string()));
    assert_eq!(c.show_options, b.show_options);
    assert_eq!(c.invocation_id, 42);
}

#[test]
fn an_absolute_log_path_is_kept_on_windows() {
    let on_windows = |s: &str| FsPath::from_text_on(s, Platform::Windows);
    let build = |log_path: &str| {
        FsTraceConfigBuilder::new("dbt", "dbt-core")
            .with_project_dir(Some(&on_windows(r"D:\proj")))
            .with_log_path(Some(&on_windows(log_path)))
            .with_otel_file_name(Some(r"sub\o.jsonl"))
            .with_otel_parquet_file_name(Some("o.parquet"))
            .build(None, Platform::Windows)
    };
    let c = build(r"C:\logs");
    assert_eq!(text(&c.log_path), "C:/logs");
    assert_eq!(opt_text(&c.otel_file_path), Some("C:/logs/sub/o.jsonl".to_string()));
    assert_eq!(
        opt_text(&c.otel_parquet_file_path),
        Some("D:/proj/target/private/metadata/o.parquet".to_string())
    );
    assert_eq!(text(&build("my_logs").log_path), "D:/proj/my_logs");
    assert_eq!(text(&build(r"\logs").log_path), "D:/logs");
}

#[test]
fn a_verbatim_project_dir_is_kept_on_windows() {
    let on_windows = |s: &str| FsPath::from_text_on(s, Platform::Windows);
    let native = |p: &FsPath| String::from_utf8(p.to_native(Platform::Windows)).unwrap();
    let build = |log_path: &str| {
        FsTraceConfigBuilder::new("dbt", "dbt-core")
            .with_project_dir(Some(&on_windows(r"\\?\UNC\server\share\proj")))
            .with_log_path(Some(&on_windows(log_path)))
            .with_otel_file_name(Some("o.jsonl"))
            .build(None, Platform::Windows)
    };
    let c = build(r"..\logs");
    assert_eq!(native(&c.log_path), r"\\?\UNC\server\share\logs");
    assert_eq!(
        c.otel_file_path.as_ref().map(native),
        Some(r"\\?\UNC\server\share\logs\o.jsonl".to_string())
    );
    assert_eq!(native(&build(r"\logs").log_path), r"\\?\UNC\server\share\logs");
    assert_eq!(native(&build(r"\\?\C:\logs").log_path), r"\\?\C:\logs");
}

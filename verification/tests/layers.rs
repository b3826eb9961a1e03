use dbt_trace::config::FsCommand;
use dbt_trace::config::FsTraceConfig;
use dbt_trace::config::FsTraceConfigBuilder;
use dbt_trace::config::LogFormat;
use dbt_trace::error::ErrorCode;
use dbt_trace::feature_handles::FsTracingConfigProvider;
use dbt_trace::feature_handles::TracingConfigProvider;
use dbt_trace::layers::build_file_log_consumer;
use dbt_trace::layers::build_jsonl_file_consumer;
use dbt_trace::layers::build_shared_middleware_layers;
use dbt_trace::layers::ConsoleLayer;
use dbt_trace::layers::FileLogLayer;
use dbt_trace::layers::FsTraceLayers;
use dbt_trace::layers::LayerError;
use dbt_trace::layers::LayerStep;
use dbt_trace::layers::MiddlewareLayer;
use dbt_trace::layers::StepOutcome;
use dbt_trace::level::LevelFilter;
use dbt_trace::path::FsPath;
use dbt_trace::platform::Platform;
use dbt_trace::record::LogPreprocessor;
use std::cell::RefCell;

fn text(p: &FsPath) -> String {
    String::from_utf8(p.as_bytes().to_vec()).unwrap()
}

fn line(step: &LayerStep) -> String {
    match step {
        LayerStep::CreateDir { dir } => format!("dir {}", text(dir)),
        LayerStep::JsonlFile { path, max_verbosity, preprocessor } => {
            format!("jsonl {} {max_verbosity:?} {preprocessor:?}", text(path))
        }
        LayerStep::ParquetFile { path } => format!("parquet {}", text(path)),
        LayerStep::Console { layer } => match layer {
            ConsoleLayer::Tui { max_verbosity, format, .. } => {
                format!("tui {max_verbosity:?} {format:?}")
            }
            ConsoleLayer::Json { max_verbosity, invocation_id, brand_name, .. } => {
                format!("json {max_verbosity:?} {invocation_id} {brand_name}")
            }
            ConsoleLayer::Jsonl { max_verbosity, preprocessor } => {
                format!("jsonl {max_verbosity:?} {preprocessor:?}")
            }
        },
        LayerStep::FileLog { path, max_bytes, backup_count, sink } => {
            let sink = match sink {
                Some(FileLogLayer::Text { .. }) => "text",
                Some(FileLogLayer::Json { .. }) => "json",
                None => "none",
            };
            format!("log {} {max_bytes} {backup_count} {sink}", text(path))
        }
        LayerStep::SetFileLogPath { file } => format!("announce {:?}", file.as_ref().map(text)),
        LayerStep::QueryLog { path } => format!("queries {}", text(path)),
        LayerStep::Otlp { service_name, version, preprocessor } => {
            format!("otlp {service_name} {version} {preprocessor:?}")
        }
        LayerStep::Abort { error } => format!("abort {}", error.message),
    }
}

const VERSION: &str = "2.0.0";

fn plan(c: &FsTraceConfig) -> Vec<String> {
    c.layer_steps(VERSION).iter().map(line).collect()
}

/// Performs a step as a backend would on which everything succeeds.
fn succeed(step: &LayerStep) -> StepOutcome<String, u32, String> {
    match step {
        LayerStep::CreateDir { .. } => StepOutcome::Done,
        LayerStep::SetFileLogPath { .. } => StepOutcome::Done,
        LayerStep::Abort { .. } => StepOutcome::Done,
        LayerStep::FileLog { sink: None, .. } => StepOutcome::Done,
        LayerStep::Console { .. } => {
            StepOutcome::Attached { layer: line(step), shutdown_items: vec![] }
        }
        LayerStep::Otlp { .. } => {
            StepOutcome::Attached { layer: line(step), shutdown_items: vec![8, 9] }
        }
        _ => StepOutcome::Attached { layer: line(step), shutdown_items: vec![1] },
    }
}

type Built = Result<FsTraceLayers<&'static str, String, u32>, LayerError<String>>;

fn run_with(
    c: &FsTraceConfig,
    provider: &mut FsTracingConfigProvider,
    perform: impl Fn(&LayerStep) -> StepOutcome<String, u32, String>,
) -> Built {
    c.build_layers("provider", provider, VERSION, |step: &LayerStep| {
        let outcome = perform(step);
        assert!(step.accepts(&outcome));
        outcome
    })
}

fn run(
    c: &FsTraceConfig,
    perform: impl Fn(&LayerStep) -> StepOutcome<String, u32, String>,
) -> Built {
    run_with(c, &mut FsTracingConfigProvider::default(), perform)
}

fn full() -> FsTraceConfig {
    FsTraceConfigBuilder::with_defaults("dbt", "dbt-core", 77)
        .with_project_dir(Some(&FsPath::from_text("/p")))
        .with_otel_file_name(Some("o.jsonl"))
        .with_otel_parquet_file_name(Some("o.parquet"))
        .with_query_log_enabled(true)
        .with_export_to_otlp(true)
        .with_show_all_deprecations(true)
        .build(None, Platform::Posix)
}

fn console_only(format: LogFormat) -> FsTraceConfig {
    FsTraceConfigBuilder::with_defaults("dbt", "dbt-core", 77)
        .with_max_file_log_verbosity(LevelFilter::Off)
        .with_log_format(format)
        .build(None, Platform::Posix)
}

#[test]
fn all_sinks_in_order() {
    assert_eq!(
        plan(&full()),
        [
            "dir /p/logs",
            "jsonl /p/logs/o.jsonl Debug StripEscapes",
            "dir /p/target/private/metadata",
            "parquet /p/target/private/metadata/o.parquet",
            "tui Info Default",
            "dir /p/logs",
            "dir /p/logs",
            "log /p/logs/dbt.log 10485760 5 text",
            "announce Some(\"/p/logs/dbt.log\")",
            "queries /p/logs/query_log.sql",
            "otlp dbt-core 2.0.0 StripEscapes",
        ]
    );
}

#[test]
fn a_build_collects_what_was_attached() {
    let c = full();
    let (middlewares, consumers, shutdown_items) = run(&c, succeed).unwrap().into_parts();
    assert_eq!(middlewares.len(), 5);
    assert_eq!(
        consumers,
        [
            "jsonl /p/logs/o.jsonl Debug StripEscapes",
            "parquet /p/target/private/metadata/o.parquet",
            "tui Info Default",
            "log /p/logs/dbt.log 10485760 5 text",
            "queries /p/logs/query_log.sql",
            "otlp dbt-core 2.0.0 StripEscapes",
        ]
    );
    assert_eq!(shutdown_items, [1, 1, 1, 1, 8, 9]);
}

#[test]
fn without_an_endpoint_nothing_is_exported() {
    let c = full();
    let layers = run(&c, |step| match step {
        LayerStep::Otlp { .. } => StepOutcome::Done,
        _ => succeed(step),
    })
    .unwrap();
    assert_eq!(layers.consumer_layers.len(), 5);
    assert_eq!(layers.shutdown_items.len(), 4);
}

#[test]
fn the_terminal_alone() {
    let c = console_only(LogFormat::Text);
    assert_eq!(plan(&c), ["tui Info Text", "announce None"]);
    let layers = run(&c, succeed).unwrap();
    assert_eq!(layers.consumer_layers, ["tui Info Text"]);
    assert!(layers.shutdown_items.is_empty());
}

#[test]
fn the_terminal_in_each_format() {
    assert_eq!(plan(&console_only(LogFormat::Default))[0], "tui Info Default");
    assert_eq!(plan(&console_only(LogFormat::Json))[0], "json Info 77 dbt-core");
    assert_eq!(plan(&console_only(LogFormat::Otel))[0], "jsonl Info StripEscapes");
}

#[test]
fn the_file_has_its_own_format() {
    let c = FsTraceConfigBuilder::with_defaults("dbt", "dbt-core", 77)
        .with_log_format(LogFormat::Otel)
        .with_file_log_format(Some(LogFormat::Json))
        .with_log_file_name(Some("my.log"))
        .with_log_file_max_bytes(0)
        .build(None, Platform::Posix);
    assert_eq!(plan(&c)[3], "log logs/my.log 0 5 json");
}

#[test]
fn the_telemetry_format_has_no_sink_in_the_file() {
    let c = FsTraceConfigBuilder::with_defaults("dbt", "dbt-core", 77)
        .with_log_format(LogFormat::Otel)
        .build(None, Platform::Posix);
    assert_eq!(
        plan(&c)[3..],
        ["log logs/dbt.log 10485760 5 none", "announce Some(\"logs/dbt.log\")"]
    );
    let layers = run(&c, succeed).unwrap();
    assert_eq!(layers.consumer_layers, ["jsonl Info StripEscapes"]);
    assert!(layers.shutdown_items.is_empty());
}

#[test]
fn a_query_log_needs_the_log_directory() {
    let c = FsTraceConfigBuilder::with_defaults("dbt", "dbt-core", 77)
        .with_max_file_log_verbosity(LevelFilter::Off)
        .with_query_log_enabled(true)
        .build(None, Platform::Posix);
    assert_eq!(
        plan(&c),
        ["tui Info Default", "dir logs", "announce None", "queries logs/query_log.sql"]
    );
}

#[test]
fn the_provider_hears_of_the_log_file() {
    let c = full();
    let mut provider = FsTracingConfigProvider::default();
    run_with(&c, &mut provider, succeed).unwrap();
    let path = provider.get_file_log_path().unwrap();
    assert_eq!(text(&path), "/p/logs/dbt.log");
    run_with(&console_only(LogFormat::Text), &mut provider, succeed).unwrap();
    assert!(provider.get_file_log_path().is_none());
}

#[test]
fn the_provider_hears_of_no_log_file_that_was_not_opened() {
    let c = full();
    let mut provider = FsTracingConfigProvider::default();
    let built = run_with(&c, &mut provider, |step| match step {
        LayerStep::FileLog { .. } => StepOutcome::OpenFailed("denied".to_string()),
        _ => succeed(step),
    });
    assert!(built.is_err());
    assert!(provider.get_file_log_path().is_none());
}

#[test]
fn nothing_is_performed_behind_a_failure() {
    let c = full();
    let seen: RefCell<Vec<String>> = RefCell::new(Vec::new());
    let built = run(&c, |step| {
        seen.borrow_mut().push(line(step));
        match step {
            LayerStep::ParquetFile { .. } => StepOutcome::OpenFailed("denied".to_string()),
            _ => succeed(step),
        }
    });
    assert!(built.is_err());
    assert_eq!(seen.borrow().len(), 4);
}

#[test]
fn one_sink_for_each_output() {
    let base = || {
        FsTraceConfigBuilder::with_defaults("dbt", "dbt-core", 77)
            .with_max_file_log_verbosity(LevelFilter::Off)
    };
    for (config, outputs) in [
        (base(), 0),
        (base().with_otel_file_name(Some("o")), 1),
        (base().with_otel_parquet_file_name(Some("o")), 1),
        (base().with_query_log_enabled(true), 1),
        (base().with_max_file_log_verbosity(LevelFilter::Warn), 1),
        (base().with_otel_file_name(Some("o")).with_query_log_enabled(true), 2),
    ] {
        let c = config.build(None, Platform::Posix);
        let layers = run(&c, succeed).unwrap();
        assert_eq!(layers.consumer_layers.len(), outputs + 1);
        assert_eq!(layers.shutdown_items.len(), outputs);
    }
}

#[test]
fn a_file_that_cannot_be_opened_ends_the_build() {
    let cases = [
        ("jsonl /", "Failed to open telemetry jsonl file for append: denied"),
        ("parquet", "Failed to create parquet file: denied"),
        ("log", "Failed to open log file for append: denied"),
        ("queries", "Failed to open query log file: denied"),
    ];
    for (prefix, message) in cases {
        let c = full();
        let built = run(&c, |step| {
            if line(step).starts_with(prefix) {
                StepOutcome::OpenFailed("denied".to_string())
            } else {
                succeed(step)
            }
        });
        match built {
            Err(LayerError::Fs(e)) => {
                assert_eq!(e.code, ErrorCode::IoError);
                assert_eq!(e.message, message);
            }
            other => panic!("{other:?}"),
        }
    }
}

#[test]
fn the_error_of_a_step_is_handed_on() {
    let c = full();
    let built = run(&c, |step| match step {
        LayerStep::CreateDir { .. } => StepOutcome::Failed("no space".to_string()),
        _ => succeed(step),
    });
    assert!(matches!(built, Err(LayerError::Step(e)) if e == "no space"));
}

#[test]
fn a_parquet_file_needs_a_directory() {
    let mut c = full();
    c.otel_parquet_file_path = Some(FsPath::from_text("/"));
    assert_eq!(plan(&c)[2], "abort Failed to get parent directory for file path");
    match run(&c, succeed) {
        Err(LayerError::Fs(e)) => {
            assert_eq!(e.code, ErrorCode::IoError);
            assert_eq!(e.message, "Failed to get parent directory for file path");
        }
        other => panic!("{other:?}"),
    }
}

#[test]
fn a_jsonl_file_can_do_without_a_directory() {
    let steps = build_jsonl_file_consumer(&FsPath::from_text("/"), LevelFilter::Info, Platform::Posix);
    let lines: Vec<String> = steps.iter().map(line).collect();
    assert_eq!(lines, ["jsonl / Info StripEscapes"]);
}

#[test]
fn no_log_file_without_verbosity() {
    let (steps, path) = build_file_log_consumer(
        LevelFilter::Off,
        &FsPath::from_text("logs"),
        None,
        1,
        LogFormat::Text,
        1,
        FsCommand::Unset,
        "dbt",
        Platform::Posix,
    );
    assert!(steps.is_empty() && path.is_none());
}

#[test]
fn the_log_file_and_its_path() {
    let (steps, path) = build_file_log_consumer(
        LevelFilter::Warn,
        &FsPath::from_text("logs"),
        Some("x.log"),
        1,
        LogFormat::Json,
        3,
        FsCommand::Named("run"),
        "dbt",
        Platform::Posix,
    );
    assert_eq!(path.as_ref().map(text), Some("logs/x.log".to_string()));
    assert_eq!(line(&steps[0]), "dir logs");
    match &steps[1] {
        LayerStep::FileLog {
            sink: Some(FileLogLayer::Json { max_verbosity, invocation_id, command, command_name }),
            ..
        } => {
            assert_eq!(*max_verbosity, LevelFilter::Warn);
            assert_eq!(*invocation_id, 3);
            assert_eq!(*command, FsCommand::Named("run"));
            assert_eq!(*command_name, "dbt");
        }
        other => panic!("{other:?}"),
    }
}

#[test]
fn the_stages_before_the_sinks() {
    assert_eq!(
        build_shared_middleware_layers(true, "provider", false),
        [
            MiddlewareLayer::MarkdownLogFilter,
            MiddlewareLayer::ParsingErrorFilter { show_all_deprecations: true },
            MiddlewareLayer::WarnErrorOptions {
                config_provider: "provider",
                skip_fusion_only_upgrades: false,
            },
            MiddlewareLayer::NodeWarnOutcome,
            MiddlewareLayer::MetricAggregator,
        ]
    );
}

#[test]
fn what_a_step_can_come_to() {
    type Outcome = StepOutcome<String, u32, String>;
    let dir = LayerStep::CreateDir { dir: FsPath::from_text("d") };
    assert!(dir.accepts(&Outcome::Done));
    assert!(dir.accepts(&Outcome::Failed("x".to_string())));
    assert!(!dir.accepts(&Outcome::OpenFailed("x".to_string())));
    let queries = LayerStep::QueryLog { path: FsPath::from_text("q") };
    assert!(!queries.accepts(&Outcome::Done));
    assert!(queries.accepts(&Outcome::OpenFailed("x".to_string())));
    assert!(!queries.accepts(&Outcome::Failed("x".to_string())));
    let two = Outcome::Attached { layer: "l".to_string(), shutdown_items: vec![1, 2] };
    assert!(!queries.accepts(&two));
    assert!(LayerStep::Otlp {
        service_name: "s",
        version: VERSION,
        preprocessor: LogPreprocessor::StripEscapes,
    }
    .accepts(&two));
}

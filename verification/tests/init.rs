use dbt_trace::config::FsTraceConfig;
use dbt_trace::config::FsTraceConfigBuilder;
use dbt_trace::error::ErrorCode;
use dbt_trace::error::FsError;
use dbt_trace::feature::TracingFeature;
use dbt_trace::feature_handles::FsTracingConfigProvider;
use dbt_trace::feature_handles::NoOpTracingConfigProvider;
use dbt_trace::init::dbt_max_log_verbosity;
use dbt_trace::init::init_tracing_cli_reloadable;
use dbt_trace::init::init_tracing_with_data_layer;
use dbt_trace::init::shutdown_all;
use dbt_trace::init::InvocationTracingGuard;
use dbt_trace::init::ProcessTracing;
use dbt_trace::feature_handles::TracingConfigProvider;
use dbt_trace::init::InitError;
use dbt_trace::init::InvocationError;
use dbt_trace::layers::LayerError;
use dbt_trace::layers::LayerStep;
use dbt_trace::layers::MiddlewareLayer;
use dbt_trace::layers::StepOutcome;
use dbt_trace::level::LevelFilter;
use dbt_trace::platform::Platform;
use dbt_trace::task_run::init_tracing_for_tests;
use dbt_trace::warn_error_options::WarnErrorOptionValue;
use dbt_trace::warn_error_options::WarnErrorOptions;
use std::cell::RefCell;

type Outcome = StepOutcome<&'static str, u32, &'static str>;

fn perform(step: &LayerStep) -> Outcome {
    match step {
        LayerStep::Console { .. } => StepOutcome::Attached { layer: "tui", shutdown_items: vec![] },
        LayerStep::FileLog { .. } => {
            StepOutcome::Attached { layer: "file", shutdown_items: vec![1] }
        }
        LayerStep::QueryLog { .. } => {
            StepOutcome::Attached { layer: "queries", shutdown_items: vec![2] }
        }
        LayerStep::JsonlFile { .. } => {
            StepOutcome::Attached { layer: "jsonl", shutdown_items: vec![3] }
        }
        _ => StepOutcome::Done,
    }
}

fn no_space(step: &LayerStep) -> Outcome {
    match step {
        LayerStep::CreateDir { .. } => StepOutcome::Failed("no space"),
        _ => perform(step),
    }
}

fn config() -> FsTraceConfig {
    FsTraceConfigBuilder::with_defaults("dbt", "dbt-core", 42)
        .with_parent_span_id(Some(9))
        .with_query_log_enabled(true)
        .with_warn_error_options(WarnErrorOptions {
            error: vec![WarnErrorOptionValue::All],
            ..Default::default()
        })
        .build(None, Platform::Posix)
}

#[test]
fn everything_below_trace_is_debug() {
    for level in [
        LevelFilter::Off,
        LevelFilter::Error,
        LevelFilter::Warn,
        LevelFilter::Info,
        LevelFilter::Debug,
    ] {
        assert_eq!(dbt_max_log_verbosity(level), LevelFilter::Debug);
    }
    assert_eq!(dbt_max_log_verbosity(LevelFilter::Trace), LevelFilter::Trace);
}

#[test]
fn noisy_libraries_are_switched_off() {
    let directives = init_tracing_with_data_layer(
        LevelFilter::Info,
        "attributes",
        "layer",
        |level: LevelFilter, a: &str, d: &str, v: Vec<&'static str>| {
            assert_eq!((level, a, d), (LevelFilter::Debug, "attributes", "layer"));
            v
        },
    );
    assert_eq!(
        directives,
        ["hyper=off", "h2=off", "reqwest=off", "ureq=off", "opentelemetry=off"]
    );
}

#[test]
fn tracing_of_one_invocation() {
    let mut c = config();
    c.max_log_verbosity = LevelFilter::Trace;
    let mut provider = c.create_config_provider();
    let handle = c
        .init(
            "provider",
            &mut provider,
            "2.0.0",
            false,
            perform,
            |id: u128, span: Option<u64>, strip: bool, m: Vec<Stage>, c: Vec<&'static str>| {
                assert_eq!((id, span, strip), (42, Some(9), true));
                (m.len(), c)
            },
            |package: &'static str| package,
            |level: LevelFilter, a: &str, d: (usize, Vec<&str>), _: Vec<&str>| {
                assert_eq!((level, a), (LevelFilter::Trace, "dbt"));
                assert_eq!(d, (5, vec!["tui", "file", "queries"]));
                Ok::<&str, String>("span")
            },
        )
        .unwrap();
    assert_eq!(handle.process_span, "span");
    assert_eq!(handle.shutdown_items, [1, 2]);
    assert_eq!(provider.get_file_log_path().unwrap().as_bytes(), b"logs/dbt.log");
}

#[test]
fn the_error_of_the_backend_is_handed_on() {
    let c = config();
    let failed = c.init(
        (),
        &mut c.create_config_provider(),
        "2.0.0",
        true,
        perform,
        |_: u128, _: Option<u64>, strip: bool, _: Vec<MiddlewareLayer<()>>, _: Vec<&str>| {
            assert!(!strip);
        },
        |_: &'static str| (),
        |_: LevelFilter, _: (), _: (), _: Vec<&str>| Err::<(), &str>("taken"),
    );
    assert!(matches!(failed, Err(InitError::Backend("taken"))));
}

#[test]
fn layers_that_cannot_be_built_end_the_setup() {
    let c = config();
    let failed = c.init(
        (),
        &mut c.create_config_provider(),
        "2.0.0",
        true,
        no_space,
        |_: u128, _: Option<u64>, _: bool, _: Vec<MiddlewareLayer<()>>, _: Vec<&str>| {
            panic!("no data layer was expected")
        },
        |_: &'static str| (),
        |_: LevelFilter, _: (), _: (), _: Vec<&str>| Ok::<(), &str>(()),
    );
    assert!(matches!(failed, Err(InitError::Layers(LayerError::Step("no space")))));
}

#[test]
fn tracing_of_many_invocations() {
    let process = init_tracing_cli_reloadable(
        "dbt",
        LevelFilter::Warn,
        false,
        |id: u128, span: Option<u64>, strip: bool| {
            assert_eq!(uuid::Uuid::from_u128(id).get_version_num(), 7);
            assert_eq!((span, strip), (None, true));
            ("layer", "handle")
        },
        |package: &'static str| package,
        |level: LevelFilter, a: &str, d: &str, _: Vec<&str>| {
            assert_eq!((level, a, d), (LevelFilter::Debug, "dbt", "layer"));
            Ok::<u8, ()>(1)
        },
    )
    .unwrap();
    assert_eq!(process.reload_handle, "handle");
    assert_eq!(process.process_span, 1);
}

#[test]
fn tracing_of_tests() {
    let process = init_tracing_for_tests(
        true,
        |id: u128, span: Option<u64>, _: bool| {
            assert_eq!((id, span), (1, None));
            ((), ())
        },
        |package: &'static str| package,
        |level: LevelFilter, a: &str, _: (), _: Vec<&str>| {
            assert_eq!((level, a), (LevelFilter::Trace, "dbt-tests"));
            Ok::<u8, ()>(2)
        },
    )
    .unwrap();
    assert_eq!(process.process_span, 2);
}

fn process() -> ProcessTracing<(), &'static str> {
    ProcessTracing { process_span: (), reload_handle: "handle" }
}

type Stage = MiddlewareLayer<&'static str>;

fn begin() -> InvocationTracingGuard<u32, &'static str> {
    let c = config();
    let (guard, _) = process()
        .begin_invocation(
            &c,
            "provider",
            &mut FsTracingConfigProvider::default(),
            "2.0.0",
            perform,
            |h: &&'static str, m: Vec<Stage>, c: Vec<&'static str>| {
                assert_eq!((*h, m.len(), c), ("handle", 5, vec!["tui", "file", "queries"]));
                Ok(())
            },
        )
        .unwrap();
    guard
}

#[test]
fn an_invocation_holds_what_it_has_to_shut_down() {
    let guard = begin();
    assert_eq!(guard.shutdown_items, [1, 2]);
    assert_eq!(guard.reload_handle, "handle");
    assert!(!guard.finished);
}

#[test]
fn an_invocation_has_the_options_and_the_log_file_of_its_configuration() {
    let c = config();
    let mut provider = FsTracingConfigProvider::default();
    let (_guard, handed_back) = process()
        .begin_invocation(
            &c,
            "provider",
            &mut provider,
            "2.0.0",
            perform,
            |_: &&'static str, m: Vec<Stage>, _: Vec<&'static str>| {
                assert!(m.contains(&MiddlewareLayer::WarnErrorOptions {
                    config_provider: "provider",
                    skip_fusion_only_upgrades: false,
                }));
                Ok(())
            },
        )
        .unwrap();
    assert_eq!(handed_back, "provider");
    let first = provider.with_warn_error_options(|o: &WarnErrorOptions| o.error[0]);
    assert_eq!(first, WarnErrorOptionValue::All);
    assert_eq!(provider.get_file_log_path().unwrap().as_bytes(), b"logs/dbt.log");
}

#[test]
fn layers_that_cannot_be_installed() {
    let c = config();
    let mut provider = FsTracingConfigProvider::default();
    let failed = process().begin_invocation(
        &c,
        "provider",
        &mut provider,
        "2.0.0",
        perform,
        |_: &&'static str, _: Vec<Stage>, _: Vec<&'static str>| Err("gone".to_string()),
    );
    match failed {
        Err(InvocationError::Install(error)) => {
            assert_eq!(error.code, ErrorCode::Generic);
            assert_eq!(error.message, "Failed to install invocation telemetry layers: gone");
        }
        other => panic!("{other:?}"),
    }
    assert_eq!(provider.with_warn_error_options(|o: &WarnErrorOptions| o.error.len()), 0);
}

#[test]
fn layers_that_cannot_be_built_end_the_invocation() {
    let c = config();
    let failed = process().begin_invocation(
        &c,
        "provider",
        &mut FsTracingConfigProvider::default(),
        "2.0.0",
        no_space,
        |_: &&'static str, _: Vec<Stage>, _: Vec<&'static str>| panic!("nothing to install"),
    );
    assert!(matches!(failed, Err(InvocationError::Layers(LayerError::Step("no space")))));
}

fn fail_on_two(item: u32) -> Result<(), FsError> {
    if item == 2 {
        Err(FsError::with_message(ErrorCode::IoError, "two"))
    } else {
        Ok(())
    }
}

fn detach(_: &&'static str, m: Vec<Stage>, c: Vec<&'static str>) -> Result<(), String> {
    assert!(m.is_empty() && c.is_empty());
    Ok(())
}

fn fail_to_detach(
    _: &&'static str,
    _: Vec<Stage>,
    _: Vec<&'static str>,
) -> Result<(), String> {
    Err("stuck".to_string())
}

#[test]
fn every_item_is_shut_down_in_order() {
    let seen: RefCell<Vec<u32>> = RefCell::new(Vec::new());
    let errors = shutdown_all(vec![1, 2, 3, 4], &|i: u32| {
        seen.borrow_mut().push(i);
        if i % 2 == 0 { Err(i * 10) } else { Ok(()) }
    });
    assert_eq!(errors, [20, 40]);
    assert_eq!(*seen.borrow(), [1, 2, 3, 4]);
}

#[test]
fn a_clean_end_of_an_invocation() {
    assert!(begin().finish(|_: u32| Ok(()), detach).is_ok());
}

#[test]
fn all_errors_of_an_end_are_told() {
    let errors = begin().finish(fail_on_two, fail_to_detach).unwrap_err();
    let messages: Vec<&str> = errors.iter().map(|e| e.message.as_str()).collect();
    assert_eq!(messages, ["two", "Failed to detach invocation telemetry layers: stuck"]);
    assert_eq!(errors[1].code, ErrorCode::Generic);
}

#[test]
fn a_second_teardown_does_nothing() {
    let mut guard = begin();
    assert_eq!(guard.teardown(fail_on_two, detach).len(), 1);
    assert!(guard.finished);
    assert!(guard.teardown(fail_on_two, fail_to_detach).is_empty());
    assert!(guard.finish(fail_on_two, fail_to_detach).is_ok());
}

#[test]
fn a_feature_is_shut_down_once() {
    let mut feature = TracingFeature::<NoOpTracingConfigProvider, u8>::default()
        .with_config_provider(FsTracingConfigProvider::default())
        .with_shutdown_handle(3)
        .with_shutdown_handle(4);
    assert_eq!(feature.shutdown_once(|h: u8| Err::<(), Vec<u8>>(vec![h])), Err(vec![4]));
    assert_eq!(feature.shutdown_once(|h: u8| Err::<(), Vec<u8>>(vec![h])), Ok(()));
}

#[test]
fn a_feature_without_a_handle_has_nothing_to_shut_down() {
    let mut feature = TracingFeature::<NoOpTracingConfigProvider, u8>::default();
    assert_eq!(feature.shutdown_once(|h: u8| Err::<(), Vec<u8>>(vec![h])), Ok(()));
}

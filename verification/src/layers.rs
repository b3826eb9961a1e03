//! The layers that a trace configuration asks for: which sinks are opened, in which order,
//! and what is attached to the telemetry pipeline.

use crate::config::opt_str;
use crate::config::opt_text;
use crate::config::FsCommand;
use crate::config::FsTraceConfig;
use crate::config::LogFormat;
use crate::error::ErrorCode;
use crate::error::FsError;
use crate::feature_handles::TracingConfigProvider;
use crate::level::LevelFilter;
use crate::path::opt_path;
use crate::path::FsPath;
use crate::platform::joined_text;
use crate::platform::parent_on;
use crate::platform::Platform;
use crate::record::LogPreprocessor;
use std::collections::HashSet;
use vstd::prelude::*;

verus! {

/// The name of the log file, unless another one is asked for.
pub const DBT_DEFAULT_LOG_FILE_NAME: &'static str = "dbt.log";

/// The name of the file that queries are logged to.
pub const DBT_DEFAULT_QUERY_LOG_FILE_NAME: &'static str = "query_log.sql";

/// How many rotated log files are kept.
pub const DBT_DEFAULT_LOG_FILE_BACKUP_COUNT: u32 = 5;

/// A stage that every record passes before it reaches a sink. `K` is the type of handles to a
/// configuration provider.
#[derive(Debug, PartialEq, Eq)]
pub enum MiddlewareLayer<K> {
    MarkdownLogFilter,
    ParsingErrorFilter { show_all_deprecations: bool },
    /// Silences warnings and turns them into errors, as the provider says at that time.
    WarnErrorOptions { config_provider: K, skip_fusion_only_upgrades: bool },
    NodeWarnOutcome,
    MetricAggregator,
}

/// The stages of every configuration, in the order in which a record passes them.
pub open spec fn shared_middleware<K>(
    show_all_deprecations: bool,
    config_provider: K,
    skip_fusion_only_upgrades: bool,
) -> Seq<MiddlewareLayer<K>> {
    seq![
        MiddlewareLayer::MarkdownLogFilter,
        MiddlewareLayer::ParsingErrorFilter { show_all_deprecations },
        MiddlewareLayer::WarnErrorOptions { config_provider, skip_fusion_only_upgrades },
        MiddlewareLayer::NodeWarnOutcome,
        MiddlewareLayer::MetricAggregator,
    ]
}

/// The stages of every configuration, over the given configuration provider.
pub fn build_shared_middleware_layers<K>(
    show_all_deprecations: bool,
    config_provider: K,
    skip_fusion_only_upgrades: bool,
) -> (r: Vec<MiddlewareLayer<K>>)
    ensures
        r@ == shared_middleware(show_all_deprecations, config_provider, skip_fusion_only_upgrades),
{
    let r: Vec<MiddlewareLayer<K>> = vec![
        MiddlewareLayer::MarkdownLogFilter,
        MiddlewareLayer::ParsingErrorFilter { show_all_deprecations },
        MiddlewareLayer::WarnErrorOptions { config_provider, skip_fusion_only_upgrades },
        MiddlewareLayer::NodeWarnOutcome,
        MiddlewareLayer::MetricAggregator,
    ];
    assert(r@ =~= shared_middleware(
        show_all_deprecations,
        config_provider,
        skip_fusion_only_upgrades,
    ));
    r
}

/// The sink on the terminal.
#[derive(Debug)]
pub enum ConsoleLayer<'a> {
    /// Text for a reader.
    Tui {
        max_verbosity: LevelFilter,
        format: LogFormat,
        show_options: &'a HashSet<String>,
        command: FsCommand,
    },
    /// JSON lines as dbt-core writes them.
    Json {
        max_verbosity: LevelFilter,
        invocation_id: u128,
        command: FsCommand,
        brand_name: &'static str,
    },
    /// JSON lines of telemetry records.
    Jsonl { max_verbosity: LevelFilter, preprocessor: LogPreprocessor },
}

/// The sink in the log file.
#[derive(Clone, Copy, Debug)]
pub enum FileLogLayer {
    /// Text for a reader.
    Text { max_verbosity: LevelFilter },
    /// JSON lines as dbt-core writes them.
    Json {
        max_verbosity: LevelFilter,
        invocation_id: u128,
        command: FsCommand,
        command_name: &'static str,
    },
}

/// One step on the way to the layers of a configuration.
#[derive(Debug)]
pub enum LayerStep<'a> {
    /// Create a directory and those above it.
    CreateDir { dir: FsPath },
    /// Open a file for appending and attach a sink of JSON lines.
    JsonlFile { path: FsPath, max_verbosity: LevelFilter, preprocessor: LogPreprocessor },
    /// Create a file and attach a Parquet sink.
    ParquetFile { path: FsPath },
    /// Attach the sink on the terminal.
    Console { layer: ConsoleLayer<'a> },
    /// Open a rotating log file and attach its sink, if it has one.
    FileLog { path: FsPath, max_bytes: u64, backup_count: u32, sink: Option<FileLogLayer> },
    /// Tell the configuration provider where the log file is.
    SetFileLogPath { file: Option<FsPath> },
    /// Create a file and attach the sink of queries.
    QueryLog { path: FsPath },
    /// Attach the exporter to OTLP endpoints, if any are set, labelled with a service and its
    /// version.
    Otlp {
        service_name: &'static str,
        version: &'static str,
        preprocessor: LogPreprocessor,
    },
    /// Give up.
    Abort { error: FsError },
}

/// What a [`ConsoleLayer`] says.
pub enum ConsoleView {
    Tui {
        max_verbosity: LevelFilter,
        format: LogFormat,
        show_options: Set<String>,
        command: FsCommand,
    },
    Json {
        max_verbosity: LevelFilter,
        invocation_id: u128,
        command: FsCommand,
        brand_name: &'static str,
    },
    Jsonl { max_verbosity: LevelFilter, preprocessor: LogPreprocessor },
}

/// What a [`LayerStep`] says.
pub enum StepView {
    CreateDir { dir: Seq<u8> },
    JsonlFile { path: Seq<u8>, max_verbosity: LevelFilter, preprocessor: LogPreprocessor },
    ParquetFile { path: Seq<u8> },
    Console { layer: ConsoleView },
    FileLog { path: Seq<u8>, max_bytes: u64, backup_count: u32, sink: Option<FileLogLayer> },
    SetFileLogPath { file: Option<Seq<u8>> },
    QueryLog { path: Seq<u8> },
    Otlp {
        service_name: &'static str,
        version: &'static str,
        preprocessor: LogPreprocessor,
    },
    Abort { code: ErrorCode, message: Seq<char> },
}

impl<'a> View for ConsoleLayer<'a> {
    type V = ConsoleView;

    open spec fn view(&self) -> ConsoleView {
        match *self {
            ConsoleLayer::Tui { max_verbosity, format, show_options, command } => ConsoleView::Tui {
                max_verbosity,
                format,
                show_options: show_options@,
                command,
            },
            ConsoleLayer::Json { max_verbosity, invocation_id, command, brand_name } =>
                ConsoleView::Json { max_verbosity, invocation_id, command, brand_name },
            ConsoleLayer::Jsonl { max_verbosity, preprocessor } => ConsoleView::Jsonl {
                max_verbosity,
                preprocessor,
            },
        }
    }
}

impl<'a> View for LayerStep<'a> {
    type V = StepView;

    open spec fn view(&self) -> StepView {
        match *self {
            LayerStep::CreateDir { dir } => StepView::CreateDir { dir: dir@ },
            LayerStep::JsonlFile { path, max_verbosity, preprocessor } => StepView::JsonlFile {
                path: path@,
                max_verbosity,
                preprocessor,
            },
            LayerStep::ParquetFile { path } => StepView::ParquetFile { path: path@ },
            LayerStep::Console { layer } => StepView::Console { layer: layer@ },
            LayerStep::FileLog { path, max_bytes, backup_count, sink } => StepView::FileLog {
                path: path@,
                max_bytes,
                backup_count,
                sink,
            },
            LayerStep::SetFileLogPath { file } => StepView::SetFileLogPath { file: opt_path(file) },
            LayerStep::QueryLog { path } => StepView::QueryLog { path: path@ },
            LayerStep::Otlp { service_name, version, preprocessor } => StepView::Otlp {
                service_name,
                version,
                preprocessor,
            },
            LayerStep::Abort { error } => StepView::Abort {
                code: error.code,
                message: error.message@,
            },
        }
    }
}

/// What a list of steps says.
pub open spec fn step_views(steps: Seq<LayerStep<'_>>) -> Seq<StepView> {
    steps.map_values(|s: LayerStep<'_>| s@)
}

/// The steps to a JSON lines sink at `path`.
pub open spec fn jsonl_steps(
    platform: Platform,
    path: Option<Seq<u8>>,
    max_verbosity: LevelFilter,
) -> Seq<StepView> {
    match path {
        None => Seq::empty(),
        Some(p) => {
            let sink = StepView::JsonlFile {
                path: p,
                max_verbosity,
                preprocessor: LogPreprocessor::StripEscapes,
            };
            match parent_on(platform, p) {
                Some(dir) => seq![StepView::CreateDir { dir }, sink],
                None => seq![sink],
            }
        },
    }
}

/// The steps to a Parquet sink at `path`.
pub open spec fn parquet_steps(platform: Platform, path: Option<Seq<u8>>) -> Seq<StepView> {
    match path {
        None => Seq::empty(),
        Some(p) => match parent_on(platform, p) {
            Some(dir) => seq![StepView::CreateDir { dir }, StepView::ParquetFile { path: p }],
            None => seq![
                StepView::Abort {
                    code: ErrorCode::IoError,
                    message: "Failed to get parent directory for file path"@,
                },
            ],
        },
    }
}

/// The sink on the terminal.
pub open spec fn console_layer(c: FsTraceConfig) -> ConsoleView {
    match c.log_format {
        LogFormat::Default | LogFormat::Text => ConsoleView::Tui {
            max_verbosity: c.max_log_verbosity,
            format: c.log_format,
            show_options: c.show_options@,
            command: c.command,
        },
        LogFormat::Json => ConsoleView::Json {
            max_verbosity: c.max_log_verbosity,
            invocation_id: c.invocation_id,
            command: c.command,
            brand_name: c.brand_name,
        },
        LogFormat::Otel => ConsoleView::Jsonl {
            max_verbosity: c.max_log_verbosity,
            preprocessor: LogPreprocessor::StripEscapes,
        },
    }
}

/// The steps to the log directory: it is needed by the log file and by the query log.
pub open spec fn log_dir_steps(c: FsTraceConfig) -> Seq<StepView> {
    if c.enable_query_log || c.max_file_log_verbosity != LevelFilter::Off {
        seq![StepView::CreateDir { dir: c.log_path@ }]
    } else {
        Seq::empty()
    }
}

/// The path of the log file; `None` where nothing is verbose enough for it.
pub open spec fn log_file_path(
    platform: Platform,
    max_verbosity: LevelFilter,
    log_path: Seq<u8>,
    log_file_name: Option<Seq<char>>,
) -> Option<Seq<u8>> {
    if max_verbosity == LevelFilter::Off {
        None
    } else {
        Some(
            joined_text(
                platform,
                log_path,
                match log_file_name {
                    Some(name) => name,
                    None => DBT_DEFAULT_LOG_FILE_NAME@,
                },
            ),
        )
    }
}

/// The sink in the log file; the telemetry format has none.
pub open spec fn file_log_layer(
    max_verbosity: LevelFilter,
    log_format: LogFormat,
    invocation_id: u128,
    command: FsCommand,
    command_name: &'static str,
) -> Option<FileLogLayer> {
    match log_format {
        LogFormat::Default | LogFormat::Text => Some(FileLogLayer::Text { max_verbosity }),
        LogFormat::Json => Some(
            FileLogLayer::Json { max_verbosity, invocation_id, command, command_name },
        ),
        LogFormat::Otel => None,
    }
}

/// The steps to the log file `file`, if there is one.
pub open spec fn file_log_steps(
    log_path: Seq<u8>,
    file: Option<Seq<u8>>,
    max_bytes: u64,
    sink: Option<FileLogLayer>,
) -> Seq<StepView> {
    match file {
        None => Seq::empty(),
        Some(path) => seq![
            StepView::CreateDir { dir: log_path },
            StepView::FileLog {
                path,
                max_bytes,
                backup_count: DBT_DEFAULT_LOG_FILE_BACKUP_COUNT,
                sink,
            },
        ],
    }
}

/// The format of the log file: its own, else that of the other log lines.
pub open spec fn file_format(c: FsTraceConfig) -> LogFormat {
    match c.file_log_format {
        Some(f) => f,
        None => c.log_format,
    }
}

/// The path of the log file of a configuration.
pub open spec fn config_log_file(c: FsTraceConfig) -> Option<Seq<u8>> {
    log_file_path(
        c.platform,
        c.max_file_log_verbosity,
        c.log_path@,
        opt_text(c.log_file_name),
    )
}

/// The steps to the log file of a configuration.
pub open spec fn config_file_log_steps(c: FsTraceConfig) -> Seq<StepView> {
    file_log_steps(
        c.log_path@,
        config_log_file(c),
        c.log_file_max_bytes,
        file_log_layer(
            c.max_file_log_verbosity,
            file_format(c),
            c.invocation_id,
            c.command,
            c.brand_name,
        ),
    )
}

/// The steps to the query log.
pub open spec fn query_log_steps(c: FsTraceConfig) -> Seq<StepView> {
    if c.enable_query_log {
        seq![
            StepView::QueryLog {
                path: joined_text(c.platform, c.log_path@, DBT_DEFAULT_QUERY_LOG_FILE_NAME@),
            },
        ]
    } else {
        Seq::empty()
    }
}

/// The steps to the OTLP exporter.
pub open spec fn otlp_steps(c: FsTraceConfig, version: &'static str) -> Seq<StepView> {
    if c.export_to_otlp {
        seq![
            StepView::Otlp {
                service_name: c.brand_name,
                version,
                preprocessor: LogPreprocessor::StripEscapes,
            },
        ]
    } else {
        Seq::empty()
    }
}

/// All steps of a configuration, in order. `version` is that of the program.
pub open spec fn layer_plan(c: FsTraceConfig, version: &'static str) -> Seq<StepView> {
    jsonl_steps(c.platform, opt_path(c.otel_file_path), c.max_file_log_verbosity) + parquet_steps(
        c.platform,
        opt_path(c.otel_parquet_file_path),
    ) + seq![StepView::Console { layer: console_layer(c) }] + log_dir_steps(c)
        + config_file_log_steps(c) + seq![StepView::SetFileLogPath { file: config_log_file(c) }]
        + query_log_steps(c) + otlp_steps(c, version)
}

/// What performing a step came to.
#[derive(Debug)]
pub enum StepOutcome<C, S, E> {
    /// It is done, and nothing was attached.
    Done,
    /// It is done: `layer` is attached, and `shutdown_items` have to be shut down later.
    Attached { layer: C, shutdown_items: Vec<S> },
    /// The file could not be opened, for the reason the system gave.
    OpenFailed(String),
    /// It failed with an error of its own.
    Failed(E),
}

/// Why the layers of a configuration could not be built.
#[derive(Debug)]
pub enum LayerError<E> {
    Fs(FsError),
    /// The error of a step, as the step gave it.
    Step(E),
}

impl StepView {
    /// What the error message says before the reason, where the file of a step cannot be
    /// opened; `None` for a step that opens no file.
    pub open spec fn open_failure(self) -> Option<Seq<char>> {
        match self {
            StepView::JsonlFile { .. } => Some(
                "Failed to open telemetry jsonl file for append: "@,
            ),
            StepView::ParquetFile { .. } => Some("Failed to create parquet file: "@),
            StepView::FileLog { .. } => Some("Failed to open log file for append: "@),
            StepView::QueryLog { .. } => Some("Failed to open query log file: "@),
            _ => None,
        }
    }

    /// How many things a step that attaches a layer leaves to be shut down later. The sink on
    /// the terminal writes through, so it leaves none; a background writer leaves itself; for
    /// the OTLP exporter it depends on the endpoints.
    pub open spec fn leaves_to_shut_down(self, n: nat) -> bool {
        match self {
            StepView::JsonlFile { .. } => n == 1,
            StepView::ParquetFile { .. } => n == 1,
            StepView::Console { .. } => n == 0,
            StepView::FileLog { .. } => n == 1,
            StepView::QueryLog { .. } => n == 1,
            _ => true,
        }
    }

    /// Whether the step can attach a layer.
    pub open spec fn can_attach(self) -> bool {
        match self {
            StepView::CreateDir { .. } => false,
            StepView::FileLog { sink, .. } => sink is Some,
            StepView::SetFileLogPath { .. } => false,
            StepView::Abort { .. } => false,
            _ => true,
        }
    }

    /// Whether the step can succeed without attaching a layer.
    pub open spec fn can_attach_nothing(self) -> bool {
        match self {
            StepView::Otlp { .. } => true,
            _ => !self.can_attach(),
        }
    }

    /// Whether the step can fail with an error of its own.
    pub open spec fn can_fail(self) -> bool {
        self is CreateDir || self is ParquetFile
    }
}

/// Whether performing a step can come to `outcome`.
pub open spec fn fits<C, S, E>(step: StepView, outcome: StepOutcome<C, S, E>) -> bool {
    match outcome {
        StepOutcome::Done => step.can_attach_nothing(),
        StepOutcome::Attached { shutdown_items, .. } => step.can_attach()
            && step.leaves_to_shut_down(shutdown_items@.len()),
        StepOutcome::OpenFailed(_) => step.open_failure() is Some,
        StepOutcome::Failed(_) => step.can_fail(),
    }
}

impl<'a> LayerStep<'a> {
    /// What the error message says before the reason, where the file of the step cannot be
    /// opened.
    pub fn open_failure(&self) -> (r: Option<&'static str>)
        ensures
            opt_str(r) == self@.open_failure(),
    {
        match self {
            LayerStep::JsonlFile { .. } => Some("Failed to open telemetry jsonl file for append: "),
            LayerStep::ParquetFile { .. } => Some("Failed to create parquet file: "),
            LayerStep::FileLog { .. } => Some("Failed to open log file for append: "),
            LayerStep::QueryLog { .. } => Some("Failed to open query log file: "),
            _ => None,
        }
    }

    /// Tells `provider` where the log file is, if that is what the step is about. Other steps
    /// do not concern it.
    pub fn announce<P: TracingConfigProvider>(&self, provider: &mut P) -> (r: bool)
        ensures
            r == (self@ is SetFileLogPath),
            final(provider).keeps() == old(provider).keeps(),
            final(provider).options() == old(provider).options(),
            final(provider).log_file() == (match self@ {
                StepView::SetFileLogPath { file } if old(provider).keeps() => file,
                _ => old(provider).log_file(),
            }),
    {
        match self {
            LayerStep::SetFileLogPath { file } => {
                provider.set_file_log_path(file.clone());
                true
            },
            _ => false,
        }
    }

    /// Whether performing the step can come to `outcome`.
    pub fn accepts<C, S, E>(&self, outcome: &StepOutcome<C, S, E>) -> (r: bool)
        ensures
            r == fits(self@, *outcome),
    {
        match outcome {
            StepOutcome::Done => match self {
                LayerStep::CreateDir { .. } => true,
                LayerStep::FileLog { sink, .. } => sink.is_none(),
                LayerStep::SetFileLogPath { .. } => true,
                LayerStep::Otlp { .. } => true,
                LayerStep::Abort { .. } => true,
                _ => false,
            },
            StepOutcome::Attached { shutdown_items, .. } => match self {
                LayerStep::JsonlFile { .. } => shutdown_items.len() == 1,
                LayerStep::ParquetFile { .. } => shutdown_items.len() == 1,
                LayerStep::Console { .. } => shutdown_items.len() == 0,
                LayerStep::FileLog { sink, .. } => sink.is_some() && shutdown_items.len() == 1,
                LayerStep::QueryLog { .. } => shutdown_items.len() == 1,
                LayerStep::Otlp { .. } => true,
                _ => false,
            },
            StepOutcome::OpenFailed(_) => self.open_failure().is_some(),
            StepOutcome::Failed(_) => match self {
                LayerStep::CreateDir { .. } => true,
                LayerStep::ParquetFile { .. } => true,
                _ => false,
            },
        }
    }
}

/// The steps to a JSON lines sink in a file.
pub fn build_jsonl_file_consumer<'a>(
    file_path: &FsPath,
    max_verbosity: LevelFilter,
    platform: Platform,
) -> (r: Vec<LayerStep<'a>>)
    ensures
        step_views(r@) == jsonl_steps(platform, Some(file_path@), max_verbosity),
{
    let mut steps: Vec<LayerStep<'a>> = Vec::new();
    if let Some(dir) = file_path.parent_on(platform) {
        steps.push(LayerStep::CreateDir { dir });
    }
    steps.push(
        LayerStep::JsonlFile {
            path: file_path.clone(),
            max_verbosity,
            preprocessor: LogPreprocessor::StripEscapes,
        },
    );
    assert(step_views(steps@) =~= jsonl_steps(platform, Some(file_path@), max_verbosity));
    steps
}

/// The steps to the log file, and its path. The path is known even where the file has no sink.
pub fn build_file_log_consumer<'a>(
    max_file_log_verbosity: LevelFilter,
    log_path: &FsPath,
    log_file_name: Option<&str>,
    log_file_max_bytes: u64,
    log_format: LogFormat,
    invocation_id: u128,
    command: FsCommand,
    command_name: &'static str,
    platform: Platform,
) -> (r: (Vec<LayerStep<'a>>, Option<FsPath>))
    ensures
        opt_path(r.1) == log_file_path(
            platform,
            max_file_log_verbosity,
            log_path@,
            opt_str(log_file_name),
        ),
        step_views(r.0@) == file_log_steps(
            log_path@,
            log_file_path(
            platform,
            max_file_log_verbosity,
            log_path@,
            opt_str(log_file_name),
        ),
            log_file_max_bytes,
            file_log_layer(
                max_file_log_verbosity,
                log_format,
                invocation_id,
                command,
                command_name,
            ),
        ),
{
    let mut steps: Vec<LayerStep<'a>> = Vec::new();
    if max_file_log_verbosity == LevelFilter::Off {
        assert(step_views(steps@) =~= Seq::empty());
        return (steps, None);
    }
    let path: FsPath = match log_file_name {
        Some(name) => log_path.join_text_on(name, platform),
        None => log_path.join_text_on(DBT_DEFAULT_LOG_FILE_NAME, platform),
    };
    let sink: Option<FileLogLayer> = match log_format {
        LogFormat::Default | LogFormat::Text => Some(
            FileLogLayer::Text { max_verbosity: max_file_log_verbosity },
        ),
        LogFormat::Json => Some(
            FileLogLayer::Json {
                max_verbosity: max_file_log_verbosity,
                invocation_id,
                command,
                command_name,
            },
        ),
        LogFormat::Otel => None,
    };
    steps.push(LayerStep::CreateDir { dir: log_path.clone() });
    steps.push(
        LayerStep::FileLog {
            path: path.clone(),
            max_bytes: log_file_max_bytes,
            backup_count: DBT_DEFAULT_LOG_FILE_BACKUP_COUNT,
            sink,
        },
    );
    assert(step_views(steps@) =~= file_log_steps(
        log_path@,
        Some(path@),
        log_file_max_bytes,
        sink,
    ));
    (steps, Some(path))
}

/// The layers of a telemetry pipeline. `K` is the type of handles to a configuration provider,
/// `C` that of attached sinks, `S` that of what has to be shut down later.
#[derive(Debug)]
pub struct FsTraceLayers<K, C, S> {
    pub middleware_layers: Vec<MiddlewareLayer<K>>,
    pub consumer_layers: Vec<C>,
    pub shutdown_items: Vec<S>,
}

impl<K, C, S> FsTraceLayers<K, C, S> {
    /// The layers, one list after the other.
    pub fn into_parts(self) -> (r: (Vec<MiddlewareLayer<K>>, Vec<C>, Vec<S>))
        ensures
            r == (self.middleware_layers, self.consumer_layers, self.shutdown_items),
    {
        (self.middleware_layers, self.consumer_layers, self.shutdown_items)
    }
}

/// Whether an outcome ends the build.
pub open spec fn is_failure<C, S, E>(outcome: StepOutcome<C, S, E>) -> bool {
    outcome is OpenFailed || outcome is Failed
}

/// Whether a failed step ends the build with `error`.
pub open spec fn fails_with<C, S, E>(
    step: StepView,
    outcome: StepOutcome<C, S, E>,
    error: LayerError<E>,
) -> bool {
    match outcome {
        StepOutcome::OpenFailed(reason) => error matches LayerError::Fs(e) && e.code
            == ErrorCode::IoError && e.message@ == step.open_failure()->0 + reason@,
        StepOutcome::Failed(e) => error == LayerError::Step(e),
        _ => false,
    }
}

/// Whether `outcomes` is what performing the first of `steps` came to. That of a step about the
/// provider is not performed outside.
pub open spec fn performed<'a, C, S, E, F: Fn(&LayerStep<'a>) -> StepOutcome<C, S, E>>(
    perform: F,
    steps: Seq<LayerStep<'a>>,
    outcomes: Seq<StepOutcome<C, S, E>>,
) -> bool {
    &&& outcomes.len() <= steps.len()
    &&& forall|i: int|
        0 <= i < outcomes.len() ==> {
            &&& fits(steps[i]@, #[trigger] outcomes[i])
            &&& !(steps[i]@ is Abort)
            &&& steps[i]@ is SetFileLogPath || perform.ensures((&steps[i],), outcomes[i])
        }
}

/// The layers that were attached, in order.
pub open spec fn attached_layers<C, S, E>(outcomes: Seq<StepOutcome<C, S, E>>) -> Seq<C>
    decreases outcomes.len(),
{
    if outcomes.len() == 0 {
        Seq::empty()
    } else {
        match outcomes.last() {
            StepOutcome::Attached { layer, .. } => attached_layers(outcomes.drop_last()).push(
                layer,
            ),
            _ => attached_layers(outcomes.drop_last()),
        }
    }
}

/// What the attached layers leave to be shut down, in order.
pub open spec fn left_to_shut_down<C, S, E>(outcomes: Seq<StepOutcome<C, S, E>>) -> Seq<S>
    decreases outcomes.len(),
{
    if outcomes.len() == 0 {
        Seq::empty()
    } else {
        match outcomes.last() {
            StepOutcome::Attached { shutdown_items, .. } => left_to_shut_down(outcomes.drop_last())
                + shutdown_items@,
            _ => left_to_shut_down(outcomes.drop_last()),
        }
    }
}

/// The path of the log file that a provider knows after some steps.
pub open spec fn log_file_after(steps: Seq<StepView>, before: Option<Seq<u8>>) -> Option<Seq<u8>>
    decreases steps.len(),
{
    if steps.len() == 0 {
        before
    } else {
        match steps.last() {
            StepView::SetFileLogPath { file } => file,
            _ => log_file_after(steps.drop_last(), before),
        }
    }
}

/// Whether `r` is what building the layers of `config` came to, where `outcomes` is what its
/// steps came to. The layers are there once every step succeeded; the first failure ends the
/// build, and so does a step to give up.
pub open spec fn is_built<'a, K, C, S, E, F: Fn(&LayerStep<'a>) -> StepOutcome<C, S, E>>(
    config: FsTraceConfig,
    config_provider: K,
    version: &'static str,
    perform: F,
    steps: Seq<LayerStep<'a>>,
    outcomes: Seq<StepOutcome<C, S, E>>,
    r: Result<FsTraceLayers<K, C, S>, LayerError<E>>,
) -> bool {
    &&& step_views(steps) == layer_plan(config, version)
    &&& performed(perform, steps, outcomes)
    &&& match r {
        Ok(layers) => {
            &&& outcomes.len() == steps.len()
            &&& forall|i: int| 0 <= i < outcomes.len() ==> !is_failure(#[trigger] outcomes[i])
            &&& layers.middleware_layers@ == shared_middleware(
                config.show_all_deprecations,
                config_provider,
                config.skip_fusion_only_upgrades,
            )
            &&& layers.consumer_layers@ == attached_layers(outcomes)
            &&& layers.shutdown_items@ == left_to_shut_down(outcomes)
        },
        Err(error) => {
            let n = outcomes.len() as int;
            if n > 0 && is_failure(outcomes[n - 1]) {
                &&& forall|i: int| 0 <= i < n - 1 ==> !is_failure(#[trigger] outcomes[i])
                &&& fails_with(steps[n - 1]@, outcomes[n - 1], error)
            } else {
                &&& forall|i: int| 0 <= i < n ==> !is_failure(#[trigger] outcomes[i])
                &&& n < steps.len()
                &&& steps[n]@ matches StepView::Abort { code, message }
                &&& error matches LayerError::Fs(e)
                &&& e.code == code
                &&& e.message@ == message
            }
        },
    }
}

/// Whether `after` is `before` once the build got as far as `outcomes` say: it heard of the log
/// file if that step was reached, and nothing else changed.
pub open spec fn is_told<C, S, E, P: TracingConfigProvider>(
    config: FsTraceConfig,
    version: &'static str,
    outcomes: Seq<StepOutcome<C, S, E>>,
    before: P,
    after: P,
) -> bool {
    &&& after.keeps() == before.keeps()
    &&& after.options() == before.options()
    &&& after.log_file() == if before.keeps() {
        log_file_after(layer_plan(config, version).take(outcomes.len() as int), before.log_file())
    } else {
        before.log_file()
    }
}

/// Whether `r` and `after` are what building the layers of `config` came to.
pub open spec fn layers_built<
    'a,
    K,
    P: TracingConfigProvider,
    C,
    S,
    E,
    F: Fn(&LayerStep<'a>) -> StepOutcome<C, S, E>,
>(
    config: FsTraceConfig,
    config_provider: K,
    before: P,
    after: P,
    version: &'static str,
    perform: F,
    r: Result<FsTraceLayers<K, C, S>, LayerError<E>>,
) -> bool {
    exists|steps: Seq<LayerStep<'a>>, outcomes: Seq<StepOutcome<C, S, E>>|
        {
            &&& #[trigger] is_built(
                config,
                config_provider,
                version,
                perform,
                steps,
                outcomes,
                r,
            )
            &&& is_told(config, version, outcomes, before, after)
        }
}

/// Adds `more` to `steps`.
fn extend_steps<'a>(steps: &mut Vec<LayerStep<'a>>, more: Vec<LayerStep<'a>>)
    ensures
        step_views(final(steps)@) == step_views(old(steps)@) + step_views(more@),
{
    let mut tail: Vec<LayerStep<'a>> = more;
    steps.append(&mut tail);
    assert(step_views(steps@) =~= step_views(old(steps)@) + step_views(more@));
}

/// A list of one step.
fn one_step<'a>(step: LayerStep<'a>) -> (r: Vec<LayerStep<'a>>)
    ensures
        step_views(r@) == seq![step@],
{
    let r: Vec<LayerStep<'a>> = vec![step];
    assert(step_views(r@) =~= seq![step@]);
    r
}

/// The empty list of steps.
fn no_steps<'a>() -> (r: Vec<LayerStep<'a>>)
    ensures
        step_views(r@) == Seq::<StepView>::empty(),
{
    let r: Vec<LayerStep<'a>> = Vec::new();
    assert(step_views(r@) =~= Seq::<StepView>::empty());
    r
}

/// The steps to a Parquet sink in a file. A path without a parent directory ends the build.
fn build_parquet_file_consumer<'a>(file_path: &FsPath, platform: Platform) -> (r: Vec<
    LayerStep<'a>,
>)
    ensures
        step_views(r@) == parquet_steps(platform, Some(file_path@)),
{
    match file_path.parent_on(platform) {
        Some(dir) => {
            let mut steps: Vec<LayerStep<'a>> = one_step(LayerStep::CreateDir { dir });
            extend_steps(
                &mut steps,
                one_step(LayerStep::ParquetFile { path: file_path.clone() }),
            );
            assert(step_views(steps@) =~= parquet_steps(platform, Some(file_path@)));
            steps
        },
        None => one_step(
            LayerStep::Abort {
                error: FsError::with_message(
                    ErrorCode::IoError,
                    "Failed to get parent directory for file path",
                ),
            },
        ),
    }
}

impl FsTraceConfig {
    /// The sink on the terminal.
    fn build_console_consumer<'a>(&'a self) -> (r: ConsoleLayer<'a>)
        ensures
            r@ == console_layer(*self),
    {
        match self.log_format {
            LogFormat::Default | LogFormat::Text => ConsoleLayer::Tui {
                max_verbosity: self.max_log_verbosity,
                format: self.log_format,
                show_options: &self.show_options,
                command: self.command,
            },
            LogFormat::Json => ConsoleLayer::Json {
                max_verbosity: self.max_log_verbosity,
                invocation_id: self.invocation_id,
                command: self.command,
                brand_name: self.brand_name,
            },
            LogFormat::Otel => ConsoleLayer::Jsonl {
                max_verbosity: self.max_log_verbosity,
                preprocessor: LogPreprocessor::StripEscapes,
            },
        }
    }

    /// The steps to the layers of the configuration. `version` is that of the program.
    pub fn layer_steps<'a>(&'a self, version: &'static str) -> (r: Vec<LayerStep<'a>>)
        ensures
            step_views(r@) == layer_plan(*self, version),
    {
        let mut steps: Vec<LayerStep<'a>> = match &self.otel_file_path {
            Some(path) => build_jsonl_file_consumer(
                path,
                self.max_file_log_verbosity,
                self.platform,
            ),
            None => no_steps(),
        };
        let parquet: Vec<LayerStep<'a>> = match &self.otel_parquet_file_path {
            Some(path) => build_parquet_file_consumer(path, self.platform),
            None => no_steps(),
        };
        extend_steps(&mut steps, parquet);
        extend_steps(
            &mut steps,
            one_step(LayerStep::Console { layer: self.build_console_consumer() }),
        );
        let log_dir: Vec<LayerStep<'a>> = if self.enable_query_log || self.max_file_log_verbosity
            != LevelFilter::Off {
            one_step(LayerStep::CreateDir { dir: self.log_path.clone() })
        } else {
            no_steps()
        };
        extend_steps(&mut steps, log_dir);
        let format: LogFormat = match self.file_log_format {
            Some(format) => format,
            None => self.log_format,
        };
        let log_file_name: Option<&str> = match &self.log_file_name {
            Some(name) => Some(name.as_str()),
            None => None,
        };
        let (file_log, file_log_path) = build_file_log_consumer(
            self.max_file_log_verbosity,
            &self.log_path,
            log_file_name,
            self.log_file_max_bytes,
            format,
            self.invocation_id,
            self.command,
            self.brand_name,
            self.platform,
        );
        extend_steps(&mut steps, file_log);
        extend_steps(&mut steps, one_step(LayerStep::SetFileLogPath { file: file_log_path }));
        let query_log: Vec<LayerStep<'a>> = if self.enable_query_log {
            one_step(
                LayerStep::QueryLog {
                    path: self.log_path.join_text_on(
                        DBT_DEFAULT_QUERY_LOG_FILE_NAME,
                        self.platform,
                    ),
                },
            )
        } else {
            no_steps()
        };
        extend_steps(&mut steps, query_log);
        let otlp: Vec<LayerStep<'a>> = if self.export_to_otlp {
            one_step(
                LayerStep::Otlp {
                    service_name: self.brand_name,
                    version,
                    preprocessor: LogPreprocessor::StripEscapes,
                },
            )
        } else {
            no_steps()
        };
        extend_steps(&mut steps, otlp);
        steps
    }

    /// Builds the layers of the configuration. `perform` performs a step that touches files or
    /// makes a sink; `config_provider` is the handle by which the stage of warn-error options
    /// asks its provider, and `provider` that provider, which is told where the log file is.
    pub fn build_layers<
        'a,
        K,
        P: TracingConfigProvider,
        C,
        S,
        E,
        F: Fn(&LayerStep<'a>) -> StepOutcome<C, S, E>,
    >(
        &'a self,
        config_provider: K,
        provider: &mut P,
        version: &'static str,
        perform: F,
    ) -> (r: Result<FsTraceLayers<K, C, S>, LayerError<E>>)
        requires
            forall|step: &LayerStep<'a>| perform.requires((step,)),
            forall|step: &LayerStep<'a>, outcome: StepOutcome<C, S, E>| #[trigger]
                perform.ensures((step,), outcome) ==> fits(step@, outcome),
        ensures
            layers_built(
                *self,
                config_provider,
                *old(provider),
                *final(provider),
                version,
                perform,
                r,
            ),
    {
        let steps: Vec<LayerStep<'a>> = self.layer_steps(version);
        let mut consumer_layers: Vec<C> = Vec::new();
        let mut shutdown_items: Vec<S> = Vec::new();
        let ghost plan = layer_plan(*self, version);
        let ghost mut outcomes: Seq<StepOutcome<C, S, E>> = Seq::empty();
        let mut done: usize = 0;
        assert(plan.take(0) =~= Seq::empty());
        while done < steps.len()
            invariant
                forall|step: &LayerStep<'a>| perform.requires((step,)),
                forall|step: &LayerStep<'a>, outcome: StepOutcome<C, S, E>| #[trigger]
                    perform.ensures((step,), outcome) ==> fits(step@, outcome),
                plan == layer_plan(*self, version),
                step_views(steps@) == plan,
                done == outcomes.len(),
                done <= steps@.len(),
                performed(perform, steps@, outcomes),
                forall|i: int| 0 <= i < done ==> !is_failure(#[trigger] outcomes[i]),
                consumer_layers@ == attached_layers(outcomes),
                shutdown_items@ == left_to_shut_down(outcomes),
                is_told(*self, version, outcomes, *old(provider), *provider),
            decreases steps@.len() - done,
        {
            let ghost so_far = outcomes;
            assert(plan[done as int] == steps@[done as int]@);
            if let LayerStep::Abort { error } = &steps[done] {
                let error: FsError = FsError::with_message(error.code, error.message.as_str());
                let r: Result<FsTraceLayers<K, C, S>, LayerError<E>> = Err(LayerError::Fs(error));
                assert(is_built(
                    *self,
                    config_provider,
                    version,
                    perform,
                    steps@,
                    outcomes,
                    r,
                ));
                return r;
            }
            let outcome: StepOutcome<C, S, E> = if steps[done].announce(provider) {
                StepOutcome::Done
            } else {
                perform(&steps[done])
            };
            proof {
                outcomes = outcomes.push(outcome);
                assert(outcomes.drop_last() =~= so_far);
                assert(plan.take(done + 1).drop_last() =~= plan.take(done as int));
                assert(plan.take(done + 1).last() == plan[done as int]);
                assert forall|i: int| 0 <= i < outcomes.len() implies {
                    &&& fits(steps@[i]@, #[trigger] outcomes[i])
                    &&& !(steps@[i]@ is Abort)
                    &&& steps@[i]@ is SetFileLogPath || perform.ensures(
                        (&steps@[i],),
                        outcomes[i],
                    )
                } by {
                    if i < done {
                        assert(outcomes[i] == so_far[i]);
                    }
                }
                assert forall|i: int| 0 <= i < done implies !is_failure(
                    #[trigger] outcomes[i],
                ) by {
                    assert(outcomes[i] == so_far[i]);
                }
            }
            match outcome {
                StepOutcome::Done => {},
                StepOutcome::Attached { layer, shutdown_items: items } => {
                    let mut more: Vec<S> = items;
                    shutdown_items.append(&mut more);
                    consumer_layers.push(layer);
                },
                StepOutcome::OpenFailed(reason) => {
                    let context: &'static str = match steps[done].open_failure() {
                        Some(context) => context,
                        None => "",
                    };
                    let error: FsError = FsError::with_detail(
                        ErrorCode::IoError,
                        context,
                        reason.as_str(),
                    );
                    let r: Result<FsTraceLayers<K, C, S>, LayerError<E>> = Err(
                        LayerError::Fs(error),
                    );
                    assert(is_built(
                        *self,
                        config_provider,
                        version,
                        perform,
                        steps@,
                        outcomes,
                        r,
                    ));
                    return r;
                },
                StepOutcome::Failed(e) => {
                    let r: Result<FsTraceLayers<K, C, S>, LayerError<E>> = Err(
                        LayerError::Step(e),
                    );
                    assert(is_built(
                        *self,
                        config_provider,
                        version,
                        perform,
                        steps@,
                        outcomes,
                        r,
                    ));
                    return r;
                },
            }
            done += 1;
        }
        let r: Result<FsTraceLayers<K, C, S>, LayerError<E>> = Ok(
            FsTraceLayers {
                middleware_layers: build_shared_middleware_layers(
                    self.show_all_deprecations,
                    config_provider,
                    self.skip_fusion_only_upgrades,
                ),
                consumer_layers,
                shutdown_items,
            },
        );
        assert(is_built(*self, config_provider, version, perform, steps@, outcomes, r));
        r
    }
}

} // verus!

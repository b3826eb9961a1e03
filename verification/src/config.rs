//! Where trace data and logs of a command go, and how they are labelled.

use crate::feature_handles::FsTracingConfigProvider;
use crate::feature_handles::TracingConfigProvider;
use crate::level::LevelFilter;
use crate::outside::clone_texts;
use crate::outside::fresh_v7;
use crate::outside::is_v7;
use crate::path::opt_path;
use crate::path::opt_path_ref;
use crate::path::FsPath;
use crate::platform::is_absolute_on;
use crate::platform::joined_on;
use crate::platform::joined_text;
use crate::platform::Platform;
use crate::platform_laws::law_absolute_tail_replaces;
use crate::warn_error_options::no_options;
use crate::warn_error_options::WarnErrorOptions;
use std::collections::HashSet;
use vstd::prelude::*;

verus! {

/// The directory of log files, seen from the project directory.
pub const DBT_LOG_DIR_NAME: &'static str = "logs";

/// The directory of build outputs, seen from the project directory.
pub const DBT_TARGET_DIR_NAME: &'static str = "target";

/// The file that marks a project directory.
pub const DBT_PROJECT_YML: &'static str = "dbt_project.yml";

/// The directories between the target directory and the Parquet trace output.
pub const DBT_PRIVATE_DIR_NAME: &'static str = "private";

/// The directory of the Parquet trace output.
pub const DBT_METADATA_DIR_NAME: &'static str = "metadata";

/// The size at which a log file is rotated, unless another one is asked for.
pub const DBT_DEFAULT_LOG_FILE_MAX_BYTES: u64 = 10485760;

/// How log lines are written.
#[derive(Clone, Copy, Debug, PartialEq, Eq, Structural)]
pub enum LogFormat {
    Default,
    Text,
    Json,
    Otel,
}

/// The command that is being executed.
#[derive(Clone, Copy, Debug, PartialEq, Eq)]
pub enum FsCommand {
    Unset,
    Named(&'static str),
}

/// The view of an optional text.
pub open spec fn opt_text(s: Option<String>) -> Option<Seq<char>> {
    match s {
        Some(t) => Some(t@),
        None => None,
    }
}

/// The view of an optional borrowed text.
pub open spec fn opt_str(s: Option<&str>) -> Option<Seq<char>> {
    match s {
        Some(t) => Some(t@),
        None => None,
    }
}

/// A copy of an optional text.
fn owned_text(s: Option<&str>) -> (r: Option<String>)
    ensures
        opt_text(r) == opt_str(s),
{
    match s {
        Some(t) => Some(t.to_owned()),
        None => None,
    }
}

/// A copy of an optional path.
fn owned_path(p: Option<&FsPath>) -> (r: Option<FsPath>)
    ensures
        opt_path(r) == opt_path_ref(p),
{
    match p {
        Some(q) => Some(q.clone()),
        None => None,
    }
}

/// The arguments of a command that say where its logs go.
#[derive(Debug)]
pub struct IoArgs {
    pub log_path: Option<FsPath>,
    pub max_log_verbosity: LevelFilter,
    pub max_file_log_verbosity: LevelFilter,
    pub otel_file_name: Option<String>,
    pub otel_parquet_file_name: Option<String>,
    pub invocation_id: u128,
    pub otel_parent_span_id: Option<u64>,
    pub export_to_otlp: bool,
    pub log_format: LogFormat,
    pub log_format_file: Option<LogFormat>,
    pub show: HashSet<String>,
    pub show_all_deprecations: bool,
    pub log_file_max_bytes: u64,
}

/// Configuration for tracing: where trace data is written, and the metadata of the top-level
/// span and of trace correlation.
#[derive(Debug)]
pub struct FsTraceConfig {
    /// Name of the package emitting the telemetry, e.g. `dbt-cli` or `dbt-lsp`.
    pub package: &'static str,
    /// User-facing brand name shown in the version banner and JSON log lines.
    pub brand_name: &'static str,
    /// The command being executed.
    pub command: FsCommand,
    /// Maximum verbosity of the terminal and JSONL log sinks.
    pub max_log_verbosity: LevelFilter,
    /// Maximum verbosity of the file log sink.
    pub max_file_log_verbosity: LevelFilter,
    /// Resolved path of the JSONL trace output, if that output is enabled.
    pub otel_file_path: Option<FsPath>,
    /// Resolved path of the Parquet trace output, if that output is enabled.
    pub otel_parquet_file_path: Option<FsPath>,
    /// Resolved directory of the log files.
    pub log_path: FsPath,
    /// Name of the log file, if it is not the default one.
    pub log_file_name: Option<String>,
    /// Size at which a log file is rotated; `0` means never.
    pub log_file_max_bytes: u64,
    /// Identifier of the invocation, used as trace identifier.
    pub invocation_id: u128,
    /// Parent span of root spans, if the invocation belongs to another trace.
    pub parent_span_id: Option<u64>,
    /// Whether traces are forwarded to OTLP endpoints.
    pub export_to_otlp: bool,
    /// Format of log lines.
    pub log_format: LogFormat,
    /// Format of log lines in the log file, if it differs.
    pub file_log_format: Option<LogFormat>,
    /// Whether queries are written to a log file of their own.
    pub enable_query_log: bool,
    /// What the terminal shows.
    pub show_options: HashSet<String>,
    /// Show all deprecations instead of one per package.
    pub show_all_deprecations: bool,
    /// Warn-error options before project flags are resolved.
    pub warn_error_options: WarnErrorOptions,
    /// Withholds upgrades of warnings with no dbt-core counterpart; set while replaying.
    pub skip_fusion_only_upgrades: bool,
    /// The platform whose rules the paths follow.
    pub platform: Platform,
}

/// Builder for [`FsTraceConfig`]. Every field but `package` has a default, and paths are
/// resolved by [`FsTraceConfigBuilder::build`].
#[derive(Debug)]
pub struct FsTraceConfigBuilder {
    pub package: &'static str,
    pub brand_name: &'static str,
    pub command: FsCommand,
    pub project_dir: Option<FsPath>,
    pub target_path: Option<FsPath>,
    pub log_path: Option<FsPath>,
    pub max_log_verbosity: LevelFilter,
    pub max_file_log_verbosity: LevelFilter,
    pub otel_file_name: Option<String>,
    pub otel_parquet_file_name: Option<String>,
    pub log_file_name: Option<String>,
    pub log_file_max_bytes: u64,
    pub invocation_id: u128,
    pub parent_span_id: Option<u64>,
    pub export_to_otlp: bool,
    pub log_format: LogFormat,
    pub file_log_format: Option<LogFormat>,
    pub enable_query_log: bool,
    pub show_options: HashSet<String>,
    pub show_all_deprecations: bool,
    pub warn_error_options: WarnErrorOptions,
    pub skip_fusion_only_upgrades: bool,
}

impl Clone for FsTraceConfig {
    fn clone(&self) -> (r: Self)
        ensures
            opt_path(r.otel_file_path) == opt_path(self.otel_file_path),
            opt_path(r.otel_parquet_file_path) == opt_path(self.otel_parquet_file_path),
            r.log_path@ == self.log_path@,
            r.show_options@ == self.show_options@,
            r.warn_error_options@ == self.warn_error_options@,
            r == (FsTraceConfig {
                otel_file_path: r.otel_file_path,
                otel_parquet_file_path: r.otel_parquet_file_path,
                log_path: r.log_path,
                show_options: r.show_options,
                warn_error_options: r.warn_error_options,
                ..*self
            }),
    {
        FsTraceConfig {
            package: self.package,
            brand_name: self.brand_name,
            command: self.command,
            max_log_verbosity: self.max_log_verbosity,
            max_file_log_verbosity: self.max_file_log_verbosity,
            otel_file_path: owned_path(self.otel_file_path.as_ref()),
            otel_parquet_file_path: owned_path(self.otel_parquet_file_path.as_ref()),
            log_path: self.log_path.clone(),
            log_file_name: self.log_file_name.clone(),
            log_file_max_bytes: self.log_file_max_bytes,
            invocation_id: self.invocation_id,
            parent_span_id: self.parent_span_id,
            export_to_otlp: self.export_to_otlp,
            log_format: self.log_format,
            file_log_format: self.file_log_format,
            enable_query_log: self.enable_query_log,
            show_options: clone_texts(&self.show_options),
            show_all_deprecations: self.show_all_deprecations,
            warn_error_options: self.warn_error_options.clone(),
            skip_fusion_only_upgrades: self.skip_fusion_only_upgrades,
            platform: self.platform,
        }
    }
}

impl Clone for FsTraceConfigBuilder {
    fn clone(&self) -> (r: Self)
        ensures
            opt_path(r.project_dir) == opt_path(self.project_dir),
            opt_path(r.target_path) == opt_path(self.target_path),
            opt_path(r.log_path) == opt_path(self.log_path),
            r.show_options@ == self.show_options@,
            r.warn_error_options@ == self.warn_error_options@,
            r == (FsTraceConfigBuilder {
                project_dir: r.project_dir,
                target_path: r.target_path,
                log_path: r.log_path,
                show_options: r.show_options,
                warn_error_options: r.warn_error_options,
                ..*self
            }),
    {
        FsTraceConfigBuilder {
            package: self.package,
            brand_name: self.brand_name,
            command: self.command,
            project_dir: owned_path(self.project_dir.as_ref()),
            target_path: owned_path(self.target_path.as_ref()),
            log_path: owned_path(self.log_path.as_ref()),
            max_log_verbosity: self.max_log_verbosity,
            max_file_log_verbosity: self.max_file_log_verbosity,
            otel_file_name: self.otel_file_name.clone(),
            otel_parquet_file_name: self.otel_parquet_file_name.clone(),
            log_file_name: self.log_file_name.clone(),
            log_file_max_bytes: self.log_file_max_bytes,
            invocation_id: self.invocation_id,
            parent_span_id: self.parent_span_id,
            export_to_otlp: self.export_to_otlp,
            log_format: self.log_format,
            file_log_format: self.file_log_format,
            enable_query_log: self.enable_query_log,
            show_options: clone_texts(&self.show_options),
            show_all_deprecations: self.show_all_deprecations,
            warn_error_options: self.warn_error_options.clone(),
            skip_fusion_only_upgrades: self.skip_fusion_only_upgrades,
        }
    }
}

/// Whether `b` is the builder that every configuration starts from.
pub open spec fn is_default_builder(
    b: FsTraceConfigBuilder,
    package: &'static str,
    brand_name: &'static str,
    invocation_id: u128,
) -> bool {
    &&& b.package == package
    &&& b.brand_name == brand_name
    &&& b.command == FsCommand::Unset
    &&& b.project_dir is None
    &&& b.target_path is None
    &&& b.log_path is None
    &&& b.max_log_verbosity == LevelFilter::Info
    &&& b.max_file_log_verbosity == LevelFilter::Debug
    &&& b.otel_file_name is None
    &&& b.otel_parquet_file_name is None
    &&& b.log_file_name is None
    &&& b.log_file_max_bytes == DBT_DEFAULT_LOG_FILE_MAX_BYTES
    &&& b.invocation_id == invocation_id
    &&& b.parent_span_id is None
    &&& !b.export_to_otlp
    &&& b.log_format == LogFormat::Default
    &&& b.file_log_format is None
    &&& !b.enable_query_log
    &&& b.show_options@ == Set::<String>::empty()
    &&& !b.show_all_deprecations
    &&& b.warn_error_options@ == no_options()
    &&& !b.skip_fusion_only_upgrades
}

/// Whether `b` is the builder for the given arguments.
pub open spec fn is_builder_for(
    b: FsTraceConfigBuilder,
    package: &'static str,
    brand_name: &'static str,
    io_args: IoArgs,
) -> bool {
    &&& b.package == package
    &&& b.brand_name == brand_name
    &&& b.command == FsCommand::Unset
    &&& b.project_dir is None
    &&& b.target_path is None
    &&& opt_path(b.log_path) == opt_path(io_args.log_path)
    &&& b.max_log_verbosity == io_args.max_log_verbosity
    &&& b.max_file_log_verbosity == io_args.max_file_log_verbosity
    &&& opt_text(b.otel_file_name) == opt_text(io_args.otel_file_name)
    &&& opt_text(b.otel_parquet_file_name) == opt_text(io_args.otel_parquet_file_name)
    &&& b.log_file_name is None
    &&& b.log_file_max_bytes == io_args.log_file_max_bytes
    &&& b.invocation_id == io_args.invocation_id
    &&& b.parent_span_id == io_args.otel_parent_span_id
    &&& b.export_to_otlp == io_args.export_to_otlp
    &&& b.log_format == io_args.log_format
    &&& b.file_log_format == io_args.log_format_file
    &&& !b.enable_query_log
    &&& b.show_options@ == io_args.show@
    &&& b.show_all_deprecations == io_args.show_all_deprecations
    &&& b.warn_error_options@ == no_options()
    &&& !b.skip_fusion_only_upgrades
}

/// The project directory: the given one, else the detected one, else the working directory,
/// which is the empty path.
pub open spec fn trace_in_dir(project_dir: Option<Seq<u8>>, detected: Option<Seq<u8>>) -> Seq<u8> {
    match (project_dir, detected) {
        (Some(p), _) => p,
        (None, Some(d)) => d,
        (None, None) => Seq::empty(),
    }
}

/// The target directory: the given one, else `{in_dir}/target`.
pub open spec fn trace_out_dir(
    platform: Platform,
    target_path: Option<Seq<u8>>,
    in_dir: Seq<u8>,
) -> Seq<u8> {
    match target_path {
        Some(t) => t,
        None => joined_text(platform, in_dir, DBT_TARGET_DIR_NAME@),
    }
}

/// The log directory: `{in_dir}/logs`, or the given one, seen from `in_dir`.
pub open spec fn trace_log_dir(
    platform: Platform,
    log_path: Option<Seq<u8>>,
    in_dir: Seq<u8>,
) -> Seq<u8> {
    match log_path {
        Some(p) => joined_on(platform, in_dir, p),
        None => joined_text(platform, in_dir, DBT_LOG_DIR_NAME@),
    }
}

/// The directory of the Parquet trace output: `{out_dir}/private/metadata`.
pub open spec fn metadata_dir(platform: Platform, out_dir: Seq<u8>) -> Seq<u8> {
    joined_text(
        platform,
        joined_text(platform, out_dir, DBT_PRIVATE_DIR_NAME@),
        DBT_METADATA_DIR_NAME@,
    )
}

/// A file of the given name in `dir`, if there is a name.
pub open spec fn named_file(
    platform: Platform,
    dir: Seq<u8>,
    name: Option<String>,
) -> Option<Seq<u8>> {
    match name {
        Some(n) => Some(joined_text(platform, dir, n@)),
        None => None,
    }
}

/// Whether `c` is what `b` resolves to, where `detected` is the project directory that was
/// found without one being given.
pub open spec fn is_built_from(
    c: FsTraceConfig,
    b: FsTraceConfigBuilder,
    detected: Option<Seq<u8>>,
    platform: Platform,
) -> bool {
    let in_dir = trace_in_dir(opt_path(b.project_dir), detected);
    let out_dir = trace_out_dir(platform, opt_path(b.target_path), in_dir);
    let log_dir = trace_log_dir(platform, opt_path(b.log_path), in_dir);
    &&& c.platform == platform
    &&& c.package == b.package
    &&& c.brand_name == b.brand_name
    &&& c.command == b.command
    &&& c.max_log_verbosity == b.max_log_verbosity
    &&& c.max_file_log_verbosity == b.max_file_log_verbosity
    &&& opt_path(c.otel_file_path) == named_file(platform, log_dir, b.otel_file_name)
    &&& opt_path(c.otel_parquet_file_path) == named_file(
        platform,
        metadata_dir(platform, out_dir),
        b.otel_parquet_file_name,
    )
    &&& c.log_path@ == log_dir
    &&& c.log_file_name == b.log_file_name
    &&& c.log_file_max_bytes == b.log_file_max_bytes
    &&& c.invocation_id == b.invocation_id
    &&& c.parent_span_id == b.parent_span_id
    &&& c.export_to_otlp == b.export_to_otlp
    &&& c.log_format == b.log_format
    &&& c.file_log_format == b.file_log_format
    &&& c.enable_query_log == b.enable_query_log
    &&& c.show_options == b.show_options
    &&& c.show_all_deprecations == b.show_all_deprecations
    &&& c.warn_error_options == b.warn_error_options
    &&& c.skip_fusion_only_upgrades == b.skip_fusion_only_upgrades
}

/// Where nothing is set, logs go to `logs` in the detected project directory, or in the working
/// directory where none was detected, and no trace data is written to files.
pub proof fn law_default_outputs(
    c: FsTraceConfig,
    b: FsTraceConfigBuilder,
    package: &'static str,
    brand_name: &'static str,
    id: u128,
    detected: Option<Seq<u8>>,
    platform: Platform,
)
    requires
        is_default_builder(b, package, brand_name, id),
        is_built_from(c, b, detected, platform),
    ensures
        c.log_path@ == joined_text(
            platform,
            match detected {
                Some(d) => d,
                None => Seq::empty(),
            },
            DBT_LOG_DIR_NAME@,
        ),
        c.otel_file_path is None,
        c.otel_parquet_file_path is None,
        !c.enable_query_log,
        !c.export_to_otlp,
{
}

/// An absolute log path is taken as it is, wherever the project is.
pub proof fn law_absolute_log_path(
    c: FsTraceConfig,
    b: FsTraceConfigBuilder,
    detected: Option<Seq<u8>>,
    platform: Platform,
    path: Seq<u8>,
)
    requires
        opt_path(b.log_path) == Some(path),
        is_absolute_on(platform, path),
        is_built_from(c, b, detected, platform),
    ensures
        c.log_path@ == path,
        opt_path(c.otel_file_path) == named_file(platform, path, b.otel_file_name),
{
    law_absolute_tail_replaces(
        platform,
        trace_in_dir(opt_path(b.project_dir), detected),
        path,
    );
}

/// A given project directory wins over a detected one: what is detected then has no say in any
/// path.
pub proof fn law_given_project_dir_wins(
    c: FsTraceConfig,
    d: FsTraceConfig,
    b: FsTraceConfigBuilder,
    detected_c: Option<Seq<u8>>,
    detected_d: Option<Seq<u8>>,
    platform: Platform,
)
    requires
        b.project_dir is Some,
        is_built_from(c, b, detected_c, platform),
        is_built_from(d, b, detected_d, platform),
    ensures
        c.log_path@ == d.log_path@,
        opt_path(c.otel_file_path) == opt_path(d.otel_file_path),
        opt_path(c.otel_parquet_file_path) == opt_path(d.otel_parquet_file_path),
{
}

impl FsTraceConfigBuilder {
    /// The builder that every configuration starts from, with the given invocation identifier.
    pub fn with_defaults(
        package: &'static str,
        brand_name: &'static str,
        invocation_id: u128,
    ) -> (r: Self)
        ensures
            is_default_builder(r, package, brand_name, invocation_id),
    {
        FsTraceConfigBuilder {
            package,
            brand_name,
            command: FsCommand::Unset,
            project_dir: None,
            target_path: None,
            log_path: None,
            max_log_verbosity: LevelFilter::Info,
            max_file_log_verbosity: LevelFilter::Debug,
            otel_file_name: None,
            otel_parquet_file_name: None,
            log_file_name: None,
            log_file_max_bytes: DBT_DEFAULT_LOG_FILE_MAX_BYTES,
            invocation_id,
            parent_span_id: None,
            export_to_otlp: false,
            log_format: LogFormat::Default,
            file_log_format: None,
            enable_query_log: false,
            show_options: HashSet::new(),
            show_all_deprecations: false,
            warn_error_options: WarnErrorOptions::default(),
            skip_fusion_only_upgrades: false,
        }
    }

    /// The builder that every configuration starts from, with a fresh invocation identifier.
    /// `package` identifies the package emitting telemetry, e.g. `dbt` or `dbt-lsp`.
    pub fn new(package: &'static str, brand_name: &'static str) -> (r: Self)
        ensures
            is_default_builder(r, package, brand_name, r.invocation_id),
            is_v7(r.invocation_id),
    {
        FsTraceConfigBuilder::with_defaults(package, brand_name, fresh_v7())
    }

    /// The builder for the arguments of a command.
    pub fn from_io_args(
        package: &'static str,
        brand_name: &'static str,
        io_args: &IoArgs,
    ) -> (r: Self)
        ensures
            is_builder_for(r, package, brand_name, *io_args),
    {
        FsTraceConfigBuilder::new(package, brand_name)
            .with_log_path(io_args.log_path.as_ref())
            .with_max_log_verbosity(io_args.max_log_verbosity)
            .with_max_file_log_verbosity(io_args.max_file_log_verbosity)
            .with_otel_file_name(
                match &io_args.otel_file_name {
                    Some(name) => Some(name.as_str()),
                    None => None,
                },
            )
            .with_otel_parquet_file_name(
                match &io_args.otel_parquet_file_name {
                    Some(name) => Some(name.as_str()),
                    None => None,
                },
            )
            .with_invocation_id(io_args.invocation_id)
            .with_parent_span_id(io_args.otel_parent_span_id)
            .with_export_to_otlp(io_args.export_to_otlp)
            .with_log_format(io_args.log_format)
            .with_file_log_format(io_args.log_format_file)
            .with_show_options(clone_texts(&io_args.show))
            .with_show_all_deprecations(io_args.show_all_deprecations)
            .with_log_file_max_bytes(io_args.log_file_max_bytes)
    }

    /// The brand name shown in the version banner and JSON log lines.
    pub fn with_brand_name(self, brand_name: &'static str) -> (r: Self)
        ensures
            r == (FsTraceConfigBuilder { brand_name, ..self }),
    {
        FsTraceConfigBuilder { brand_name, ..self }
    }

    /// The command being executed.
    pub fn with_command(self, command: FsCommand) -> (r: Self)
        ensures
            r == (FsTraceConfigBuilder { command, ..self }),
    {
        FsTraceConfigBuilder { command, ..self }
    }

    /// The project directory. If unset, it is detected, falling back to the working directory.
    pub fn with_project_dir(self, project_dir: Option<&FsPath>) -> (r: Self)
        ensures
            opt_path(r.project_dir) == opt_path_ref(project_dir),
            r == (FsTraceConfigBuilder { project_dir: r.project_dir, ..self }),
    {
        FsTraceConfigBuilder { project_dir: owned_path(project_dir), ..self }
    }

    /// The target directory. If unset, it is `{project_dir}/target`.
    pub fn with_target_path(self, target_path: Option<&FsPath>) -> (r: Self)
        ensures
            opt_path(r.target_path) == opt_path_ref(target_path),
            r == (FsTraceConfigBuilder { target_path: r.target_path, ..self }),
    {
        FsTraceConfigBuilder { target_path: owned_path(target_path), ..self }
    }

    /// The directory of log files, seen from the project directory. If unset, it is
    /// `{project_dir}/logs`.
    pub fn with_log_path(self, log_path: Option<&FsPath>) -> (r: Self)
        ensures
            opt_path(r.log_path) == opt_path_ref(log_path),
            r == (FsTraceConfigBuilder { log_path: r.log_path, ..self }),
    {
        FsTraceConfigBuilder { log_path: owned_path(log_path), ..self }
    }

    /// Maximum verbosity of the terminal and JSONL log sinks.
    pub fn with_max_log_verbosity(self, max_log_verbosity: LevelFilter) -> (r: Self)
        ensures
            r == (FsTraceConfigBuilder { max_log_verbosity, ..self }),
    {
        FsTraceConfigBuilder { max_log_verbosity, ..self }
    }

    /// Maximum verbosity of the file log sink.
    pub fn with_max_file_log_verbosity(self, max_file_log_verbosity: LevelFilter) -> (r: Self)
        ensures
            r == (FsTraceConfigBuilder { max_file_log_verbosity, ..self }),
    {
        FsTraceConfigBuilder { max_file_log_verbosity, ..self }
    }

    /// File name of the JSONL trace output in the log directory. If unset, that output is
    /// disabled.
    pub fn with_otel_file_name(self, otel_file_name: Option<&str>) -> (r: Self)
        ensures
            opt_text(r.otel_file_name) == opt_str(otel_file_name),
            r == (FsTraceConfigBuilder { otel_file_name: r.otel_file_name, ..self }),
    {
        FsTraceConfigBuilder { otel_file_name: owned_text(otel_file_name), ..self }
    }

    /// File name of the Parquet trace output in `{target_path}/private/metadata`. If unset,
    /// that output is disabled.
    pub fn with_otel_parquet_file_name(self, otel_parquet_file_name: Option<&str>) -> (r: Self)
        ensures
            opt_text(r.otel_parquet_file_name) == opt_str(otel_parquet_file_name),
            r == (FsTraceConfigBuilder {
                otel_parquet_file_name: r.otel_parquet_file_name,
                ..self
            }),
    {
        FsTraceConfigBuilder { otel_parquet_file_name: owned_text(otel_parquet_file_name), ..self }
    }

    /// Name of the log file in the log directory. If unset, it is `dbt.log`.
    pub fn with_log_file_name(self, log_file_name: Option<&str>) -> (r: Self)
        ensures
            opt_text(r.log_file_name) == opt_str(log_file_name),
            r == (FsTraceConfigBuilder { log_file_name: r.log_file_name, ..self }),
    {
        FsTraceConfigBuilder { log_file_name: owned_text(log_file_name), ..self }
    }

    /// Size at which a log file is rotated; `0` means never.
    pub fn with_log_file_max_bytes(self, log_file_max_bytes: u64) -> (r: Self)
        ensures
            r == (FsTraceConfigBuilder { log_file_max_bytes, ..self }),
    {
        FsTraceConfigBuilder { log_file_max_bytes, ..self }
    }

    /// Identifier of the invocation, used as trace identifier.
    pub fn with_invocation_id(self, invocation_id: u128) -> (r: Self)
        ensures
            r == (FsTraceConfigBuilder { invocation_id, ..self }),
    {
        FsTraceConfigBuilder { invocation_id, ..self }
    }

    /// Parent span of root spans.
    pub fn with_parent_span_id(self, parent_span_id: Option<u64>) -> (r: Self)
        ensures
            r == (FsTraceConfigBuilder { parent_span_id, ..self }),
    {
        FsTraceConfigBuilder { parent_span_id, ..self }
    }

    /// Whether traces are forwarded to OTLP endpoints.
    pub fn with_export_to_otlp(self, export_to_otlp: bool) -> (r: Self)
        ensures
            r == (FsTraceConfigBuilder { export_to_otlp, ..self }),
    {
        FsTraceConfigBuilder { export_to_otlp, ..self }
    }

    /// Format of log lines.
    pub fn with_log_format(self, log_format: LogFormat) -> (r: Self)
        ensures
            r == (FsTraceConfigBuilder { log_format, ..self }),
    {
        FsTraceConfigBuilder { log_format, ..self }
    }

    /// Format of log lines in the log file. If unset, it is that of the other log lines.
    pub fn with_file_log_format(self, file_log_format: Option<LogFormat>) -> (r: Self)
        ensures
            r == (FsTraceConfigBuilder { file_log_format, ..self }),
    {
        FsTraceConfigBuilder { file_log_format, ..self }
    }

    /// Whether queries are written to a log file of their own.
    pub fn with_query_log_enabled(self, enable_query_log: bool) -> (r: Self)
        ensures
            r == (FsTraceConfigBuilder { enable_query_log, ..self }),
    {
        FsTraceConfigBuilder { enable_query_log, ..self }
    }

    /// What the terminal shows.
    pub fn with_show_options(self, show_options: HashSet<String>) -> (r: Self)
        ensures
            r == (FsTraceConfigBuilder { show_options, ..self }),
    {
        FsTraceConfigBuilder { show_options, ..self }
    }

    /// Whether all deprecations are shown instead of one per package.
    pub fn with_show_all_deprecations(self, show_all_deprecations: bool) -> (r: Self)
        ensures
            r == (FsTraceConfigBuilder { show_all_deprecations, ..self }),
    {
        FsTraceConfigBuilder { show_all_deprecations, ..self }
    }

    /// Warn-error options before project flags are resolved.
    pub fn with_warn_error_options(self, warn_error_options: WarnErrorOptions) -> (r: Self)
        ensures
            r == (FsTraceConfigBuilder { warn_error_options, ..self }),
    {
        FsTraceConfigBuilder { warn_error_options, ..self }
    }

    /// Whether upgrades of warnings with no dbt-core counterpart are withheld.
    pub fn with_skip_fusion_only_upgrades(self, skip_fusion_only_upgrades: bool) -> (r: Self)
        ensures
            r == (FsTraceConfigBuilder { skip_fusion_only_upgrades, ..self }),
    {
        FsTraceConfigBuilder { skip_fusion_only_upgrades, ..self }
    }

    /// Resolves all paths. `detected` is the project directory that a search for
    /// `dbt_project.yml` found, if it found one. This never fails: without a project directory,
    /// paths are resolved against the working directory.
    pub fn build(self, detected: Option<FsPath>, platform: Platform) -> (r: FsTraceConfig)
        ensures
            is_built_from(r, self, opt_path(detected), platform),
    {
        let (in_dir, out_dir) = calculate_trace_dirs(
            self.project_dir.as_ref(),
            self.target_path.as_ref(),
            detected,
            platform,
        );
        let log_dir: FsPath = match &self.log_path {
            Some(log_path) => if log_path.is_absolute_on(platform) {
                proof {
                    law_absolute_tail_replaces(platform, in_dir@, log_path@);
                }
                log_path.clone()
            } else {
                in_dir.join_on(log_path, platform)
            },
            None => in_dir.join_text_on(DBT_LOG_DIR_NAME, platform),
        };
        let otel_file_path: Option<FsPath> = match &self.otel_file_name {
            Some(name) => Some(log_dir.join_text_on(name.as_str(), platform)),
            None => None,
        };
        let otel_parquet_file_path: Option<FsPath> = match &self.otel_parquet_file_name {
            Some(name) => Some(
                default_metadata_dir(&out_dir, platform).join_text_on(name.as_str(), platform),
            ),
            None => None,
        };
        FsTraceConfig {
            package: self.package,
            brand_name: self.brand_name,
            command: self.command,
            max_log_verbosity: self.max_log_verbosity,
            max_file_log_verbosity: self.max_file_log_verbosity,
            otel_file_path,
            otel_parquet_file_path,
            log_path: log_dir,
            log_file_name: self.log_file_name,
            log_file_max_bytes: self.log_file_max_bytes,
            invocation_id: self.invocation_id,
            parent_span_id: self.parent_span_id,
            export_to_otlp: self.export_to_otlp,
            log_format: self.log_format,
            file_log_format: self.file_log_format,
            enable_query_log: self.enable_query_log,
            show_options: self.show_options,
            show_all_deprecations: self.show_all_deprecations,
            warn_error_options: self.warn_error_options,
            skip_fusion_only_upgrades: self.skip_fusion_only_upgrades,
            platform,
        }
    }
}

/// The project directory and the target directory.
pub fn calculate_trace_dirs(
    project_dir: Option<&FsPath>,
    target_path: Option<&FsPath>,
    detected: Option<FsPath>,
    platform: Platform,
) -> (r: (FsPath, FsPath))
    ensures
        r.0@ == trace_in_dir(opt_path_ref(project_dir), opt_path(detected)),
        r.1@ == trace_out_dir(platform, opt_path_ref(target_path), r.0@),
{
    let in_dir: FsPath = match project_dir {
        Some(p) => p.clone(),
        None => match detected {
            Some(d) => d,
            None => FsPath::new(),
        },
    };
    let out_dir: FsPath = match target_path {
        Some(t) => t.clone(),
        None => in_dir.join_text_on(DBT_TARGET_DIR_NAME, platform),
    };
    (in_dir, out_dir)
}

/// The directory of the Parquet trace output.
pub fn default_metadata_dir(out_dir: &FsPath, platform: Platform) -> (r: FsPath)
    ensures
        r@ == metadata_dir(platform, out_dir@),
{
    out_dir.join_text_on(DBT_PRIVATE_DIR_NAME, platform).join_text_on(
        DBT_METADATA_DIR_NAME,
        platform,
    )
}

impl FsTraceConfig {
    /// A provider that starts from the warn-error options of the configuration.
    pub fn create_config_provider(&self) -> (r: FsTracingConfigProvider)
        ensures
            r.options() == self.warn_error_options@,
            r.log_file() is None,
    {
        FsTracingConfigProvider::from_warn_error_options(self.warn_error_options.clone())
    }
}

} // verus!

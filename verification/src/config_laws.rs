//! Laws of trace configurations: what they take from the arguments of a command, and where their
//! outputs go.

use crate::command::command_trace_config;
use crate::command::conformance_env_file;
use crate::config::calculate_trace_dirs;
use crate::config::default_metadata_dir;
use crate::config::opt_text;
use crate::config::FsCommand;
use crate::config::FsTraceConfig;
use crate::config::FsTraceConfigBuilder;
use crate::config::IoArgs;
use crate::config::LogFormat;
use crate::feature_handles::FsTracingConfigProvider;
use crate::feature_handles::TracingConfigProvider;
use crate::layer_laws::has_output;
use crate::layer_laws::law_each_output_is_opened_once;
use crate::layers::LayerStep;
use crate::level::LevelFilter;
use crate::path::opt_path;
use crate::path::FsPath;
use crate::platform::joined_on;
use crate::platform::joined_text;
use crate::platform::Platform;
use crate::warn_error_options::WarnErrorOptions;
use vstd::prelude::*;

verus! {

/// The configuration of a command takes from its arguments the verbosities, the formats, the
/// invocation, whether traces are exported, and what is shown; queries are logged in any case.
pub proof fn law_command_arguments_are_kept(
    package: &'static str,
    brand_name: &'static str,
    io_args: &IoArgs,
    command: FsCommand,
    project_dir: Option<&FsPath>,
    target_path: Option<&FsPath>,
    warn_error_options: WarnErrorOptions,
    skip_fusion_only_upgrades: bool,
    detected: Option<FsPath>,
    platform: Platform,
    c: FsTraceConfig,
)
    requires
        call_ensures(
            command_trace_config,
            (
                package,
                brand_name,
                io_args,
                command,
                project_dir,
                target_path,
                warn_error_options,
                skip_fusion_only_upgrades,
                detected,
                platform,
            ),
            c,
        ),
    ensures
        c.package == package,
        c.brand_name == brand_name,
        c.command == command,
        c.platform == platform,
        c.max_log_verbosity == io_args.max_log_verbosity,
        c.max_file_log_verbosity == io_args.max_file_log_verbosity,
        c.log_file_name is None,
        c.log_file_max_bytes == io_args.log_file_max_bytes,
        c.invocation_id == io_args.invocation_id,
        c.parent_span_id == io_args.otel_parent_span_id,
        c.export_to_otlp == io_args.export_to_otlp,
        c.log_format == io_args.log_format,
        c.file_log_format == io_args.log_format_file,
        c.enable_query_log,
        c.show_options@ == io_args.show@,
        c.show_all_deprecations == io_args.show_all_deprecations,
        c.warn_error_options == warn_error_options,
        c.skip_fusion_only_upgrades == skip_fusion_only_upgrades,
{
}

/// The outputs of a command go where its arguments say: the logs to the given directory or to
/// `logs`, seen from the project, the JSON lines beside the logs, and the Parquet file to
/// `private/metadata` in the given target directory or in `target`, seen from the project. The
/// project is the given one, else the detected one, else the working directory.
pub proof fn law_command_paths(
    package: &'static str,
    brand_name: &'static str,
    io_args: &IoArgs,
    command: FsCommand,
    project_dir: Option<&FsPath>,
    target_path: Option<&FsPath>,
    warn_error_options: WarnErrorOptions,
    skip_fusion_only_upgrades: bool,
    detected: Option<FsPath>,
    platform: Platform,
    c: FsTraceConfig,
    project: Seq<u8>,
    target: Seq<u8>,
)
    requires
        call_ensures(
            command_trace_config,
            (
                package,
                brand_name,
                io_args,
                command,
                project_dir,
                target_path,
                warn_error_options,
                skip_fusion_only_upgrades,
                detected,
                platform,
            ),
            c,
        ),
        project_dir matches Some(given) ==> project == given@,
        project_dir is None ==> (detected matches Some(found) ==> project == found@),
        project_dir is None && detected is None ==> project.len() == 0,
        target_path matches Some(given) ==> target == given@,
        target_path is None ==> target == joined_text(platform, project, "target"@),
    ensures
        io_args.log_path is None ==> c.log_path@ == joined_text(platform, project, "logs"@),
        io_args.log_path matches Some(given) ==> c.log_path@ == joined_on(
            platform,
            project,
            given@,
        ),
        c.otel_file_path is Some <==> io_args.otel_file_name is Some,
        io_args.otel_file_name matches Some(name) ==> c.otel_file_path->0@ == joined_text(
            platform,
            c.log_path@,
            name@,
        ),
        c.otel_parquet_file_path is Some <==> io_args.otel_parquet_file_name is Some,
        io_args.otel_parquet_file_name matches Some(name) ==> c.otel_parquet_file_path->0@
            == joined_text(
            platform,
            joined_text(platform, joined_text(platform, target, "private"@), "metadata"@),
            name@,
        ),
{
    if project_dir is None && detected is None {
        assert(project =~= Seq::empty());
    }
}

/// A command opens the outputs that its arguments ask for and no others: it exports traces
/// exactly where that is asked for, writes a log file unless files are off, and writes trace data
/// to the files that are named. It always writes to the terminal and logs its queries.
pub proof fn law_command_outputs<'a>(
    package: &'static str,
    brand_name: &'static str,
    io_args: &IoArgs,
    command: FsCommand,
    project_dir: Option<&FsPath>,
    target_path: Option<&FsPath>,
    warn_error_options: WarnErrorOptions,
    skip_fusion_only_upgrades: bool,
    detected: Option<FsPath>,
    platform: Platform,
    c: &'a FsTraceConfig,
    version: &'static str,
    steps: Vec<LayerStep<'a>>,
)
    requires
        call_ensures(
            command_trace_config,
            (
                package,
                brand_name,
                io_args,
                command,
                project_dir,
                target_path,
                warn_error_options,
                skip_fusion_only_upgrades,
                detected,
                platform,
            ),
            *c,
        ),
        call_ensures(FsTraceConfig::layer_steps, (c, version), steps),
    ensures
        has_output(steps@, 1) <==> io_args.otel_file_name is Some,
        has_output(steps@, 2) <==> io_args.otel_parquet_file_name is Some,
        has_output(steps@, 3),
        has_output(steps@, 4) <==> io_args.max_file_log_verbosity != LevelFilter::Off,
        has_output(steps@, 6),
        has_output(steps@, 7) <==> io_args.export_to_otlp,
{
    law_each_output_is_opened_once(c, version, steps);
}

/// The builder for the arguments of a command has what the arguments say, and nothing that they do
/// not speak of.
pub proof fn law_builder_from_arguments(
    package: &'static str,
    brand_name: &'static str,
    io_args: &IoArgs,
    b: FsTraceConfigBuilder,
)
    requires
        call_ensures(FsTraceConfigBuilder::from_io_args, (package, brand_name, io_args), b),
    ensures
        b.package == package,
        b.brand_name == brand_name,
        opt_path(b.log_path) == opt_path(io_args.log_path),
        b.max_log_verbosity == io_args.max_log_verbosity,
        b.max_file_log_verbosity == io_args.max_file_log_verbosity,
        opt_text(b.otel_file_name) == opt_text(io_args.otel_file_name),
        opt_text(b.otel_parquet_file_name) == opt_text(io_args.otel_parquet_file_name),
        b.log_file_max_bytes == io_args.log_file_max_bytes,
        b.invocation_id == io_args.invocation_id,
        b.parent_span_id == io_args.otel_parent_span_id,
        b.export_to_otlp == io_args.export_to_otlp,
        b.log_format == io_args.log_format,
        b.file_log_format == io_args.log_format_file,
        b.show_options@ == io_args.show@,
        b.show_all_deprecations == io_args.show_all_deprecations,
        b.command == FsCommand::Unset,
        b.project_dir is None,
        b.target_path is None,
        b.log_file_name is None,
        !b.enable_query_log,
        !b.skip_fusion_only_upgrades,
        b.warn_error_options.error@.len() == 0,
        b.warn_error_options.warn@.len() == 0,
        b.warn_error_options.silence@.len() == 0,
{
}

/// Where nothing is asked for, the terminal shows information, the log file debug lines, in the
/// default format and rotated at ten mebibytes; nothing is exported, shown in addition or turned
/// into an error, and no other file is written.
pub proof fn law_defaults(
    package: &'static str,
    brand_name: &'static str,
    invocation_id: u128,
    b: FsTraceConfigBuilder,
)
    requires
        call_ensures(
            FsTraceConfigBuilder::with_defaults,
            (package, brand_name, invocation_id),
            b,
        ),
    ensures
        b.package == package,
        b.brand_name == brand_name,
        b.invocation_id == invocation_id,
        b.command == FsCommand::Unset,
        b.max_log_verbosity == LevelFilter::Info,
        b.max_file_log_verbosity == LevelFilter::Debug,
        b.log_format == LogFormat::Default,
        b.log_file_max_bytes == 10 * 1024 * 1024,
        b.project_dir is None,
        b.target_path is None,
        b.log_path is None,
        b.otel_file_name is None,
        b.otel_parquet_file_name is None,
        b.log_file_name is None,
        b.parent_span_id is None,
        b.file_log_format is None,
        !b.export_to_otlp,
        !b.enable_query_log,
        !b.show_all_deprecations,
        !b.skip_fusion_only_upgrades,
        b.show_options@.len() == 0,
        b.warn_error_options.error@.len() == 0,
        b.warn_error_options.warn@.len() == 0,
        b.warn_error_options.silence@.len() == 0,
{
}

/// A fresh builder has the defaults and an identifier laid out as a version 7 UUID.
pub proof fn law_fresh_builder(
    package: &'static str,
    brand_name: &'static str,
    b: FsTraceConfigBuilder,
)
    requires
        call_ensures(FsTraceConfigBuilder::new, (package, brand_name), b),
    ensures
        (b.invocation_id >> 76) & 0xf == 7,
        (b.invocation_id >> 62) & 0x3 == 2,
        b.package == package,
        b.brand_name == brand_name,
        b.command == FsCommand::Unset,
        b.max_log_verbosity == LevelFilter::Info,
        b.max_file_log_verbosity == LevelFilter::Debug,
        b.log_format == LogFormat::Default,
        b.log_file_max_bytes == 10 * 1024 * 1024,
        b.project_dir is None,
        b.target_path is None,
        b.log_path is None,
        b.otel_file_name is None,
        b.otel_parquet_file_name is None,
        b.log_file_name is None,
        b.parent_span_id is None,
        b.file_log_format is None,
        !b.export_to_otlp,
        !b.enable_query_log,
        !b.show_all_deprecations,
        !b.skip_fusion_only_upgrades,
        b.show_options@.len() == 0,
        b.warn_error_options.error@.len() == 0,
        b.warn_error_options.warn@.len() == 0,
        b.warn_error_options.silence@.len() == 0,
{
}

/// Building resolves paths and changes nothing else.
pub proof fn law_build_keeps_settings(
    b: FsTraceConfigBuilder,
    detected: Option<FsPath>,
    platform: Platform,
    c: FsTraceConfig,
)
    requires
        call_ensures(FsTraceConfigBuilder::build, (b, detected, platform), c),
    ensures
        c.platform == platform,
        c.package == b.package,
        c.brand_name == b.brand_name,
        c.command == b.command,
        c.max_log_verbosity == b.max_log_verbosity,
        c.max_file_log_verbosity == b.max_file_log_verbosity,
        c.log_file_name == b.log_file_name,
        c.log_file_max_bytes == b.log_file_max_bytes,
        c.invocation_id == b.invocation_id,
        c.parent_span_id == b.parent_span_id,
        c.export_to_otlp == b.export_to_otlp,
        c.log_format == b.log_format,
        c.file_log_format == b.file_log_format,
        c.enable_query_log == b.enable_query_log,
        c.show_options@ == b.show_options@,
        c.show_all_deprecations == b.show_all_deprecations,
        c.warn_error_options == b.warn_error_options,
        c.skip_fusion_only_upgrades == b.skip_fusion_only_upgrades,
        c.otel_file_path is Some <==> b.otel_file_name is Some,
        c.otel_parquet_file_path is Some <==> b.otel_parquet_file_name is Some,
{
}

/// Where a built configuration writes to, by what its builder was given.
pub proof fn law_build_resolves_paths(
    b: FsTraceConfigBuilder,
    detected: Option<FsPath>,
    platform: Platform,
    c: FsTraceConfig,
    project: Seq<u8>,
    target: Seq<u8>,
)
    requires
        call_ensures(FsTraceConfigBuilder::build, (b, detected, platform), c),
        b.project_dir matches Some(given) ==> project == given@,
        b.project_dir is None ==> (detected matches Some(found) ==> project == found@),
        b.project_dir is None && detected is None ==> project.len() == 0,
        b.target_path matches Some(given) ==> target == given@,
        b.target_path is None ==> target == joined_text(platform, project, "target"@),
    ensures
        b.log_path is None ==> c.log_path@ == joined_text(platform, project, "logs"@),
        b.log_path matches Some(given) ==> c.log_path@ == joined_on(platform, project, given@),
        b.otel_file_name matches Some(name) ==> c.otel_file_path->0@ == joined_text(
            platform,
            c.log_path@,
            name@,
        ),
        b.otel_parquet_file_name matches Some(name) ==> c.otel_parquet_file_path->0@ == joined_text(
            platform,
            joined_text(platform, joined_text(platform, target, "private"@), "metadata"@),
            name@,
        ),
{
    if b.project_dir is None && detected is None {
        assert(project =~= Seq::empty());
    }
}

/// A given project directory is used, else a detected one, else the working directory; a given
/// target directory is used, else `target` in the project.
pub proof fn law_trace_dirs(
    project_dir: Option<&FsPath>,
    target_path: Option<&FsPath>,
    detected: Option<FsPath>,
    platform: Platform,
    dirs: (FsPath, FsPath),
)
    requires
        call_ensures(calculate_trace_dirs, (project_dir, target_path, detected, platform), dirs),
    ensures
        project_dir matches Some(given) ==> dirs.0@ == given@,
        project_dir is None ==> (detected matches Some(found) ==> dirs.0@ == found@),
        project_dir is None && detected is None ==> dirs.0@.len() == 0,
        target_path matches Some(given) ==> dirs.1@ == given@,
        target_path is None ==> dirs.1@ == joined_text(platform, dirs.0@, "target"@),
{
}

/// The Parquet output goes to `private/metadata` in the target directory.
pub proof fn law_metadata_dir(out_dir: &FsPath, platform: Platform, r: FsPath)
    requires
        call_ensures(default_metadata_dir, (out_dir, platform), r),
    ensures
        r@ == joined_text(platform, joined_text(platform, out_dir@, "private"@), "metadata"@),
{
}

/// A provider of a configuration starts with its warn-error options and knows no log file.
pub proof fn law_config_provider(c: &FsTraceConfig, p: FsTracingConfigProvider)
    requires
        call_ensures(FsTraceConfig::create_config_provider, (c,), p),
    ensures
        p.warn_error_options.error@ == c.warn_error_options.error@,
        p.warn_error_options.warn@ == c.warn_error_options.warn@,
        p.warn_error_options.silence@ == c.warn_error_options.silence@,
        p.file_log_path is None,
        p.keeps(),
{
}

/// What a provider says is what it holds, and a provider that keeps what it is given says what it
/// was given last.
pub proof fn law_provider_says_what_it_holds(p: FsTracingConfigProvider)
    ensures
        p.keeps(),
        p.options().error == p.warn_error_options.error@,
        p.options().warn == p.warn_error_options.warn@,
        p.options().silence == p.warn_error_options.silence@,
        p.file_log_path matches Some(path) ==> p.log_file() == Some(path@),
        p.file_log_path is None ==> p.log_file() is None,
{
}

/// The variables that are set before a command line is parsed stand in `.env.conformance` in the
/// project directory.
pub proof fn law_conformance_env_file(project_dir: &FsPath, platform: Platform, r: FsPath)
    requires
        call_ensures(conformance_env_file, (project_dir, platform), r),
    ensures
        r@ == joined_text(platform, project_dir@, ".env.conformance"@),
{
}

} // verus!

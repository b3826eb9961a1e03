//! What a command line sets up before it runs a command, and what it makes of the end of one.

use crate::config::is_builder_for;
use crate::config::is_built_from;
use crate::config::trace_in_dir;
use crate::config::trace_log_dir;
use crate::config::FsCommand;
use crate::config::FsTraceConfig;
use crate::config::FsTraceConfigBuilder;
use crate::config::IoArgs;
use crate::error::ErrorCode;
use crate::error::FsError;
use crate::feature_handles::TracingConfigProvider;
use crate::layers::query_log_steps;
use crate::path::opt_path;
use crate::path::opt_path_ref;
use crate::path::FsPath;
use crate::platform::joined_text;
use crate::platform::Platform;
use crate::warn_error_options::WarnErrorOptions;
use vstd::prelude::*;

verus! {

/// The package name of the command line.
pub const DBT_PACKAGE: &'static str = "dbt";

/// The brand name of the open command line.
pub const DBT_CORE: &'static str = "dbt-core";

/// The brand name that tests run commands under.
pub const DBT_FUSION: &'static str = "dbt-fusion";

/// The package name of commands that tests run.
pub const DBT_TESTS_PACKAGE: &'static str = "dbt-tests";

/// A file in the project directory whose variables are set before a command line is parsed.
pub const CONFORMANCE_ENV_FILE: &'static str = ".env.conformance";

/// Whether `b` is the builder for a command with the given arguments: it logs queries, and the
/// rest is as the arguments say.
pub open spec fn is_command_builder(
    b: FsTraceConfigBuilder,
    package: &'static str,
    brand_name: &'static str,
    io_args: IoArgs,
    command: FsCommand,
    project_dir: Option<Seq<u8>>,
    target_path: Option<Seq<u8>>,
    warn_error_options: WarnErrorOptions,
    skip_fusion_only_upgrades: bool,
) -> bool {
    &&& opt_path(b.project_dir) == project_dir
    &&& opt_path(b.target_path) == target_path
    &&& exists|base: FsTraceConfigBuilder|
        #[trigger] is_builder_for(base, package, brand_name, io_args) && b == (
        FsTraceConfigBuilder {
            command,
            project_dir: b.project_dir,
            target_path: b.target_path,
            enable_query_log: true,
            warn_error_options,
            skip_fusion_only_upgrades,
            ..base
        })
}

/// A command always logs its queries; its trace is named by the invocation that its arguments
/// give, and its log lines have the format that they give.
pub proof fn law_command_config(
    c: FsTraceConfig,
    b: FsTraceConfigBuilder,
    package: &'static str,
    brand_name: &'static str,
    io_args: IoArgs,
    command: FsCommand,
    project_dir: Option<Seq<u8>>,
    target_path: Option<Seq<u8>>,
    warn_error_options: WarnErrorOptions,
    skip_fusion_only_upgrades: bool,
    detected: Option<Seq<u8>>,
    platform: Platform,
)
    requires
        is_command_builder(
            b,
            package,
            brand_name,
            io_args,
            command,
            project_dir,
            target_path,
            warn_error_options,
            skip_fusion_only_upgrades,
        ),
        is_built_from(c, b, detected, platform),
    ensures
        c.enable_query_log,
        query_log_steps(c).len() == 1,
        c.package == package,
        c.brand_name == brand_name,
        c.command == command,
        c.invocation_id == io_args.invocation_id,
        c.log_format == io_args.log_format,
        c.file_log_format == io_args.log_format_file,
        c.warn_error_options == warn_error_options,
        c.skip_fusion_only_upgrades == skip_fusion_only_upgrades,
        c.log_path@ == trace_log_dir(
            platform,
            opt_path(io_args.log_path),
            trace_in_dir(project_dir, detected),
        ),
{
}

/// The trace configuration of a command. Queries are always logged. `detected` is the project
/// directory that was found without one being given.
pub fn command_trace_config(
    package: &'static str,
    brand_name: &'static str,
    io_args: &IoArgs,
    command: FsCommand,
    project_dir: Option<&FsPath>,
    target_path: Option<&FsPath>,
    warn_error_options: WarnErrorOptions,
    skip_fusion_only_upgrades: bool,
    detected: Option<FsPath>,
    platform: Platform,
) -> (r: FsTraceConfig)
    ensures
        exists|b: FsTraceConfigBuilder|
            {
                &&& is_command_builder(
                    b,
                    package,
                    brand_name,
                    *io_args,
                    command,
                    opt_path_ref(project_dir),
                    opt_path_ref(target_path),
                    warn_error_options,
                    skip_fusion_only_upgrades,
                )
                &&& #[trigger] is_built_from(r, b, opt_path(detected), platform)
            },
{
    let base: FsTraceConfigBuilder = FsTraceConfigBuilder::from_io_args(
        package,
        brand_name,
        io_args,
    );
    let ghost start = base;
    let builder: FsTraceConfigBuilder = base
        .with_command(command)
        .with_project_dir(project_dir)
        .with_target_path(target_path)
        .with_query_log_enabled(true)
        .with_warn_error_options(warn_error_options)
        .with_skip_fusion_only_upgrades(skip_fusion_only_upgrades);
    assert(is_builder_for(start, package, brand_name, *io_args));
    builder.build(detected, platform)
}

/// The log path that a command goes on with: that of the log file that was opened, else the
/// one it was given.
pub fn resolved_log_path<P: TracingConfigProvider>(log_path: Option<FsPath>, provider: &P) -> (r:
    Option<FsPath>)
    ensures
        opt_path(r) == match provider.log_file() {
            Some(file) => Some(file),
            None => opt_path(log_path),
        },
{
    match provider.get_file_log_path() {
        Some(file) => Some(file),
        None => log_path,
    }
}

/// How a command failed: the exit status it asks for, if it asks for one, and its error.
#[derive(Debug)]
pub struct RunFailure<E> {
    pub exit_status: Option<i32>,
    pub error: E,
}

/// Why a command counts as failed.
#[derive(Debug)]
pub enum ExecError<E> {
    /// The command itself failed.
    Run(E),
    /// The command succeeded, but telemetry could not be shut down.
    Shutdown(FsError),
}

/// Whether a command ended well: it succeeded, or it ended early and asks for the status of a
/// success.
pub open spec fn ended_well<E>(result: Result<(), RunFailure<E>>) -> bool {
    match result {
        Ok(()) => true,
        Err(failure) => failure.exit_status == Some(0i32),
    }
}

/// What a command comes to, once telemetry was shut down with `shutdown_errors`. The error of
/// the command goes before those of the shutdown.
pub fn exec_outcome<E>(
    result: Result<(), RunFailure<E>>,
    shutdown_errors: &Vec<FsError>,
) -> (r: Result<(), ExecError<E>>)
    ensures
        r is Ok <==> ended_well(result) && shutdown_errors@.len() == 0,
        r matches Err(ExecError::Run(e)) ==> result matches Err(failure) && failure.error == e,
        r matches Err(ExecError::Shutdown(e)) ==> result is Ok && e.code == ErrorCode::Unexpected
            && e.message@ == "Failed to shutdown telemetry"@,
{
    match result {
        Ok(()) => if shutdown_errors.len() == 0 {
            Ok(())
        } else {
            Err(
                ExecError::Shutdown(
                    FsError::with_message(ErrorCode::Unexpected, "Failed to shutdown telemetry"),
                ),
            )
        },
        Err(failure) => {
            let early_success: bool = match failure.exit_status {
                Some(status) => status == 0,
                None => false,
            };
            if early_success && shutdown_errors.len() == 0 {
                Ok(())
            } else {
                Err(ExecError::Run(failure.error))
            }
        },
    }
}

/// The file whose variables are set before a command line is parsed.
pub fn conformance_env_file(project_dir: &FsPath, platform: Platform) -> (r: FsPath)
    ensures
        r@ == joined_text(platform, project_dir@, CONFORMANCE_ENV_FILE@),
{
    project_dir.join_text_on(CONFORMANCE_ENV_FILE, platform)
}

} // verus!

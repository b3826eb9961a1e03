//! Laws of the layers of a trace configuration.

use crate::config::opt_str;
use crate::config::FsCommand;
use crate::config::FsTraceConfig;
use crate::config::LogFormat;
use crate::error::ErrorCode;
use crate::feature_handles::TracingConfigProvider;
use crate::layers::attached_layers;
use crate::layers::build_file_log_consumer;
use crate::layers::build_jsonl_file_consumer;
use crate::layers::config_file_log_steps;
use crate::layers::config_log_file;
use crate::layers::console_layer;
use crate::layers::file_format;
use crate::layers::file_log_layer;
use crate::layers::fits;
use crate::layers::is_built;
use crate::layers::is_failure;
use crate::layers::is_told;
use crate::layers::jsonl_steps;
use crate::layers::layer_plan;
use crate::layers::layers_built;
use crate::layers::left_to_shut_down;
use crate::layers::log_dir_steps;
use crate::layers::log_file_after;
use crate::layers::otlp_steps;
use crate::layers::parquet_steps;
use crate::layers::query_log_steps;
use crate::layers::step_views;
use crate::layers::ConsoleLayer;
use crate::layers::FileLogLayer;
use crate::layers::FsTraceLayers;
use crate::layers::LayerError;
use crate::layers::LayerStep;
use crate::layers::MiddlewareLayer;
use crate::layers::StepOutcome;
use crate::layers::StepView;
use crate::level::LevelFilter;
use crate::path::opt_path;
use crate::path::FsPath;
use crate::platform::joined_text;
use crate::platform::parent_on;
use crate::platform::Platform;
use crate::record::LogPreprocessor;
use vstd::prelude::*;

verus! {

/// The steps before the sink on the terminal.
spec fn before_console(c: FsTraceConfig) -> Seq<StepView> {
    jsonl_steps(c.platform, opt_path(c.otel_file_path), c.max_file_log_verbosity) + parquet_steps(
        c.platform,
        opt_path(c.otel_parquet_file_path),
    )
}

/// The steps between the sink on the terminal and the path of the log file.
spec fn before_log_path(c: FsTraceConfig) -> Seq<StepView> {
    log_dir_steps(c) + config_file_log_steps(c)
}

/// The steps behind the path of the log file.
spec fn after_log_path(c: FsTraceConfig, version: &'static str) -> Seq<StepView> {
    query_log_steps(c) + otlp_steps(c, version)
}

/// Where the sink on the terminal stands in the plan.
spec fn console_at(c: FsTraceConfig) -> int {
    before_console(c).len() as int
}

/// Where the path of the log file stands in the plan.
spec fn log_path_at(c: FsTraceConfig) -> int {
    console_at(c) + 1 + before_log_path(c).len()
}

/// What a step of a plan is, by where it stands.
proof fn lemma_plan_parts(c: FsTraceConfig, version: &'static str)
    ensures
        layer_plan(c, version).len() == log_path_at(c) + 1 + after_log_path(c, version).len(),
        layer_plan(c, version)[console_at(c)] == (StepView::Console { layer: console_layer(c) }),
        layer_plan(c, version)[log_path_at(c)] == (StepView::SetFileLogPath {
            file: config_log_file(c),
        }),
        forall|k: int|
            0 <= k < console_at(c) ==> #[trigger] layer_plan(c, version)[k] == before_console(
                c,
            )[k],
        forall|k: int|
            console_at(c) < k < log_path_at(c) ==> #[trigger] layer_plan(c, version)[k]
                == before_log_path(c)[k - console_at(c) - 1],
        forall|k: int|
            log_path_at(c) < k < layer_plan(c, version).len() ==> #[trigger] layer_plan(
                c,
                version,
            )[k] == after_log_path(c, version)[k - log_path_at(c) - 1],
{
    assert(layer_plan(c, version) =~= before_console(c) + seq![
        StepView::Console { layer: console_layer(c) },
    ] + before_log_path(c) + seq![StepView::SetFileLogPath { file: config_log_file(c) }]
        + after_log_path(c, version));
}

/// Every configuration has exactly one sink on the terminal, the one that its log format asks
/// for.
pub proof fn law_one_console(c: FsTraceConfig, version: &'static str)
    ensures
        exists|i: int|
            0 <= i < layer_plan(c, version).len() && #[trigger] layer_plan(c, version)[i] == (
            StepView::Console { layer: console_layer(c) }),
        forall|i: int, j: int|
            0 <= i < layer_plan(c, version).len() && 0 <= j < layer_plan(c, version).len()
                && #[trigger] layer_plan(c, version)[i] is Console && #[trigger] layer_plan(
                c,
                version,
            )[j] is Console ==> i == j,
{
    lemma_plan_parts(c, version);
    assert(layer_plan(c, version)[console_at(c)] is Console);
}

/// The configuration provider hears of the log file exactly once. It is told the file's path
/// unless the log file is off, and the log file is then opened at that very path.
#[verifier::rlimit(50)]
pub proof fn law_log_path_announced(c: FsTraceConfig, version: &'static str)
    ensures
        exists|i: int|
            0 <= i < layer_plan(c, version).len() && #[trigger] layer_plan(c, version)[i] == (
            StepView::SetFileLogPath { file: config_log_file(c) }),
        forall|i: int, j: int|
            0 <= i < layer_plan(c, version).len() && 0 <= j < layer_plan(c, version).len()
                && #[trigger] layer_plan(c, version)[i] is SetFileLogPath
                && #[trigger] layer_plan(c, version)[j] is SetFileLogPath ==> i == j,
        config_log_file(c) is None <==> c.max_file_log_verbosity == LevelFilter::Off,
        forall|i: int|
            0 <= i < layer_plan(c, version).len() ==> (#[trigger] layer_plan(
                c,
                version,
            )[i] matches StepView::FileLog { path, .. } ==> config_log_file(c) == Some(path)),
        config_log_file(c) is Some ==> exists|i: int|
            0 <= i < layer_plan(c, version).len() && #[trigger] layer_plan(c, version)[i]
                is FileLog,
{
    lemma_plan_parts(c, version);
    assert(layer_plan(c, version)[log_path_at(c)] is SetFileLogPath);
    if config_log_file(c) is Some {
        assert(layer_plan(c, version)[log_path_at(c) - 1] == before_log_path(c).last());
        assert(layer_plan(c, version)[log_path_at(c) - 1] is FileLog);
    }
}

/// Once a build is through, the provider knows the path of the log file, whatever it knew before.
pub proof fn law_log_path_known(
    c: FsTraceConfig,
    version: &'static str,
    before: Option<Seq<u8>>,
)
    ensures
        log_file_after(layer_plan(c, version), before) == config_log_file(c),
{
    lemma_plan_parts(c, version);
    lemma_log_file_known(c, version, before, layer_plan(c, version).len() as int);
    assert(layer_plan(c, version).take(layer_plan(c, version).len() as int) =~= layer_plan(
        c,
        version,
    ));
}

proof fn lemma_log_file_known(
    c: FsTraceConfig,
    version: &'static str,
    before: Option<Seq<u8>>,
    n: int,
)
    requires
        log_path_at(c) < n <= layer_plan(c, version).len(),
    ensures
        log_file_after(layer_plan(c, version).take(n), before) == config_log_file(c),
    decreases n,
{
    lemma_plan_parts(c, version);
    let plan = layer_plan(c, version);
    assert(plan.take(n).last() == plan[n - 1]);
    assert(plan.take(n).drop_last() =~= plan.take(n - 1));
    if n - 1 > log_path_at(c) {
        lemma_log_file_known(c, version, before, n - 1);
    }
}

/// The log file is written in its own format where one is set, else in the format of the other
/// log lines.
pub proof fn law_file_format(c: FsTraceConfig, version: &'static str, i: int)
    requires
        0 <= i < layer_plan(c, version).len(),
        layer_plan(c, version)[i] is FileLog,
    ensures
        layer_plan(c, version)[i] matches StepView::FileLog { sink, .. } && sink == file_log_layer(
            c.max_file_log_verbosity,
            file_format(c),
            c.invocation_id,
            c.command,
            c.brand_name,
        ),
        file_format(c) == (match c.file_log_format {
            Some(f) => f,
            None => c.log_format,
        }),
{
    lemma_plan_parts(c, version);
}

/// The directory that has to be there before the file of a step is opened.
pub open spec fn needed_dir(c: FsTraceConfig, step: StepView) -> Option<Seq<u8>> {
    match step {
        StepView::JsonlFile { path, .. } => parent_on(c.platform, path),
        StepView::ParquetFile { path } => parent_on(c.platform, path),
        StepView::FileLog { .. } => Some(c.log_path@),
        StepView::QueryLog { .. } => Some(c.log_path@),
        _ => None,
    }
}

/// No file is opened before its directory was created.
#[verifier::rlimit(30)]
pub proof fn law_dirs_created_first(c: FsTraceConfig, version: &'static str, j: int)
    requires
        0 <= j < layer_plan(c, version).len(),
    ensures
        needed_dir(c, layer_plan(c, version)[j]) matches Some(dir) ==> exists|i: int|
            0 <= i < j && #[trigger] layer_plan(c, version)[i] == (StepView::CreateDir { dir }),
{
    lemma_plan_parts(c, version);
    let plan = layer_plan(c, version);
    if needed_dir(c, plan[j]) is Some {
        if j < console_at(c) {
            assert(plan[j - 1] == before_console(c)[j - 1]);
        } else {
            assert(plan[console_at(c) + 1] == before_log_path(c)[0]);
        }
    }
}

/// Where the path of the Parquet file has no parent directory, the build gives up, and does so
/// before it opens such a file.
pub proof fn law_parquet_needs_a_directory(c: FsTraceConfig, version: &'static str)
    requires
        opt_path(c.otel_parquet_file_path) matches Some(p) && parent_on(c.platform, p) is None,
    ensures
        exists|i: int|
            0 <= i < layer_plan(c, version).len() && #[trigger] layer_plan(c, version)[i] is Abort
                && forall|j: int|
                0 <= j < i ==> !(#[trigger] layer_plan(c, version)[j] is ParquetFile),
{
    lemma_plan_parts(c, version);
    let i = console_at(c) - 1;
    assert(layer_plan(c, version)[i] is Abort);
}

/// Whether `outcomes` is what a plan came to where every step succeeded.
pub open spec fn succeeded<C, S, E>(
    plan: Seq<StepView>,
    outcomes: Seq<StepOutcome<C, S, E>>,
) -> bool {
    &&& outcomes.len() == plan.len()
    &&& forall|i: int|
        0 <= i < plan.len() ==> {
            &&& fits(plan[i], #[trigger] outcomes[i])
            &&& !(plan[i] is Abort)
            &&& !is_failure(outcomes[i])
        }
}

/// How many sinks a step is sure to attach: one, or none.
spec fn sinks_of(step: StepView) -> nat {
    if step.can_attach() && !step.can_attach_nothing() {
        1
    } else {
        0
    }
}

/// How many things the sure sinks of a step leave to be shut down.
spec fn items_of(step: StepView) -> nat {
    if step is Console {
        0
    } else {
        sinks_of(step)
    }
}

spec fn sure_sinks(plan: Seq<StepView>) -> nat
    decreases plan.len(),
{
    if plan.len() == 0 {
        0
    } else {
        sure_sinks(plan.drop_last()) + sinks_of(plan.last())
    }
}

spec fn sure_items(plan: Seq<StepView>) -> nat
    decreases plan.len(),
{
    if plan.len() == 0 {
        0
    } else {
        sure_items(plan.drop_last()) + items_of(plan.last())
    }
}

proof fn lemma_sure_concat(a: Seq<StepView>, b: Seq<StepView>)
    ensures
        sure_sinks(a + b) == sure_sinks(a) + sure_sinks(b),
        sure_items(a + b) == sure_items(a) + sure_items(b),
    decreases b.len(),
{
    if b.len() == 0 {
        assert(a + b =~= a);
    } else {
        lemma_sure_concat(a, b.drop_last());
        assert((a + b).drop_last() =~= a + b.drop_last());
        assert((a + b).last() == b.last());
    }
}

proof fn lemma_sure_few(plan: Seq<StepView>)
    requires
        plan.len() <= 2,
    ensures
        plan.len() == 0 ==> sure_sinks(plan) == 0 && sure_items(plan) == 0,
        plan.len() == 1 ==> sure_sinks(plan) == sinks_of(plan[0]) && sure_items(plan) == items_of(
            plan[0],
        ),
        plan.len() == 2 ==> sure_sinks(plan) == sinks_of(plan[0]) + sinks_of(plan[1])
            && sure_items(plan) == items_of(plan[0]) + items_of(plan[1]),
{
    reveal_with_fuel(sure_sinks, 3);
    reveal_with_fuel(sure_items, 3);
}

/// A run without an exporter attaches exactly its sure sinks.
proof fn lemma_run_counts<C, S, E>(plan: Seq<StepView>, outcomes: Seq<StepOutcome<C, S, E>>)
    requires
        succeeded(plan, outcomes),
        forall|i: int| 0 <= i < plan.len() ==> !(#[trigger] plan[i] is Otlp),
    ensures
        attached_layers(outcomes).len() == sure_sinks(plan),
        left_to_shut_down(outcomes).len() == sure_items(plan),
    decreases plan.len(),
{
    if plan.len() > 0 {
        let n = plan.len() - 1;
        let shorter = outcomes.drop_last();
        assert forall|i: int| 0 <= i < n implies {
            &&& fits(plan.drop_last()[i], #[trigger] shorter[i])
            &&& !(plan.drop_last()[i] is Abort)
            &&& !is_failure(shorter[i])
        } by {
            assert(shorter[i] == outcomes[i]);
        }
        lemma_run_counts(plan.drop_last(), shorter);
        assert(fits(plan[n], outcomes[n]));
        assert(!(plan[n] is Otlp));
    }
}

/// Whether a configuration has a sink in its log file.
pub open spec fn has_file_sink(c: FsTraceConfig) -> bool {
    config_log_file(c) is Some && file_log_layer(
        c.max_file_log_verbosity,
        file_format(c),
        c.invocation_id,
        c.command,
        c.brand_name,
    ) is Some
}

/// How many sinks besides the one on the terminal a configuration asks for, without the exporter:
/// one for each of the JSON lines file, the Parquet file, the log file and the query log.
pub open spec fn file_sinks(c: FsTraceConfig) -> nat {
    (if c.otel_file_path is Some {
        1nat
    } else {
        0nat
    }) + (if c.otel_parquet_file_path is Some {
        1nat
    } else {
        0nat
    }) + (if has_file_sink(c) {
        1nat
    } else {
        0nat
    }) + (if c.enable_query_log {
        1nat
    } else {
        0nat
    })
}

/// The plan without the exporter.
spec fn local_plan(c: FsTraceConfig) -> Seq<StepView> {
    before_console(c) + seq![StepView::Console { layer: console_layer(c) }] + before_log_path(c)
        + seq![StepView::SetFileLogPath { file: config_log_file(c) }] + query_log_steps(c)
}

proof fn lemma_local_counts(c: FsTraceConfig)
    requires
        forall|i: int| 0 <= i < local_plan(c).len() ==> !(#[trigger] local_plan(c)[i] is Abort),
    ensures
        sure_sinks(local_plan(c)) == 1 + file_sinks(c),
        sure_items(local_plan(c)) == file_sinks(c),
{
    let jsonl = jsonl_steps(c.platform, opt_path(c.otel_file_path), c.max_file_log_verbosity);
    let parquet = parquet_steps(c.platform, opt_path(c.otel_parquet_file_path));
    let console = seq![StepView::Console { layer: console_layer(c) }];
    let announced = seq![StepView::SetFileLogPath { file: config_log_file(c) }];
    if parquet.len() == 1 {
        assert(local_plan(c)[jsonl.len() as int] == parquet[0]);
        assert(local_plan(c)[jsonl.len() as int] is Abort);
    }
    lemma_sure_few(jsonl);
    lemma_sure_few(parquet);
    lemma_sure_few(console);
    lemma_sure_few(log_dir_steps(c));
    lemma_sure_few(config_file_log_steps(c));
    lemma_sure_few(announced);
    lemma_sure_few(query_log_steps(c));
    lemma_sure_concat(jsonl, parquet);
    lemma_sure_concat(before_console(c), console);
    lemma_sure_concat(log_dir_steps(c), config_file_log_steps(c));
    lemma_sure_concat(before_console(c) + console, before_log_path(c));
    lemma_sure_concat(before_console(c) + console + before_log_path(c), announced);
    lemma_sure_concat(
        before_console(c) + console + before_log_path(c) + announced,
        query_log_steps(c),
    );
}

proof fn lemma_local_has_no_otlp(c: FsTraceConfig)
    ensures
        forall|i: int| 0 <= i < local_plan(c).len() ==> !(#[trigger] local_plan(c)[i] is Otlp),
{
}

/// A build that is through has one sink for the terminal and one for each output that is
/// configured, and one thing to shut down for each of these outputs. An exporter adds its own.
pub proof fn law_sinks_are_shut_down<C, S, E>(
    c: FsTraceConfig,
    version: &'static str,
    outcomes: Seq<StepOutcome<C, S, E>>,
)
    requires
        succeeded(layer_plan(c, version), outcomes),
    ensures
        !c.export_to_otlp ==> {
            &&& attached_layers(outcomes).len() == 1 + file_sinks(c)
            &&& left_to_shut_down(outcomes).len() == file_sinks(c)
        },
        c.export_to_otlp ==> outcomes.len() > 0 && match outcomes.last() {
            StepOutcome::Attached { layer, shutdown_items } => {
                &&& attached_layers(outcomes).len() == 2 + file_sinks(c)
                &&& attached_layers(outcomes).last() == layer
                &&& left_to_shut_down(outcomes).len() == file_sinks(c) + shutdown_items@.len()
            },
            _ => {
                &&& attached_layers(outcomes).len() == 1 + file_sinks(c)
                &&& left_to_shut_down(outcomes).len() == file_sinks(c)
            },
        },
{
    let plan = layer_plan(c, version);
    let n = local_plan(c).len() as int;
    let local = outcomes.take(n);
    assert(plan =~= local_plan(c) + otlp_steps(c, version));
    assert forall|i: int| 0 <= i < n implies {
        &&& fits(local_plan(c)[i], #[trigger] local[i])
        &&& !(local_plan(c)[i] is Abort)
        &&& !is_failure(local[i])
    } by {
        assert(local[i] == outcomes[i]);
        assert(plan[i] == local_plan(c)[i]);
    }
    assert forall|i: int| 0 <= i < n implies !(#[trigger] local_plan(c)[i] is Abort) by {
        assert(!is_failure(local[i]));
    }
    lemma_local_has_no_otlp(c);
    lemma_run_counts(local_plan(c), local);
    lemma_local_counts(c);
    if c.export_to_otlp {
        assert(outcomes.drop_last() =~= local);
    } else {
        assert(outcomes =~= local);
    }
}

/// Whether a configuration writes to the terminal and nowhere else.
pub open spec fn is_console_only(c: FsTraceConfig) -> bool {
    &&& c.otel_file_path is None
    &&& c.otel_parquet_file_path is None
    &&& c.max_file_log_verbosity == LevelFilter::Off
    &&& !c.enable_query_log
    &&& !c.export_to_otlp
}

/// A configuration that writes to the terminal and nowhere else creates no directory and opens
/// no file; its build has one sink and nothing to shut down.
pub proof fn law_console_only<C, S, E>(
    c: FsTraceConfig,
    version: &'static str,
    outcomes: Seq<StepOutcome<C, S, E>>,
)
    requires
        is_console_only(c),
        succeeded(layer_plan(c, version), outcomes),
    ensures
        layer_plan(c, version) == seq![
            StepView::Console { layer: console_layer(c) },
            StepView::SetFileLogPath { file: None },
        ],
        attached_layers(outcomes).len() == 1,
        left_to_shut_down(outcomes).len() == 0,
{
    assert(layer_plan(c, version) =~= seq![
        StepView::Console { layer: console_layer(c) },
        StepView::SetFileLogPath { file: None },
    ]);
    law_sinks_are_shut_down(c, version, outcomes);
}

/// Layers are only there once every step of the plan succeeded.
pub proof fn law_built_layers_succeeded<
    'a,
    K,
    C,
    S,
    E,
    F: Fn(&LayerStep<'a>) -> StepOutcome<C, S, E>,
>(
    c: FsTraceConfig,
    config_provider: K,
    version: &'static str,
    perform: F,
    steps: Seq<LayerStep<'a>>,
    outcomes: Seq<StepOutcome<C, S, E>>,
    r: Result<FsTraceLayers<K, C, S>, LayerError<E>>,
)
    requires
        is_built(c, config_provider, version, perform, steps, outcomes, r),
    ensures
        r is Ok ==> succeeded(layer_plan(c, version), outcomes),
{
    if r is Ok {
        let plan = layer_plan(c, version);
        assert(plan.len() == steps.len());
        assert forall|i: int| 0 <= i < plan.len() implies {
            &&& fits(plan[i], #[trigger] outcomes[i])
            &&& !(plan[i] is Abort)
            &&& !is_failure(outcomes[i])
        } by {
            assert(step_views(steps)[i] == steps[i]@);
        }
    }
}

/// Once the layers are there, a provider that keeps what it is given knows the log file.
pub proof fn law_built_provider<
    'a,
    K,
    P: TracingConfigProvider,
    C,
    S,
    E,
    F: Fn(&LayerStep<'a>) -> StepOutcome<C, S, E>,
>(
    c: FsTraceConfig,
    config_provider: K,
    before: P,
    after: P,
    version: &'static str,
    perform: F,
    r: Result<FsTraceLayers<K, C, S>, LayerError<E>>,
)
    requires
        layers_built(c, config_provider, before, after, version, perform, r),
        r is Ok,
        before.keeps(),
    ensures
        after.log_file() == config_log_file(c),
{
    let (steps, outcomes) = choose|steps: Seq<LayerStep<'a>>, outcomes: Seq<StepOutcome<C, S, E>>|
        {
            &&& #[trigger] is_built(c, config_provider, version, perform, steps, outcomes, r)
            &&& is_told(c, version, outcomes, before, after)
        };
    let plan = layer_plan(c, version);
    assert(plan.len() == steps.len());
    assert(plan.take(outcomes.len() as int) =~= plan);
    law_log_path_known(c, version, before.log_file());
}

/// Each step opens an output that the configuration asks for, at the path, in the format and with
/// the verbosity that the configuration gives for it: the log file and the JSON lines file with
/// the verbosity of files, the terminal with its own.
#[verifier::rlimit(30)]
pub proof fn law_steps_follow_the_configuration<'a>(
    c: &'a FsTraceConfig,
    version: &'static str,
    steps: Vec<LayerStep<'a>>,
    i: int,
)
    requires
        call_ensures(FsTraceConfig::layer_steps, (c, version), steps),
        0 <= i < steps@.len(),
    ensures
        match steps@[i] {
            LayerStep::CreateDir { dir } => {
                ||| (c.otel_file_path matches Some(p) && parent_on(c.platform, p@) == Some(dir@))
                ||| (c.otel_parquet_file_path matches Some(p) && parent_on(c.platform, p@) == Some(
                    dir@,
                ))
                ||| (dir@ == c.log_path@ && (c.enable_query_log || c.max_file_log_verbosity
                    != LevelFilter::Off))
            },
            LayerStep::JsonlFile { path, max_verbosity, preprocessor } => {
                &&& c.otel_file_path matches Some(p)
                &&& path@ == p@
                &&& max_verbosity == c.max_file_log_verbosity
                &&& preprocessor == LogPreprocessor::StripEscapes
            },
            LayerStep::ParquetFile { path } => c.otel_parquet_file_path matches Some(p) && path@
                == p@,
            LayerStep::Console { layer: ConsoleLayer::Tui {
                max_verbosity,
                format,
                show_options,
                command,
            } } => {
                &&& c.log_format == LogFormat::Default || c.log_format == LogFormat::Text
                &&& max_verbosity == c.max_log_verbosity
                &&& format == c.log_format
                &&& show_options@ == c.show_options@
                &&& command == c.command
            },
            LayerStep::Console { layer: ConsoleLayer::Json {
                max_verbosity,
                invocation_id,
                command,
                brand_name,
            } } => {
                &&& c.log_format == LogFormat::Json
                &&& max_verbosity == c.max_log_verbosity
                &&& invocation_id == c.invocation_id
                &&& command == c.command
                &&& brand_name == c.brand_name
            },
            LayerStep::Console { layer: ConsoleLayer::Jsonl { max_verbosity, preprocessor } } => {
                &&& c.log_format == LogFormat::Otel
                &&& max_verbosity == c.max_log_verbosity
                &&& preprocessor == LogPreprocessor::StripEscapes
            },
            LayerStep::FileLog { path, max_bytes, backup_count, sink } => {
                &&& c.max_file_log_verbosity != LevelFilter::Off
                &&& path@ == joined_text(
                    c.platform,
                    c.log_path@,
                    if c.log_file_name is Some {
                        c.log_file_name->0@
                    } else {
                        "dbt.log"@
                    },
                )
                &&& max_bytes == c.log_file_max_bytes
                &&& backup_count == 5
                &&& match sink {
                    Some(FileLogLayer::Text { max_verbosity }) => {
                        &&& max_verbosity == c.max_file_log_verbosity
                        &&& written_as(*c, LogFormat::Default) || written_as(*c, LogFormat::Text)
                    },
                    Some(
                        FileLogLayer::Json { max_verbosity, invocation_id, command, command_name },
                    ) => {
                        &&& max_verbosity == c.max_file_log_verbosity
                        &&& invocation_id == c.invocation_id
                        &&& command == c.command
                        &&& command_name == c.brand_name
                        &&& written_as(*c, LogFormat::Json)
                    },
                    None => written_as(*c, LogFormat::Otel),
                }
            },
            LayerStep::SetFileLogPath { file: Some(path) } => {
                &&& c.max_file_log_verbosity != LevelFilter::Off
                &&& path@ == joined_text(
                    c.platform,
                    c.log_path@,
                    if c.log_file_name is Some {
                        c.log_file_name->0@
                    } else {
                        "dbt.log"@
                    },
                )
            },
            LayerStep::SetFileLogPath { file: None } => c.max_file_log_verbosity
                == LevelFilter::Off,
            LayerStep::QueryLog { path } => {
                &&& c.enable_query_log
                &&& path@ == joined_text(c.platform, c.log_path@, "query_log.sql"@)
            },
            LayerStep::Otlp { service_name, version: labelled, preprocessor } => {
                &&& c.export_to_otlp
                &&& service_name == c.brand_name
                &&& labelled == version
                &&& preprocessor == LogPreprocessor::StripEscapes
            },
            LayerStep::Abort { error } => {
                &&& c.otel_parquet_file_path matches Some(p)
                &&& parent_on(c.platform, p@) is None
                &&& error.code == ErrorCode::IoError
                &&& error.message@ == "Failed to get parent directory for file path"@
            },
        },
{
    assert(step_views(steps@)[i] == steps@[i]@);
    lemma_step_follows(*c, version, i);
}

/// The path of the log file.
spec fn path_of_log(c: FsTraceConfig) -> Seq<u8> {
    joined_text(
        c.platform,
        c.log_path@,
        if c.log_file_name is Some {
            c.log_file_name->0@
        } else {
            "dbt.log"@
        },
    )
}

/// What holds of a step of a configuration.
spec fn step_follows(c: FsTraceConfig, version: &'static str, step: StepView) -> bool {
    match step {
        StepView::CreateDir { dir } => {
            ||| (c.otel_file_path matches Some(p) && parent_on(c.platform, p@) == Some(dir))
            ||| (c.otel_parquet_file_path matches Some(p) && parent_on(c.platform, p@) == Some(dir))
            ||| (dir == c.log_path@ && (c.enable_query_log || c.max_file_log_verbosity
                != LevelFilter::Off))
        },
        StepView::JsonlFile { path, max_verbosity, preprocessor } => {
            &&& c.otel_file_path matches Some(p)
            &&& path == p@
            &&& max_verbosity == c.max_file_log_verbosity
            &&& preprocessor == LogPreprocessor::StripEscapes
        },
        StepView::ParquetFile { path } => c.otel_parquet_file_path matches Some(p) && path == p@,
        StepView::Console { layer } => layer == console_layer(c),
        StepView::FileLog { path, max_bytes, backup_count, sink } => {
            &&& c.max_file_log_verbosity != LevelFilter::Off
            &&& path == path_of_log(c)
            &&& max_bytes == c.log_file_max_bytes
            &&& backup_count == 5
            &&& sink == file_log_layer(
                c.max_file_log_verbosity,
                file_format(c),
                c.invocation_id,
                c.command,
                c.brand_name,
            )
        },
        StepView::SetFileLogPath { file } => match file {
            Some(path) => c.max_file_log_verbosity != LevelFilter::Off && path == path_of_log(c),
            None => c.max_file_log_verbosity == LevelFilter::Off,
        },
        StepView::QueryLog { path } => c.enable_query_log && path == joined_text(
            c.platform,
            c.log_path@,
            "query_log.sql"@,
        ),
        StepView::Otlp { service_name, version: labelled, preprocessor } => {
            &&& c.export_to_otlp
            &&& service_name == c.brand_name
            &&& labelled == version
            &&& preprocessor == LogPreprocessor::StripEscapes
        },
        StepView::Abort { code, message } => {
            &&& c.otel_parquet_file_path matches Some(p)
            &&& parent_on(c.platform, p@) is None
            &&& code == ErrorCode::IoError
            &&& message == "Failed to get parent directory for file path"@
        },
    }
}

proof fn lemma_step_follows(c: FsTraceConfig, version: &'static str, i: int)
    requires
        0 <= i < layer_plan(c, version).len(),
    ensures
        step_follows(c, version, layer_plan(c, version)[i]),
{
    lemma_plan_parts(c, version);
    if i < console_at(c) {
        lemma_trace_steps_follow(c, version, i);
    } else if console_at(c) < i < log_path_at(c) {
        lemma_log_steps_follow(c, version, i - console_at(c) - 1);
    } else if i > log_path_at(c) {
        assert(layer_plan(c, version)[i] == after_log_path(c, version)[i - log_path_at(c) - 1]);
    }
}

proof fn lemma_trace_steps_follow(c: FsTraceConfig, version: &'static str, i: int)
    requires
        0 <= i < before_console(c).len(),
    ensures
        step_follows(c, version, before_console(c)[i]),
{
}

proof fn lemma_log_steps_follow(c: FsTraceConfig, version: &'static str, i: int)
    requires
        0 <= i < before_log_path(c).len(),
    ensures
        step_follows(c, version, before_log_path(c)[i]),
{
}

/// Whether the log file is to be written in `format`: as its own format says, or where it has
/// none, as that of the other log lines says.
pub open spec fn written_as(c: FsTraceConfig, format: LogFormat) -> bool {
    c.file_log_format == Some(format) || (c.file_log_format is None && c.log_format == format)
}

/// Where a step stands among the outputs; creating a directory stands nowhere.
pub open spec fn output_rank(step: LayerStep<'_>) -> int {
    match step {
        LayerStep::CreateDir { .. } => 0,
        LayerStep::JsonlFile { .. } => 1,
        LayerStep::ParquetFile { .. } => 2,
        LayerStep::Abort { .. } => 2,
        LayerStep::Console { .. } => 3,
        LayerStep::FileLog { .. } => 4,
        LayerStep::SetFileLogPath { .. } => 5,
        LayerStep::QueryLog { .. } => 6,
        LayerStep::Otlp { .. } => 7,
    }
}

/// Whether the steps hold one for the output of the given rank.
pub open spec fn has_output(steps: Seq<LayerStep<'_>>, rank: int) -> bool {
    exists|i: int| 0 <= i < steps.len() && output_rank(#[trigger] steps[i]) == rank
}

/// A configuration opens every output that it asks for, each once and in a fixed order: the JSON
/// lines file, the Parquet file, the terminal, the log file, the query log and the exporter. It
/// opens no other, and it always tells where the log file is, right behind opening it.
#[verifier::rlimit(30)]
pub proof fn law_each_output_is_opened_once<'a>(
    c: &'a FsTraceConfig,
    version: &'static str,
    steps: Vec<LayerStep<'a>>,
)
    requires
        call_ensures(FsTraceConfig::layer_steps, (c, version), steps),
    ensures
        has_output(steps@, 1) <==> c.otel_file_path is Some,
        has_output(steps@, 2) <==> c.otel_parquet_file_path is Some,
        has_output(steps@, 3),
        has_output(steps@, 4) <==> c.max_file_log_verbosity != LevelFilter::Off,
        has_output(steps@, 5),
        has_output(steps@, 6) <==> c.enable_query_log,
        has_output(steps@, 7) <==> c.export_to_otlp,
        forall|i: int, j: int|
            0 <= i < j < steps@.len() && output_rank(#[trigger] steps@[i]) != 0 && output_rank(
                #[trigger] steps@[j],
            ) != 0 ==> output_rank(steps@[i]) < output_rank(steps@[j]),
        forall|i: int|
            0 <= i < steps@.len() && (#[trigger] steps@[i] is ParquetFile) ==> (
            c.otel_parquet_file_path matches Some(p) && parent_on(c.platform, p@) is Some),
{
    let plan = layer_plan(*c, version);
    lemma_plan_parts(*c, version);
    assert forall|i: int| 0 <= i < steps@.len() implies view_rank(plan[i]) == output_rank(
        #[trigger] steps@[i],
    ) by {
        assert(step_views(steps@)[i] == steps@[i]@);
    }
    assert(steps@.len() == plan.len());
    let at = console_at(*c);
    let told = log_path_at(*c);
    assert(output_rank(steps@[at]) == 3);
    assert(output_rank(steps@[told]) == 5);
    let jsonl = jsonl_steps(c.platform, opt_path(c.otel_file_path), c.max_file_log_verbosity);
    if c.otel_file_path is Some {
        let i = jsonl.len() - 1;
        assert(plan[i] == before_console(*c)[i]);
        assert(output_rank(steps@[i]) == 1);
    }
    if c.otel_parquet_file_path is Some {
        assert(plan[at - 1] == before_console(*c)[at - 1]);
        assert(output_rank(steps@[at - 1]) == 2);
    }
    if c.max_file_log_verbosity != LevelFilter::Off {
        assert(plan[told - 1] == before_log_path(*c)[told - 1 - at - 1]);
        assert(output_rank(steps@[told - 1]) == 4);
    }
    if c.enable_query_log {
        assert(plan[told + 1] == after_log_path(*c, version)[0]);
        assert(output_rank(steps@[told + 1]) == 6);
    }
    if c.export_to_otlp {
        let last = plan.len() - 1;
        assert(plan[last] == after_log_path(*c, version)[last - told - 1]);
        assert(output_rank(steps@[last]) == 7);
    }
    assert forall|i: int, j: int|
        0 <= i < j < steps@.len() && output_rank(#[trigger] steps@[i]) != 0 && output_rank(
            #[trigger] steps@[j],
        ) != 0 implies output_rank(steps@[i]) < output_rank(steps@[j]) by {
        lemma_view_rank(*c, version, i);
        lemma_view_rank(*c, version, j);
    }
    assert forall|i: int| 0 <= i < steps@.len() implies {
        let rank = output_rank(#[trigger] steps@[i]);
        &&& rank == 1 ==> c.otel_file_path is Some
        &&& rank == 2 ==> c.otel_parquet_file_path is Some
        &&& rank == 4 ==> c.max_file_log_verbosity != LevelFilter::Off
        &&& rank == 6 ==> c.enable_query_log
        &&& rank == 7 ==> c.export_to_otlp
        &&& steps@[i] is ParquetFile ==> (c.otel_parquet_file_path matches Some(p) && parent_on(
            c.platform,
            p@,
        ) is Some)
    } by {
        lemma_view_rank(*c, version, i);
        assert(step_views(steps@)[i] == steps@[i]@);
    }
}

/// 1 where `b` holds, else 0.
pub open spec fn one_if(b: bool) -> int {
    if b {
        1
    } else {
        0
    }
}

/// How many steps a configuration takes: one for each output, one more for the directory of each
/// that has one, one to tell where the log file is, and one for the log directory where something
/// is written there.
pub proof fn law_number_of_steps<'a>(
    c: &'a FsTraceConfig,
    version: &'static str,
    steps: Vec<LayerStep<'a>>,
)
    requires
        call_ensures(FsTraceConfig::layer_steps, (c, version), steps),
    ensures
        steps@.len() == one_if(c.otel_file_path is Some) + one_if(
            c.otel_file_path matches Some(p) && parent_on(c.platform, p@) is Some,
        ) + one_if(c.otel_parquet_file_path is Some) + one_if(
            c.otel_parquet_file_path matches Some(p) && parent_on(c.platform, p@) is Some,
        ) + 1 + one_if(c.enable_query_log || c.max_file_log_verbosity != LevelFilter::Off) + 2
            * one_if(c.max_file_log_verbosity != LevelFilter::Off) + 1 + one_if(c.enable_query_log)
            + one_if(c.export_to_otlp),
{
    lemma_plan_parts(*c, version);
    assert(step_views(steps@).len() == steps@.len());
    assert(before_console(*c).len() == jsonl_steps(
        c.platform,
        opt_path(c.otel_file_path),
        c.max_file_log_verbosity,
    ).len() + parquet_steps(c.platform, opt_path(c.otel_parquet_file_path)).len());
}

spec fn view_rank(step: StepView) -> int {
    match step {
        StepView::CreateDir { .. } => 0,
        StepView::JsonlFile { .. } => 1,
        StepView::ParquetFile { .. } => 2,
        StepView::Abort { .. } => 2,
        StepView::Console { .. } => 3,
        StepView::FileLog { .. } => 4,
        StepView::SetFileLogPath { .. } => 5,
        StepView::QueryLog { .. } => 6,
        StepView::Otlp { .. } => 7,
    }
}

/// Where the outputs stand in a plan.
proof fn lemma_view_rank(c: FsTraceConfig, version: &'static str, i: int)
    requires
        0 <= i < layer_plan(c, version).len(),
    ensures
        ({
            let step = layer_plan(c, version)[i];
            let rank = view_rank(step);
            let n = jsonl_steps(
                c.platform,
                opt_path(c.otel_file_path),
                c.max_file_log_verbosity,
            ).len();
            &&& rank == 1 ==> c.otel_file_path is Some && i == n - 1
            &&& rank == 2 ==> c.otel_parquet_file_path is Some && i == console_at(c) - 1 && i >= n
            &&& rank == 3 ==> i == console_at(c)
            &&& rank == 4 ==> c.max_file_log_verbosity != LevelFilter::Off && i == log_path_at(c)
                - 1 && i > console_at(c)
            &&& rank == 5 ==> i == log_path_at(c)
            &&& rank == 6 ==> c.enable_query_log && i == log_path_at(c) + 1
            &&& rank == 7 ==> c.export_to_otlp && i == layer_plan(c, version).len() - 1 && i
                > log_path_at(c) && (c.enable_query_log ==> i > log_path_at(c) + 1)
            &&& step is ParquetFile ==> (opt_path(c.otel_parquet_file_path) matches Some(p)
                && parent_on(c.platform, p) is Some)
        }),
{
    lemma_plan_parts(c, version);
    let step = layer_plan(c, version)[i];
    if i < console_at(c) {
        assert(step == before_console(c)[i]);
    } else if console_at(c) < i < log_path_at(c) {
        assert(step == before_log_path(c)[i - console_at(c) - 1]);
    } else if i > log_path_at(c) {
        assert(step == after_log_path(c, version)[i - log_path_at(c) - 1]);
    }
}

/// The steps to the log file are those of a configuration: none where files are off, else the
/// directory and the file, whose sink has the verbosity that was asked for.
#[verifier::rlimit(30)]
pub proof fn law_file_log_steps<'a>(
    max_verbosity: LevelFilter,
    log_path: &FsPath,
    log_file_name: Option<&str>,
    max_bytes: u64,
    format: LogFormat,
    invocation_id: u128,
    command: FsCommand,
    command_name: &'static str,
    platform: Platform,
    r: (Vec<LayerStep<'a>>, Option<FsPath>),
)
    requires
        call_ensures(
            build_file_log_consumer,
            (
                max_verbosity,
                log_path,
                log_file_name,
                max_bytes,
                format,
                invocation_id,
                command,
                command_name,
                platform,
            ),
            r,
        ),
    ensures
        max_verbosity == LevelFilter::Off ==> r.0@.len() == 0 && r.1 is None,
        max_verbosity != LevelFilter::Off ==> {
            &&& r.0@.len() == 2
            &&& r.0@[0] matches LayerStep::CreateDir { dir }
            &&& dir@ == log_path@
            &&& r.0@[1] matches LayerStep::FileLog {
                path,
                max_bytes: rotated_at,
                backup_count,
                sink,
            }
            &&& r.1 matches Some(known)
            &&& known@ == path@
            &&& log_file_name matches Some(name) ==> path@ == joined_text(
                platform,
                log_path@,
                name@,
            )
            &&& log_file_name is None ==> path@ == joined_text(platform, log_path@, "dbt.log"@)
            &&& rotated_at == max_bytes
            &&& backup_count == 5
            &&& sink is None <==> format == LogFormat::Otel
            &&& sink matches Some(s) ==> match s {
                FileLogLayer::Text { max_verbosity: level } => {
                    &&& level == max_verbosity
                    &&& format == LogFormat::Default || format == LogFormat::Text
                },
                FileLogLayer::Json {
                    max_verbosity: level,
                    invocation_id: id,
                    command: run,
                    command_name: name,
                } => {
                    &&& level == max_verbosity
                    &&& id == invocation_id
                    &&& run == command
                    &&& name == command_name
                    &&& format == LogFormat::Json
                },
            }
        },
{
    let views = step_views(r.0@);
    assert(views.len() == r.0@.len());
    assert forall|i: int| 0 <= i < views.len() implies views[i] == (#[trigger] r.0@[i])@ by {}
    if max_verbosity != LevelFilter::Off {
        assert(views[0] == r.0@[0]@);
        assert(views[1] == r.0@[1]@);
    }
}

/// The sink of JSON lines is attached to the given file, behind creating its directory where it
/// has one, and has the verbosity that was asked for.
pub proof fn law_jsonl_steps<'a>(
    file_path: &FsPath,
    max_verbosity: LevelFilter,
    platform: Platform,
    r: Vec<LayerStep<'a>>,
)
    requires
        call_ensures(build_jsonl_file_consumer, (file_path, max_verbosity, platform), r),
    ensures
        r@.len() > 0,
        r@.last() matches LayerStep::JsonlFile { path, max_verbosity: level, preprocessor } && {
            &&& path@ == file_path@
            &&& level == max_verbosity
            &&& preprocessor == LogPreprocessor::StripEscapes
        },
        match parent_on(platform, file_path@) {
            Some(dir) => r@.len() == 2 && (r@[0] matches LayerStep::CreateDir { dir: made }
                && made@ == dir),
            None => r@.len() == 1,
        },
{
    let views = step_views(r@);
    assert(views.len() == r@.len());
    assert(views[0] == r@[0]@);
    assert(views[views.len() - 1] == r@[r@.len() - 1]@);
}

/// What a step can come to. A step that opens a file can fail to open it; only creating a
/// directory and making the Parquet sink fail in a way of their own. A sink in a file leaves one
/// thing to be shut down, that on the terminal none. Without a layer end the steps that attach
/// none, and that of the exporter.
pub proof fn law_accepted_outcomes<'a, C, S, E>(
    step: &LayerStep<'a>,
    outcome: &StepOutcome<C, S, E>,
    r: bool,
)
    requires
        call_ensures(LayerStep::<'a>::accepts::<C, S, E>, (step, outcome), r),
    ensures
        *outcome is OpenFailed ==> (r <==> (*step is JsonlFile || *step is ParquetFile || *step
            is FileLog || *step is QueryLog)),
        *outcome is Failed ==> (r <==> (*step is CreateDir || *step is ParquetFile)),
        *outcome is Done ==> (r <==> (*step is CreateDir || *step is SetFileLogPath || *step is Otlp
            || *step is Abort || (*step matches LayerStep::FileLog { sink, .. } && sink is None))),
        *outcome matches StepOutcome::Attached { shutdown_items, .. } ==> (r <==> {
            ||| *step is Otlp
            ||| *step is Console && shutdown_items@.len() == 0
            ||| shutdown_items@.len() == 1 && (*step is JsonlFile || *step is ParquetFile || *step
                is QueryLog || (*step matches LayerStep::FileLog { sink, .. } && sink is Some))
        }),
{
}

/// Each file that cannot be opened is reported with a message of its own.
pub proof fn law_open_failure_messages<'a>(step: &LayerStep<'a>, r: Option<&'static str>)
    requires
        call_ensures(LayerStep::<'a>::open_failure, (step,), r),
    ensures
        *step is JsonlFile ==> opt_str(r) == Some("Failed to open telemetry jsonl file for append: "@),
        *step is ParquetFile ==> opt_str(r) == Some("Failed to create parquet file: "@),
        *step is FileLog ==> opt_str(r) == Some("Failed to open log file for append: "@),
        *step is QueryLog ==> opt_str(r) == Some("Failed to open query log file: "@),
        r is Some ==> *step is JsonlFile || *step is ParquetFile || *step is FileLog || *step
            is QueryLog,
{
}

/// Layers are attached in the order of the steps, none is lost and none is added; the same holds
/// of what is to be shut down.
pub proof fn law_attached_in_order<C, S, E>(
    a: Seq<StepOutcome<C, S, E>>,
    outcome: StepOutcome<C, S, E>,
    b: Seq<StepOutcome<C, S, E>>,
)
    ensures
        attached_layers(a + seq![outcome] + b) == attached_layers(a) + (match outcome {
            StepOutcome::Attached { layer, .. } => seq![layer],
            _ => Seq::<C>::empty(),
        }) + attached_layers(b),
        left_to_shut_down(a + seq![outcome] + b) == left_to_shut_down(a) + (match outcome {
            StepOutcome::Attached { shutdown_items, .. } => shutdown_items@,
            _ => Seq::<S>::empty(),
        }) + left_to_shut_down(b),
        attached_layers(Seq::<StepOutcome<C, S, E>>::empty()).len() == 0,
        left_to_shut_down(Seq::<StepOutcome<C, S, E>>::empty()).len() == 0,
{
    lemma_attached_concat(a + seq![outcome], b);
    assert((a + seq![outcome]).drop_last() =~= a);
    assert((a + seq![outcome]).last() == outcome);
    assert(attached_layers(a + seq![outcome]) =~= attached_layers(a) + (match outcome {
        StepOutcome::Attached { layer, .. } => seq![layer],
        _ => Seq::<C>::empty(),
    }));
    assert(left_to_shut_down(a + seq![outcome]) =~= left_to_shut_down(a) + (match outcome {
        StepOutcome::Attached { shutdown_items, .. } => shutdown_items@,
        _ => Seq::<S>::empty(),
    }));
}

proof fn lemma_attached_concat<C, S, E>(
    a: Seq<StepOutcome<C, S, E>>,
    b: Seq<StepOutcome<C, S, E>>,
)
    ensures
        attached_layers(a + b) == attached_layers(a) + attached_layers(b),
        left_to_shut_down(a + b) == left_to_shut_down(a) + left_to_shut_down(b),
    decreases b.len(),
{
    if b.len() == 0 {
        assert(a + b =~= a);
        assert(attached_layers(a) + attached_layers(b) =~= attached_layers(a));
        assert(left_to_shut_down(a) + left_to_shut_down(b) =~= left_to_shut_down(a));
    } else {
        lemma_attached_concat(a, b.drop_last());
        assert((a + b).drop_last() =~= a + b.drop_last());
        assert((a + b).last() == b.last());
        assert(attached_layers(a + b) =~= attached_layers(a) + attached_layers(b));
        assert(left_to_shut_down(a + b) =~= left_to_shut_down(a) + left_to_shut_down(b));
    }
}

/// Whether `outcomes` are what performing `steps` came to. A step about the provider is not
/// performed outside.
pub open spec fn came_to<'a, C, S, E, F: Fn(&LayerStep<'a>) -> StepOutcome<C, S, E>>(
    perform: F,
    steps: Seq<LayerStep<'a>>,
    outcomes: Seq<StepOutcome<C, S, E>>,
) -> bool {
    forall|i: int|
        0 <= i < outcomes.len() && !(steps[i] is SetFileLogPath) ==> perform.ensures(
            (&steps[i],),
            #[trigger] outcomes[i],
        )
}

/// A build that is through has performed each of its steps, and none failed. A record passes the
/// stages in a fixed order: the options of the provider decide on warnings before warnings are
/// counted.
#[verifier::rlimit(30)]
pub proof fn law_build_goes_through<
    'a,
    K,
    P: TracingConfigProvider,
    C,
    S,
    E,
    F: Fn(&LayerStep<'a>) -> StepOutcome<C, S, E>,
>(
    c: FsTraceConfig,
    config_provider: K,
    before: P,
    after: P,
    version: &'static str,
    perform: F,
    layers: FsTraceLayers<K, C, S>,
)
    requires
        layers_built(
            c,
            config_provider,
            before,
            after,
            version,
            perform,
            Ok::<FsTraceLayers<K, C, S>, LayerError<E>>(layers),
        ),
    ensures
        exists|steps: Seq<LayerStep<'a>>, outcomes: Seq<StepOutcome<C, S, E>>|
            {
                &&& step_views(steps) == layer_plan(c, version)
                &&& outcomes.len() == steps.len()
                &&& #[trigger] came_to(perform, steps, outcomes)
                &&& forall|i: int|
                    0 <= i < outcomes.len() ==> !(#[trigger] outcomes[i] is OpenFailed)
                        && !(outcomes[i] is Failed) && !(steps[i] is Abort)
                &&& layers.consumer_layers@ == attached_layers(outcomes)
                &&& layers.shutdown_items@ == left_to_shut_down(outcomes)
            },
        layers.middleware_layers@.len() == 5,
        layers.middleware_layers@[0] is MarkdownLogFilter,
        layers.middleware_layers@[1] matches MiddlewareLayer::ParsingErrorFilter {
            show_all_deprecations,
        } && show_all_deprecations == c.show_all_deprecations,
        layers.middleware_layers@[2] matches MiddlewareLayer::WarnErrorOptions {
            config_provider: asked,
            skip_fusion_only_upgrades,
        } && asked == config_provider && skip_fusion_only_upgrades == c.skip_fusion_only_upgrades,
        layers.middleware_layers@[3] is NodeWarnOutcome,
        layers.middleware_layers@[4] is MetricAggregator,
        after.options() == before.options(),
        after.keeps() == before.keeps(),
        !before.keeps() ==> after.log_file() == before.log_file(),
        before.keeps() ==> (after.log_file() is Some <==> c.max_file_log_verbosity
            != LevelFilter::Off),
        before.keeps() && c.max_file_log_verbosity != LevelFilter::Off ==> after.log_file() == Some(
            joined_text(
                c.platform,
                c.log_path@,
                if c.log_file_name is Some {
                    c.log_file_name->0@
                } else {
                    "dbt.log"@
                },
            ),
        ),
{
    let r = Ok::<FsTraceLayers<K, C, S>, LayerError<E>>(layers);
    let (steps, outcomes) = choose|steps: Seq<LayerStep<'a>>, outcomes: Seq<StepOutcome<C, S, E>>|
        {
            &&& #[trigger] is_built(c, config_provider, version, perform, steps, outcomes, r)
            &&& is_told(c, version, outcomes, before, after)
        };
    if before.keeps() {
        law_built_provider(c, config_provider, before, after, version, perform, r);
    }
    assert forall|i: int|
        0 <= i < outcomes.len() && !(steps[i] is SetFileLogPath) implies perform.ensures(
        (&steps[i],),
        #[trigger] outcomes[i],
    ) by {
        assert(fits(steps[i]@, outcomes[i]));
    }
    assert(came_to(perform, steps, outcomes));
    assert forall|i: int| 0 <= i < outcomes.len() implies !(#[trigger] outcomes[i] is OpenFailed)
        && !(outcomes[i] is Failed) && !(steps[i] is Abort) by {
        assert(fits(steps[i]@, outcomes[i]));
        assert(!is_failure(outcomes[i]));
    }
}

/// A build that fails reports the first step that failed: a file that could not be opened as a
/// failure of input and output, with the reason behind a message of its own; what a step reports
/// itself as it is. No step behind it was performed. A Parquet file without a directory fails too.
#[verifier::rlimit(30)]
pub proof fn law_build_failure_is_reported<
    'a,
    K,
    P: TracingConfigProvider,
    C,
    S,
    E,
    F: Fn(&LayerStep<'a>) -> StepOutcome<C, S, E>,
>(
    c: FsTraceConfig,
    config_provider: K,
    before: P,
    after: P,
    version: &'static str,
    perform: F,
    error: LayerError<E>,
)
    requires
        layers_built(
            c,
            config_provider,
            before,
            after,
            version,
            perform,
            Err::<FsTraceLayers<K, C, S>, LayerError<E>>(error),
        ),
    ensures
        after.options() == before.options(),
        exists|steps: Seq<LayerStep<'a>>, outcomes: Seq<StepOutcome<C, S, E>>|
            {
                &&& step_views(steps) == layer_plan(c, version)
                &&& outcomes.len() <= steps.len()
                &&& #[trigger] came_to(perform, steps, outcomes)
                &&& forall|i: int|
                    0 <= i < outcomes.len() - 1 ==> !(#[trigger] outcomes[i] is OpenFailed)
                        && !(outcomes[i] is Failed)
                &&& match error {
                    LayerError::Step(e) => outcomes.len() > 0 && outcomes.last()
                        == StepOutcome::<C, S, E>::Failed(e),
                    LayerError::Fs(e) => {
                        &&& e.code == ErrorCode::IoError
                        &&& {
                            ||| {
                                &&& outcomes.len() > 0
                                &&& outcomes.last() matches StepOutcome::OpenFailed(reason)
                                &&& is_open_failure(
                                    steps[outcomes.len() - 1],
                                    reason@,
                                    e.message@,
                                )
                            }
                            ||| {
                                &&& opt_path(c.otel_parquet_file_path) matches Some(p)
                                &&& parent_on(c.platform, p) is None
                                &&& outcomes.len() < steps.len()
                                &&& steps[outcomes.len() as int] is Abort
                                &&& e.message@ == "Failed to get parent directory for file path"@
                            }
                        }
                    },
                }
            },
{
    let r = Err::<FsTraceLayers<K, C, S>, LayerError<E>>(error);
    let (steps, outcomes) = choose|steps: Seq<LayerStep<'a>>, outcomes: Seq<StepOutcome<C, S, E>>|
        {
            &&& #[trigger] is_built(c, config_provider, version, perform, steps, outcomes, r)
            &&& is_told(c, version, outcomes, before, after)
        };
    let n = outcomes.len() as int;
    assert forall|i: int|
        0 <= i < n && !(steps[i] is SetFileLogPath) implies perform.ensures(
        (&steps[i],),
        #[trigger] outcomes[i],
    ) by {
        assert(fits(steps[i]@, outcomes[i]));
    }
    assert(came_to(perform, steps, outcomes));
    assert forall|i: int| 0 <= i < n - 1 implies !(#[trigger] outcomes[i] is OpenFailed)
        && !(outcomes[i] is Failed) by {
        assert(!is_failure(outcomes[i]));
    }
    if n > 0 && is_failure(outcomes[n - 1]) {
        assert(fits(steps[n - 1]@, outcomes[n - 1]));
    } else {
        lemma_view_rank(c, version, n);
        lemma_plan_parts(c, version);
        assert(step_views(steps)[n] == steps[n]@);
        if n < console_at(c) {
            assert(layer_plan(c, version)[n] == before_console(c)[n]);
        } else if console_at(c) < n < log_path_at(c) {
            assert(layer_plan(c, version)[n] == before_log_path(c)[n - console_at(c) - 1]);
        } else if n > log_path_at(c) {
            assert(layer_plan(c, version)[n] == after_log_path(c, version)[n - log_path_at(c) - 1]);
        }
    }
}

/// Whether `message` reports that the file of a step could not be opened for a reason.
pub open spec fn is_open_failure(
    step: LayerStep<'_>,
    reason: Seq<char>,
    message: Seq<char>,
) -> bool {
    match step {
        LayerStep::JsonlFile { .. } => message
            == "Failed to open telemetry jsonl file for append: "@ + reason,
        LayerStep::ParquetFile { .. } => message == "Failed to create parquet file: "@ + reason,
        LayerStep::FileLog { .. } => message == "Failed to open log file for append: "@ + reason,
        LayerStep::QueryLog { .. } => message == "Failed to open query log file: "@ + reason,
        _ => false,
    }
}

} // verus!

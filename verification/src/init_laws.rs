//! Laws of setting tracing up and taking it down.

use crate::config::FsTraceConfig;
use crate::error::ErrorCode;
use crate::error::FsError;
use crate::feature_handles::TracingConfigProvider;
use crate::init::base_verbosity;
use crate::init::begun;
use crate::init::dbt_max_log_verbosity;
use crate::init::dbt_tracing_filter_directives;
use crate::init::failures;
use crate::init::filter_directives;
use crate::init::init_tracing_cli_reloadable;
use crate::init::init_tracing_reloadable;
use crate::init::init_tracing_with_data_layer;
use crate::init::init_tracing_with_layers;
use crate::init::initialized;
use crate::init::initialized_from;
use crate::init::initialized_reloadable;
use crate::init::initialized_with_layers;
use crate::init::is_asked_verbosity;
use crate::init::shut_down;
use crate::init::shutdown_all;
use crate::init::teardown_errors;
use crate::init::torn_down;
use crate::init::InitError;
use crate::init::InvocationError;
use crate::init::InvocationTracingGuard;
use crate::init::ProcessTracing;
use crate::init::TelemetryHandle;
use crate::layers::FsTraceLayers;
use crate::layers::LayerError;
use crate::layers::MiddlewareLayer;
use crate::level::LevelFilter;
use crate::task_run::init_tracing_for_tests;
use vstd::prelude::*;

verus! {

/// Whether some filter directives silence the libraries below the network, and nothing else.
pub open spec fn silences_libraries(directives: Seq<&'static str>) -> bool {
    &&& directives.len() == 5
    &&& directives[0]@ == "hyper=off"@
    &&& directives[1]@ == "h2=off"@
    &&& directives[2]@ == "reqwest=off"@
    &&& directives[3]@ == "ureq=off"@
    &&& directives[4]@ == "opentelemetry=off"@
}

/// The filter directives silence the libraries below the network.
pub proof fn law_filter_directives(r: Vec<&'static str>)
    requires
        call_ensures(dbt_tracing_filter_directives, (), r),
    ensures
        silences_libraries(r@),
{
}

/// Whether `level` is the cap of the subscriber where `asked` is asked for: trace where trace is
/// asked for, else debug.
pub open spec fn is_cap(asked: LevelFilter, level: LevelFilter) -> bool {
    &&& asked == LevelFilter::Trace ==> level == LevelFilter::Trace
    &&& asked != LevelFilter::Trace ==> level == LevelFilter::Debug
}

/// The subscriber lets debug lines through whatever the outputs show, and trace lines exactly
/// where they are asked for.
pub proof fn law_subscriber_cap(asked: LevelFilter, r: LevelFilter)
    requires
        call_ensures(dbt_max_log_verbosity, (asked,), r),
    ensures
        asked == LevelFilter::Trace ==> r == LevelFilter::Trace,
        asked != LevelFilter::Trace ==> r == LevelFilter::Debug,
{
}

/// Whether `r` is what installing the subscriber gives for the verbosity `asked`.
pub open spec fn is_installed<A, D, R, F: FnOnce(LevelFilter, A, D, Vec<&'static str>) -> R>(
    init: F,
    asked: LevelFilter,
    attributes: A,
    data_layer: D,
    r: R,
) -> bool {
    exists|level: LevelFilter, directives: Vec<&'static str>|
        {
            &&& is_cap(asked, level)
            &&& silences_libraries(directives@)
            &&& #[trigger] init.ensures((level, attributes, data_layer, directives), r)
        }
}

proof fn lemma_installed<A, D, R, F: FnOnce(LevelFilter, A, D, Vec<&'static str>) -> R>(
    init: F,
    asked: LevelFilter,
    attributes: A,
    data_layer: D,
    r: R,
)
    requires
        initialized(init, asked, attributes, data_layer, r),
    ensures
        is_installed(init, asked, attributes, data_layer, r),
{
    let directives = choose|directives: Vec<&'static str>|
        directives@ == filter_directives() && #[trigger] init.ensures(
            (base_verbosity(asked), attributes, data_layer, directives),
            r,
        );
    assert(silences_libraries(directives@));
    assert(is_cap(asked, base_verbosity(asked)));
}

/// The subscriber is installed once, with the attributes and the data layer that are given, and
/// what installing it gives is handed back.
pub proof fn law_data_layer_is_installed<
    A,
    D,
    R,
    F: FnOnce(LevelFilter, A, D, Vec<&'static str>) -> R,
>(asked: LevelFilter, attributes: A, data_layer: D, init: F, r: R)
    requires
        call_ensures(
            init_tracing_with_data_layer::<A, D, R, F>,
            (asked, attributes, data_layer, init),
            r,
        ),
    ensures
        is_installed(init, asked, attributes, data_layer, r),
{
    lemma_installed(init, asked, attributes, data_layer, r);
}

/// Whether `r` is what installing layers comes to. The data layer is made of the trace, its
/// parent and the layers; code locations are stripped except in debug builds; the process span is
/// labelled with the package. What the layers leave to be shut down is handed back.
pub open spec fn layers_installed<
    K,
    C,
    S,
    A,
    D,
    N,
    G,
    FD: FnOnce(u128, Option<u64>, bool, Vec<MiddlewareLayer<K>>, Vec<C>) -> D,
    FA: FnOnce(&'static str) -> A,
    FI: FnOnce(LevelFilter, A, D, Vec<&'static str>) -> Result<N, G>,
>(
    package: &'static str,
    trace_id: u128,
    parent_span_id: Option<u64>,
    asked: LevelFilter,
    layers: FsTraceLayers<K, C, S>,
    debug_build: bool,
    make_layer: FD,
    attributes: FA,
    init: FI,
    r: Result<TelemetryHandle<S, N>, G>,
) -> bool {
    exists|d: D, a: A, span: Result<N, G>, strip: bool|
        {
            &&& strip != debug_build
            &&& #[trigger] make_layer.ensures(
                (
                    trace_id,
                    parent_span_id,
                    strip,
                    layers.middleware_layers,
                    layers.consumer_layers,
                ),
                d,
            )
            &&& attributes.ensures((package,), a)
            &&& #[trigger] is_installed(init, asked, a, d, span)
            &&& span matches Err(e) ==> r == Err::<TelemetryHandle<S, N>, G>(e)
            &&& span matches Ok(process_span) ==> {
                &&& r matches Ok(handle)
                &&& handle.process_span == process_span
                &&& handle.shutdown_items == layers.shutdown_items
            }
        }
}

proof fn lemma_layers_installed<
    K,
    C,
    S,
    A,
    D,
    N,
    G,
    FD: FnOnce(u128, Option<u64>, bool, Vec<MiddlewareLayer<K>>, Vec<C>) -> D,
    FA: FnOnce(&'static str) -> A,
    FI: FnOnce(LevelFilter, A, D, Vec<&'static str>) -> Result<N, G>,
>(
    package: &'static str,
    trace_id: u128,
    parent_span_id: Option<u64>,
    asked: LevelFilter,
    layers: FsTraceLayers<K, C, S>,
    debug_build: bool,
    make_layer: FD,
    attributes: FA,
    init: FI,
    r: Result<TelemetryHandle<S, N>, G>,
)
    requires
        initialized_with_layers(
            package,
            trace_id,
            parent_span_id,
            asked,
            layers,
            debug_build,
            make_layer,
            attributes,
            init,
            r,
        ),
    ensures
        layers_installed(
            package,
            trace_id,
            parent_span_id,
            asked,
            layers,
            debug_build,
            make_layer,
            attributes,
            init,
            r,
        ),
{
    let (d, a, span) = choose|d: D, a: A, span: Result<N, G>|
        {
            &&& make_layer.ensures(
                (
                    trace_id,
                    parent_span_id,
                    !debug_build,
                    layers.middleware_layers,
                    layers.consumer_layers,
                ),
                d,
            )
            &&& attributes.ensures((package,), a)
            &&& #[trigger] initialized(init, asked, a, d, span)
            &&& match span {
                Ok(process_span) => r == Ok::<TelemetryHandle<S, N>, G>(
                    TelemetryHandle { shutdown_items: layers.shutdown_items, process_span },
                ),
                Err(e) => r == Err::<TelemetryHandle<S, N>, G>(e),
            }
        };
    lemma_installed(init, asked, a, d, span);
    let strip = !debug_build;
    assert(make_layer.ensures(
        (
            trace_id,
            parent_span_id,
            strip,
            layers.middleware_layers,
            layers.consumer_layers,
        ),
        d,
    ));
}

/// Given layers are installed as [`layers_installed`] says.
pub proof fn law_layers_are_installed<
    K,
    C,
    S,
    A,
    D,
    N,
    G,
    FD: FnOnce(u128, Option<u64>, bool, Vec<MiddlewareLayer<K>>, Vec<C>) -> D,
    FA: FnOnce(&'static str) -> A,
    FI: FnOnce(LevelFilter, A, D, Vec<&'static str>) -> Result<N, G>,
>(
    package: &'static str,
    trace_id: u128,
    parent_span_id: Option<u64>,
    asked: LevelFilter,
    layers: FsTraceLayers<K, C, S>,
    debug_build: bool,
    make_layer: FD,
    attributes: FA,
    init: FI,
    r: Result<TelemetryHandle<S, N>, G>,
)
    requires
        call_ensures(
            init_tracing_with_layers::<K, C, S, A, D, N, G, FD, FA, FI>,
            (
                package,
                trace_id,
                parent_span_id,
                asked,
                layers,
                debug_build,
                make_layer,
                attributes,
                init,
            ),
            r,
        ),
    ensures
        layers_installed(
            package,
            trace_id,
            parent_span_id,
            asked,
            layers,
            debug_build,
            make_layer,
            attributes,
            init,
            r,
        ),
{
    lemma_layers_installed(
        package,
        trace_id,
        parent_span_id,
        asked,
        layers,
        debug_build,
        make_layer,
        attributes,
        init,
        r,
    );
}

/// Setting tracing up for a configuration whose layers were built installs them under the trace
/// of the invocation and the package of the configuration. The subscriber lets trace lines
/// through exactly where the terminal or the log file asks for them.
pub proof fn law_configuration_is_installed<
    K,
    C,
    S,
    E,
    A,
    D,
    N,
    G,
    FD: FnOnce(u128, Option<u64>, bool, Vec<MiddlewareLayer<K>>, Vec<C>) -> D,
    FA: FnOnce(&'static str) -> A,
    FI: FnOnce(LevelFilter, A, D, Vec<&'static str>) -> Result<N, G>,
>(
    c: FsTraceConfig,
    built: Result<FsTraceLayers<K, C, S>, LayerError<E>>,
    debug_build: bool,
    make_layer: FD,
    attributes: FA,
    init: FI,
    r: Result<TelemetryHandle<S, N>, InitError<E, G>>,
)
    requires
        initialized_from(c, built, debug_build, make_layer, attributes, init, r),
    ensures
        built matches Err(e) ==> (r matches Err(InitError::Layers(f)) && f == e),
        built matches Ok(layers) ==> exists|
            asked: LevelFilter,
            handle: Result<TelemetryHandle<S, N>, G>,
        |
            {
                &&& asked == LevelFilter::Trace <==> c.max_log_verbosity == LevelFilter::Trace
                    || c.max_file_log_verbosity == LevelFilter::Trace
                &&& #[trigger] layers_installed(
                    c.package,
                    c.invocation_id,
                    c.parent_span_id,
                    asked,
                    layers,
                    debug_build,
                    make_layer,
                    attributes,
                    init,
                    handle,
                )
                &&& handle matches Ok(h) ==> (r matches Ok(given) && given == h)
                &&& handle matches Err(e) ==> (r matches Err(InitError::Backend(f)) && f == e)
            },
{
    if let Ok(layers) = built {
        let (asked, handle) = choose|asked: LevelFilter, handle: Result<TelemetryHandle<S, N>, G>|
            {
                &&& is_asked_verbosity(c, asked)
                &&& #[trigger] initialized_with_layers(
                    c.package,
                    c.invocation_id,
                    c.parent_span_id,
                    asked,
                    layers,
                    debug_build,
                    make_layer,
                    attributes,
                    init,
                    handle,
                )
                &&& match handle {
                    Ok(h) => r == Ok::<TelemetryHandle<S, N>, InitError<E, G>>(h),
                    Err(e) => r == Err::<TelemetryHandle<S, N>, InitError<E, G>>(
                        InitError::Backend(e),
                    ),
                }
            };
        lemma_layers_installed(
            c.package,
            c.invocation_id,
            c.parent_span_id,
            asked,
            layers,
            debug_build,
            make_layer,
            attributes,
            init,
            handle,
        );
    }
}

/// Whether `r` is what setting tracing up without layers comes to. There is no parent span; code
/// locations are stripped except in debug builds; the handle by which layers are exchanged later
/// is that of the data layer that was installed.
pub open spec fn reloadable_installed<
    A,
    D,
    P,
    H,
    E,
    FD: FnOnce(u128, Option<u64>, bool) -> (D, H),
    FA: FnOnce(&'static str) -> A,
    FI: FnOnce(LevelFilter, A, D, Vec<&'static str>) -> Result<P, E>,
>(
    package: &'static str,
    trace_id: u128,
    asked: LevelFilter,
    debug_build: bool,
    make_layer: FD,
    attributes: FA,
    init: FI,
    r: Result<ProcessTracing<P, H>, E>,
) -> bool {
    exists|d: D, h: H, a: A, span: Result<P, E>, strip: bool|
        {
            &&& strip != debug_build
            &&& #[trigger] make_layer.ensures((trace_id, None, strip), (d, h))
            &&& attributes.ensures((package,), a)
            &&& #[trigger] is_installed(init, asked, a, d, span)
            &&& span matches Err(e) ==> r == Err::<ProcessTracing<P, H>, E>(e)
            &&& span matches Ok(process_span) ==> {
                &&& r matches Ok(process)
                &&& process.process_span == process_span
                &&& process.reload_handle == h
            }
        }
}

proof fn lemma_reloadable_installed<
    A,
    D,
    P,
    H,
    E,
    FD: FnOnce(u128, Option<u64>, bool) -> (D, H),
    FA: FnOnce(&'static str) -> A,
    FI: FnOnce(LevelFilter, A, D, Vec<&'static str>) -> Result<P, E>,
>(
    package: &'static str,
    trace_id: u128,
    asked: LevelFilter,
    debug_build: bool,
    make_layer: FD,
    attributes: FA,
    init: FI,
    r: Result<ProcessTracing<P, H>, E>,
)
    requires
        initialized_reloadable(
            package,
            trace_id,
            asked,
            debug_build,
            make_layer,
            attributes,
            init,
            r,
        ),
    ensures
        reloadable_installed(
            package,
            trace_id,
            asked,
            debug_build,
            make_layer,
            attributes,
            init,
            r,
        ),
{
    let (made, a, span) = choose|made: (D, H), a: A, span: Result<P, E>|
        {
            &&& make_layer.ensures((trace_id, None, !debug_build), made)
            &&& attributes.ensures((package,), a)
            &&& #[trigger] initialized(init, asked, a, made.0, span)
            &&& match span {
                Ok(process_span) => r == Ok::<ProcessTracing<P, H>, E>(
                    ProcessTracing { process_span, reload_handle: made.1 },
                ),
                Err(e) => r == Err::<ProcessTracing<P, H>, E>(e),
            }
        };
    lemma_installed(init, asked, a, made.0, span);
    let strip = !debug_build;
    assert(made == (made.0, made.1));
    assert(make_layer.ensures((trace_id, None, strip), (made.0, made.1)));
}

/// Tracing without layers is set up as [`reloadable_installed`] says, under the given trace.
pub proof fn law_reloadable_is_installed<
    A,
    D,
    P,
    H,
    E,
    FD: FnOnce(u128, Option<u64>, bool) -> (D, H),
    FA: FnOnce(&'static str) -> A,
    FI: FnOnce(LevelFilter, A, D, Vec<&'static str>) -> Result<P, E>,
>(
    package: &'static str,
    trace_id: u128,
    asked: LevelFilter,
    debug_build: bool,
    make_layer: FD,
    attributes: FA,
    init: FI,
    r: Result<ProcessTracing<P, H>, E>,
)
    requires
        call_ensures(
            init_tracing_reloadable::<A, D, P, H, E, FD, FA, FI>,
            (package, trace_id, asked, debug_build, make_layer, attributes, init),
            r,
        ),
    ensures
        reloadable_installed(
            package,
            trace_id,
            asked,
            debug_build,
            make_layer,
            attributes,
            init,
            r,
        ),
{
    lemma_reloadable_installed(
        package,
        trace_id,
        asked,
        debug_build,
        make_layer,
        attributes,
        init,
        r,
    );
}

/// A process without an invocation is traced under an identifier laid out as a version 7 UUID.
pub proof fn law_process_is_installed<
    A,
    D,
    P,
    H,
    E,
    FD: FnOnce(u128, Option<u64>, bool) -> (D, H),
    FA: FnOnce(&'static str) -> A,
    FI: FnOnce(LevelFilter, A, D, Vec<&'static str>) -> Result<P, E>,
>(
    package: &'static str,
    asked: LevelFilter,
    debug_build: bool,
    make_layer: FD,
    attributes: FA,
    init: FI,
    r: Result<ProcessTracing<P, H>, E>,
)
    requires
        call_ensures(
            init_tracing_cli_reloadable::<A, D, P, H, E, FD, FA, FI>,
            (package, asked, debug_build, make_layer, attributes, init),
            r,
        ),
    ensures
        exists|id: u128|
            {
                &&& (id >> 76) & 0xf == 7
                &&& (id >> 62) & 0x3 == 2
                &&& #[trigger] reloadable_installed(
                    package,
                    id,
                    asked,
                    debug_build,
                    make_layer,
                    attributes,
                    init,
                    r,
                )
            },
{
    let id = choose|id: u128|
        crate::outside::is_v7(id) && #[trigger] initialized_reloadable(
            package,
            id,
            asked,
            debug_build,
            make_layer,
            attributes,
            init,
            r,
        );
    lemma_reloadable_installed(
        package,
        id,
        asked,
        debug_build,
        make_layer,
        attributes,
        init,
        r,
    );
}

/// Tests are traced at full verbosity, all under the same trace.
pub proof fn law_tests_are_traced<
    A,
    D,
    P,
    H,
    E,
    FD: FnOnce(u128, Option<u64>, bool) -> (D, H),
    FA: FnOnce(&'static str) -> A,
    FI: FnOnce(LevelFilter, A, D, Vec<&'static str>) -> Result<P, E>,
>(debug_build: bool, make_layer: FD, attributes: FA, init: FI, r: Result<ProcessTracing<P, H>, E>)
    requires
        call_ensures(
            init_tracing_for_tests::<A, D, P, H, E, FD, FA, FI>,
            (debug_build, make_layer, attributes, init),
            r,
        ),
    ensures
        exists|package: &'static str|
            {
                &&& package@ == "dbt-tests"@
                &&& #[trigger] reloadable_installed(
                    package,
                    1,
                    LevelFilter::Trace,
                    debug_build,
                    make_layer,
                    attributes,
                    init,
                    r,
                )
            },
{
    lemma_reloadable_installed(
        crate::command::DBT_TESTS_PACKAGE,
        1,
        LevelFilter::Trace,
        debug_build,
        make_layer,
        attributes,
        init,
        r,
    );
}

/// An invocation begins exactly where its layers were built and installed. It then has the
/// warn-error options of its configuration in force, holds what its layers leave to be shut down,
/// and has nothing shut down yet. Where it does not begin, no options change, and the reason is
/// reported.
pub proof fn law_invocation_begins<
    K,
    P: TracingConfigProvider,
    C,
    S,
    E,
    H: Clone,
    G: FnOnce(&H, Vec<MiddlewareLayer<K>>, Vec<C>) -> Result<(), String>,
>(
    reload_handle: H,
    c: FsTraceConfig,
    config_provider: K,
    built: Result<FsTraceLayers<K, C, S>, LayerError<E>>,
    between: P,
    after: P,
    install: G,
    r: Result<(InvocationTracingGuard<S, H>, K), InvocationError<E>>,
)
    requires
        begun(reload_handle, c, config_provider, built, between, after, install, r),
    ensures
        after.keeps() == between.keeps(),
        after.log_file() == between.log_file(),
        r is Err ==> after.options() == between.options(),
        r is Ok && between.keeps() ==> {
            &&& after.options().error == c.warn_error_options.error@
            &&& after.options().warn == c.warn_error_options.warn@
            &&& after.options().silence == c.warn_error_options.silence@
        },
        built matches Err(e) ==> (r matches Err(InvocationError::Layers(f)) && f == e),
        built matches Ok(layers) ==> match r {
            Ok((guard, provider)) => {
                &&& exists|installed: Result<(), String>|
                    installed is Ok && #[trigger] install.ensures(
                        (&reload_handle, layers.middleware_layers, layers.consumer_layers),
                        installed,
                    )
                &&& guard.shutdown_items == layers.shutdown_items
                &&& !guard.finished
                &&& cloned(reload_handle, guard.reload_handle)
                &&& provider == config_provider
            },
            Err(InvocationError::Install(e)) => {
                &&& e.code == ErrorCode::Generic
                &&& exists|reason: String|
                    {
                        &&& #[trigger] install.ensures(
                            (&reload_handle, layers.middleware_layers, layers.consumer_layers),
                            Err::<(), String>(reason),
                        )
                        &&& e.message@ == "Failed to install invocation telemetry layers: "@
                            + reason@
                    }
            },
            Err(InvocationError::Layers(_)) => false,
        },
{
    if let Ok(layers) = built {
        let installed = choose|installed: Result<(), String>|
            {
                &&& #[trigger] install.ensures(
                    (&reload_handle, layers.middleware_layers, layers.consumer_layers),
                    installed,
                )
                &&& match installed {
                    Ok(()) => {
                        &&& r matches Ok((guard, handed_back))
                        &&& guard.shutdown_items == layers.shutdown_items
                        &&& !guard.finished
                        &&& cloned(reload_handle, guard.reload_handle)
                        &&& handed_back == config_provider
                        &&& after.keeps() == between.keeps()
                        &&& after.log_file() == between.log_file()
                        &&& after.options() == if between.keeps() {
                            c.warn_error_options@
                        } else {
                            between.options()
                        }
                    },
                    Err(reason) => {
                        &&& crate::init::same_state(after, between)
                        &&& r matches Err(InvocationError::Install(e))
                        &&& e.code == ErrorCode::Generic
                        &&& e.message@ == "Failed to install invocation telemetry layers: "@
                            + reason@
                    },
                }
            };
        if let Err(reason) = installed {
            assert(installed == Err::<(), String>(reason));
        }
    }
}

proof fn lemma_failures_concat<E>(a: Seq<Result<(), E>>, b: Seq<Result<(), E>>)
    ensures
        failures(a + b) == failures(a) + failures(b),
    decreases b.len(),
{
    if b.len() == 0 {
        assert(a + b =~= a);
        assert(failures(a) + failures(b) =~= failures(a));
    } else {
        lemma_failures_concat(a, b.drop_last());
        assert((a + b).drop_last() =~= a + b.drop_last());
        assert((a + b).last() == b.last());
        assert(failures(a + b) =~= failures(a) + failures(b));
    }
}

/// The errors of several shutdowns are gathered in order: each that failed adds its error, each
/// that succeeded adds none.
pub proof fn law_failures_in_order<E>(
    a: Seq<Result<(), E>>,
    result: Result<(), E>,
    b: Seq<Result<(), E>>,
)
    ensures
        failures(Seq::<Result<(), E>>::empty()).len() == 0,
        result matches Err(e) ==> failures(a + seq![result] + b) == failures(a) + seq![e]
            + failures(b),
        result is Ok ==> failures(a + seq![result] + b) == failures(a) + failures(b),
{
    lemma_failures_concat(a + seq![result], b);
    assert((a + seq![result]).drop_last() =~= a);
    assert((a + seq![result]).last() == result);
    match result {
        Ok(()) => {
            assert(failures(a + seq![result]) == failures(a));
        },
        Err(e) => {
            assert(failures(a + seq![result]) =~= failures(a) + seq![e]);
        },
    }
}

/// Every item is shut down, also behind one that failed, and there is one error for each that
/// failed.
pub proof fn law_everything_is_shut_down<S, E, F: Fn(S) -> Result<(), E>>(
    items: Vec<S>,
    shutdown: &F,
    r: Vec<E>,
)
    requires
        call_ensures(shutdown_all::<S, E, F>, (items, shutdown), r),
    ensures
        exists|results: Seq<Result<(), E>>|
            {
                &&& results.len() == items@.len()
                &&& forall|i: int|
                    0 <= i < items@.len() ==> shutdown.ensures((items@[i],), #[trigger] results[i])
                &&& r@ == #[trigger] failures(results)
            },
{
    let results = choose|results: Seq<Result<(), E>>|
        #[trigger] shut_down(*shutdown, items@, results) && r@ == failures(results);
    assert(r@ == failures(results));
}

/// Ending an invocation shuts everything down that it holds and detaches its layers. It reports
/// every failure: those of the shutdowns, in order, and behind them that of the detachment. It
/// succeeds exactly where there is none. An invocation that has ended does nothing.
pub proof fn law_invocation_ends<
    K,
    C,
    S,
    H,
    F: Fn(S) -> Result<(), FsError>,
    G: FnOnce(&H, Vec<MiddlewareLayer<K>>, Vec<C>) -> Result<(), String>,
>(
    guard: InvocationTracingGuard<S, H>,
    shutdown: F,
    reload: G,
    r: Result<(), Vec<FsError>>,
)
    requires
        call_ensures(
            InvocationTracingGuard::<S, H>::finish::<K, C, F, G>,
            (guard, shutdown, reload),
            r,
        ),
    ensures
        guard.finished ==> r is Ok,
        !guard.finished ==> ended(
            guard.shutdown_items@,
            &guard.reload_handle,
            shutdown,
            reload,
            match r {
                Ok(()) => Seq::empty(),
                Err(errors) => errors@,
            },
        ),
        r matches Err(errors) ==> errors@.len() > 0,
{
    if !guard.finished {
        law_teardown_reports_failures::<K, C, S, H, F, G>(
            guard.shutdown_items@,
            &guard.reload_handle,
            shutdown,
            reload,
            match r {
                Ok(()) => Seq::empty(),
                Err(errors) => errors@,
            },
        );
    }
}

/// Whether shutting `items` down and detaching the layers behind `handle` can come to `errors`.
pub open spec fn ended<
    K,
    C,
    S,
    H,
    F: Fn(S) -> Result<(), FsError>,
    G: FnOnce(&H, Vec<MiddlewareLayer<K>>, Vec<C>) -> Result<(), String>,
>(items: Seq<S>, handle: &H, shutdown: F, reload: G, errors: Seq<FsError>) -> bool {
    exists|
        results: Seq<Result<(), FsError>>,
        m: Vec<MiddlewareLayer<K>>,
        c: Vec<C>,
        detached: Result<(), String>,
    |
        {
            &&& results.len() == items.len()
            &&& forall|i: int|
                0 <= i < items.len() ==> shutdown.ensures((items[i],), #[trigger] results[i])
            &&& m@.len() == 0
            &&& c@.len() == 0
            &&& #[trigger] reload.ensures((handle, m, c), detached)
            &&& detached is Ok ==> errors == #[trigger] failures(results)
            &&& detached matches Err(reason) ==> {
                &&& errors.len() == failures(results).len() + 1
                &&& errors.take(errors.len() - 1) == failures(results)
                &&& errors.last().code == ErrorCode::Generic
                &&& errors.last().message@ == "Failed to detach invocation telemetry layers: "@
                    + reason@
            }
        }
}

/// A teardown reports every failure.
pub proof fn law_teardown_reports_failures<
    K,
    C,
    S,
    H,
    F: Fn(S) -> Result<(), FsError>,
    G: FnOnce(&H, Vec<MiddlewareLayer<K>>, Vec<C>) -> Result<(), String>,
>(items: Seq<S>, handle: &H, shutdown: F, reload: G, errors: Seq<FsError>)
    requires
        torn_down::<K, C, S, H, F, G>(items, handle, shutdown, reload, errors),
    ensures
        ended::<K, C, S, H, F, G>(items, handle, shutdown, reload, errors),
{
    let (results, m, c, detached) = choose|
        results: Seq<Result<(), FsError>>,
        m: Vec<MiddlewareLayer<K>>,
        c: Vec<C>,
        detached: Result<(), String>,
    |
        {
            &&& #[trigger] shut_down(shutdown, items, results)
            &&& m@ == Seq::<MiddlewareLayer<K>>::empty()
            &&& c@ == Seq::<C>::empty()
            &&& #[trigger] reload.ensures((handle, m, c), detached)
            &&& teardown_errors(results, detached, errors)
        };
    if detached is Err {
        assert(errors.drop_last() =~= errors.take(errors.len() - 1));
    }
    assert(failures(results) == failures(results));
}

} // verus!

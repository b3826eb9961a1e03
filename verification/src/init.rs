//! Setting tracing up, for one process or for each of its invocations.
//!
//! The subscriber, its data layer and the handle by which layers are exchanged belong to the
//! telemetry backend. They are passed through here: `A` stands for the attributes of the
//! process span, `D` for the data layer, `N` for the process span, `H` for the reload handle,
//! `C` for an attached sink, `S` for something to shut down, `K` for a handle to a configuration
//! provider and `G` for the backend's errors.

use crate::config::FsTraceConfig;
use crate::error::ErrorCode;
use crate::error::FsError;
use crate::feature_handles::TracingConfigProvider;
use crate::layer_laws::law_built_provider;
use crate::layers::config_log_file;
use crate::layers::fits;
use crate::layers::layers_built;
use crate::layers::FsTraceLayers;
use crate::layers::LayerError;
use crate::layers::LayerStep;
use crate::layers::MiddlewareLayer;
use crate::layers::StepOutcome;
use crate::level::LevelFilter;
use crate::outside::fresh_v7;
use crate::outside::is_v7;
use vstd::prelude::*;

verus! {

/// The libraries that stay silent whatever the verbosity.
pub open spec fn filter_directives() -> Seq<&'static str> {
    seq!["hyper=off", "h2=off", "reqwest=off", "ureq=off", "opentelemetry=off"]
}

/// The libraries that stay silent whatever the verbosity, as filter directives.
pub fn dbt_tracing_filter_directives() -> (r: Vec<&'static str>)
    ensures
        r@ == filter_directives(),
{
    let r: Vec<&'static str> = vec![
        "hyper=off",
        "h2=off",
        "reqwest=off",
        "ureq=off",
        "opentelemetry=off",
    ];
    assert(r@ =~= filter_directives());
    r
}

/// The cap of the base subscriber for an output verbosity.
pub open spec fn base_verbosity(max_log_verbosity: LevelFilter) -> LevelFilter {
    if max_log_verbosity == LevelFilter::Trace {
        LevelFilter::Trace
    } else {
        LevelFilter::Debug
    }
}

/// Maps output verbosity to the cap of the base subscriber.
///
/// The subscriber stays open at debug unless trace is asked for, so that debug spans and events
/// enter the telemetry pipeline even where a sink is set to less; each sink still applies its
/// own filter. Trace remains opt-in because trace spans can be many.
pub fn dbt_max_log_verbosity(max_log_verbosity: LevelFilter) -> (r: LevelFilter)
    ensures
        r == base_verbosity(max_log_verbosity),
{
    if max_log_verbosity == LevelFilter::Trace {
        LevelFilter::Trace
    } else {
        LevelFilter::Debug
    }
}

/// Every verbosity below trace gives one and the same base subscriber, and no verbosity is cut
/// short by it.
pub proof fn law_base_verbosity_is_binary(a: LevelFilter, b: LevelFilter)
    ensures
        base_verbosity(a) == base_verbosity(b) <==> (a == LevelFilter::Trace <==> b
            == LevelFilter::Trace),
        base_verbosity(a).rank() >= a.rank(),
        base_verbosity(base_verbosity(a)) == base_verbosity(a),
{
}

/// Whether `r` is what `init` gives for the base subscriber of `max_log_verbosity`.
pub open spec fn initialized<A, D, R, F: FnOnce(LevelFilter, A, D, Vec<&'static str>) -> R>(
    init: F,
    max_log_verbosity: LevelFilter,
    process_attributes: A,
    data_layer: D,
    r: R,
) -> bool {
    exists|directives: Vec<&'static str>|
        directives@ == filter_directives() && #[trigger] init.ensures(
            (base_verbosity(max_log_verbosity), process_attributes, data_layer, directives),
            r,
        )
}

/// Sets tracing up with the base subscriber for `max_log_verbosity`. `init` installs the
/// subscriber; it gets the cap, the attributes of the process span, the data layer and the
/// filter directives.
pub fn init_tracing_with_data_layer<A, D, R, F: FnOnce(LevelFilter, A, D, Vec<&'static str>) -> R>(
    max_log_verbosity: LevelFilter,
    process_attributes: A,
    data_layer: D,
    init: F,
) -> (r: R)
    requires
        forall|level: LevelFilter, a: A, d: D, v: Vec<&'static str>|
            init.requires((level, a, d, v)),
    ensures
        initialized(init, max_log_verbosity, process_attributes, data_layer, r),
{
    init(
        dbt_max_log_verbosity(max_log_verbosity),
        process_attributes,
        data_layer,
        dbt_tracing_filter_directives(),
    )
}

/// What keeps telemetry going: the process span, and what has to be shut down in the end.
#[derive(Debug)]
pub struct TelemetryHandle<S, N> {
    pub shutdown_items: Vec<S>,
    pub process_span: N,
}

/// Whether `r` is what setting tracing up with given layers comes to.
///
/// `make_layer` gets the fallback trace and parent span, whether code locations are stripped,
/// and the layers.
pub open spec fn initialized_with_layers<
    K,
    C,
    S,
    A,
    D,
    N,
    G,
    FD: FnOnce(u128, Option<u64>, bool, Vec<MiddlewareLayer<K>>, Vec<C>) -> D,
    FA: FnOnce(&'static str) -> A,
    FI: FnOnce(LevelFilter, A, D, Vec<&'static str>) -> Result<N, G>,
>(
    package: &'static str,
    fallback_trace_id: u128,
    fallback_parent_span_id: Option<u64>,
    max_log_verbosity: LevelFilter,
    layers: FsTraceLayers<K, C, S>,
    debug_build: bool,
    make_layer: FD,
    attributes: FA,
    init: FI,
    r: Result<TelemetryHandle<S, N>, G>,
) -> bool {
    exists|d: D, a: A, span: Result<N, G>|
        {
            &&& make_layer.ensures(
                (
                    fallback_trace_id,
                    fallback_parent_span_id,
                    !debug_build,
                    layers.middleware_layers,
                    layers.consumer_layers,
                ),
                d,
            )
            &&& attributes.ensures((package,), a)
            &&& #[trigger] initialized(init, max_log_verbosity, a, d, span)
            &&& match span {
                Ok(process_span) => r == Ok::<TelemetryHandle<S, N>, G>(
                    TelemetryHandle { shutdown_items: layers.shutdown_items, process_span },
                ),
                Err(e) => r == Err::<TelemetryHandle<S, N>, G>(e),
            }
        }
}

/// Sets tracing up with given layers. Code locations are kept in debug builds only.
pub fn init_tracing_with_layers<
    K,
    C,
    S,
    A,
    D,
    N,
    G,
    FD: FnOnce(u128, Option<u64>, bool, Vec<MiddlewareLayer<K>>, Vec<C>) -> D,
    FA: FnOnce(&'static str) -> A,
    FI: FnOnce(LevelFilter, A, D, Vec<&'static str>) -> Result<N, G>,
>(
    package: &'static str,
    fallback_trace_id: u128,
    fallback_parent_span_id: Option<u64>,
    max_log_verbosity: LevelFilter,
    layers: FsTraceLayers<K, C, S>,
    debug_build: bool,
    make_layer: FD,
    attributes: FA,
    init: FI,
) -> (r: Result<TelemetryHandle<S, N>, G>)
    requires
        forall|id: u128, span: Option<u64>, strip: bool, m: Vec<MiddlewareLayer<K>>, c: Vec<C>|
            make_layer.requires((id, span, strip, m, c)),
        forall|p: &'static str| attributes.requires((p,)),
        forall|level: LevelFilter, a: A, d: D, v: Vec<&'static str>|
            init.requires((level, a, d, v)),
    ensures
        initialized_with_layers(
            package,
            fallback_trace_id,
            fallback_parent_span_id,
            max_log_verbosity,
            layers,
            debug_build,
            make_layer,
            attributes,
            init,
            r,
        ),
{
    let (middlewares, consumer_layers, shutdown_items) = layers.into_parts();
    let data_layer: D = make_layer(
        fallback_trace_id,
        fallback_parent_span_id,
        !debug_build,
        middlewares,
        consumer_layers,
    );
    let process_attributes: A = attributes(package);
    let span: Result<N, G> = init_tracing_with_data_layer(
        max_log_verbosity,
        process_attributes,
        data_layer,
        init,
    );
    assert(initialized(init, max_log_verbosity, process_attributes, data_layer, span));
    match span {
        Ok(process_span) => Ok(TelemetryHandle { shutdown_items, process_span }),
        Err(e) => Err(e),
    }
}

/// The verbosity that a configuration asks of the subscriber: the larger of that of the
/// terminal and that of the log file.
pub open spec fn is_asked_verbosity(config: FsTraceConfig, level: LevelFilter) -> bool {
    &&& level == config.max_log_verbosity || level == config.max_file_log_verbosity
    &&& level.rank() >= config.max_log_verbosity.rank()
    &&& level.rank() >= config.max_file_log_verbosity.rank()
}

/// Why tracing could not be set up for a configuration: its layers could not be built, or the
/// backend could not install them.
#[derive(Debug)]
pub enum InitError<E, G> {
    Layers(LayerError<E>),
    Backend(G),
}

/// Whether `r` is what setting tracing up for `config` comes to, where `built` is what building
/// its layers came to.
pub open spec fn initialized_from<
    K,
    C,
    S,
    E,
    A,
    D,
    N,
    G,
    FD: FnOnce(u128, Option<u64>, bool, Vec<MiddlewareLayer<K>>, Vec<C>) -> D,
    FA: FnOnce(&'static str) -> A,
    FI: FnOnce(LevelFilter, A, D, Vec<&'static str>) -> Result<N, G>,
>(
    config: FsTraceConfig,
    built: Result<FsTraceLayers<K, C, S>, LayerError<E>>,
    debug_build: bool,
    make_layer: FD,
    attributes: FA,
    init: FI,
    r: Result<TelemetryHandle<S, N>, InitError<E, G>>,
) -> bool {
    match built {
        Err(e) => r == Err::<TelemetryHandle<S, N>, InitError<E, G>>(InitError::Layers(e)),
        Ok(layers) => exists|level: LevelFilter, handle: Result<TelemetryHandle<S, N>, G>|
            {
                &&& is_asked_verbosity(config, level)
                &&& #[trigger] initialized_with_layers(
                    config.package,
                    config.invocation_id,
                    config.parent_span_id,
                    level,
                    layers,
                    debug_build,
                    make_layer,
                    attributes,
                    init,
                    handle,
                )
                &&& match handle {
                    Ok(h) => r == Ok::<TelemetryHandle<S, N>, InitError<E, G>>(h),
                    Err(e) => r == Err::<TelemetryHandle<S, N>, InitError<E, G>>(
                        InitError::Backend(e),
                    ),
                }
            },
    }
}

impl FsTraceConfig {
    /// Builds the layers of this configuration and sets tracing up with them. The trace is named
    /// by the invocation. Of `config_provider`, `provider`, `version` and `perform`, see
    /// [`FsTraceConfig::build_layers`].
    pub fn init<
        'a,
        K,
        P: TracingConfigProvider,
        C,
        S,
        E,
        A,
        D,
        N,
        G,
        F: Fn(&LayerStep<'a>) -> StepOutcome<C, S, E>,
        FD: FnOnce(u128, Option<u64>, bool, Vec<MiddlewareLayer<K>>, Vec<C>) -> D,
        FA: FnOnce(&'static str) -> A,
        FI: FnOnce(LevelFilter, A, D, Vec<&'static str>) -> Result<N, G>,
    >(
        &'a self,
        config_provider: K,
        provider: &mut P,
        version: &'static str,
        debug_build: bool,
        perform: F,
        make_layer: FD,
        attributes: FA,
        init: FI,
    ) -> (r: Result<TelemetryHandle<S, N>, InitError<E, G>>)
        requires
            forall|step: &LayerStep<'a>| perform.requires((step,)),
            forall|step: &LayerStep<'a>, outcome: StepOutcome<C, S, E>| #[trigger]
                perform.ensures((step,), outcome) ==> fits(step@, outcome),
            forall|id: u128, span: Option<u64>, strip: bool, m: Vec<MiddlewareLayer<K>>, c: Vec<C>|
                make_layer.requires((id, span, strip, m, c)),
            forall|p: &'static str| attributes.requires((p,)),
            forall|level: LevelFilter, a: A, d: D, v: Vec<&'static str>|
                init.requires((level, a, d, v)),
        ensures
            exists|built: Result<FsTraceLayers<K, C, S>, LayerError<E>>|
                {
                    &&& #[trigger] layers_built(
                        *self,
                        config_provider,
                        *old(provider),
                        *final(provider),
                        version,
                        perform,
                        built,
                    )
                    &&& initialized_from(
                        *self,
                        built,
                        debug_build,
                        make_layer,
                        attributes,
                        init,
                        r,
                    )
                },
    {
        let built: Result<FsTraceLayers<K, C, S>, LayerError<E>> = self.build_layers(
            config_provider,
            provider,
            version,
            perform,
        );
        match built {
            Err(e) => Err(InitError::Layers(e)),
            Ok(layers) => {
                let level: LevelFilter = self.max_log_verbosity.most_verbose(
                    self.max_file_log_verbosity,
                );
                let handle: Result<TelemetryHandle<S, N>, G> = init_tracing_with_layers(
                    self.package,
                    self.invocation_id,
                    self.parent_span_id,
                    level,
                    layers,
                    debug_build,
                    make_layer,
                    attributes,
                    init,
                );
                assert(initialized_with_layers(
                    self.package,
                    self.invocation_id,
                    self.parent_span_id,
                    level,
                    layers,
                    debug_build,
                    make_layer,
                    attributes,
                    init,
                    handle,
                ));
                match handle {
                    Ok(h) => Ok(h),
                    Err(e) => Err(InitError::Backend(e)),
                }
            },
        }
    }
}

/// The verbosity that a configuration asks of the subscriber is unique, and the subscriber it
/// gives lets through whatever one of its sinks lets through.
pub proof fn law_asked_verbosity(config: FsTraceConfig, a: LevelFilter, b: LevelFilter)
    requires
        is_asked_verbosity(config, a),
        is_asked_verbosity(config, b),
    ensures
        a == b,
        base_verbosity(a).rank() >= config.max_log_verbosity.rank(),
        base_verbosity(a).rank() >= config.max_file_log_verbosity.rank(),
{
}

/// Tracing of a process that runs many invocations. It has to stay alive as long as the
/// process.
#[derive(Debug)]
pub struct ProcessTracing<P, H> {
    pub process_span: P,
    pub reload_handle: H,
}

/// Whether `r` is what setting tracing up for many invocations comes to.
pub open spec fn initialized_reloadable<
    A,
    D,
    P,
    H,
    E,
    FD: FnOnce(u128, Option<u64>, bool) -> (D, H),
    FA: FnOnce(&'static str) -> A,
    FI: FnOnce(LevelFilter, A, D, Vec<&'static str>) -> Result<P, E>,
>(
    package: &'static str,
    fallback_trace_id: u128,
    max_log_verbosity: LevelFilter,
    debug_build: bool,
    make_layer: FD,
    attributes: FA,
    init: FI,
    r: Result<ProcessTracing<P, H>, E>,
) -> bool {
    exists|made: (D, H), a: A, span: Result<P, E>|
        {
            &&& make_layer.ensures((fallback_trace_id, None, !debug_build), made)
            &&& attributes.ensures((package,), a)
            &&& #[trigger] initialized(init, max_log_verbosity, a, made.0, span)
            &&& match span {
                Ok(process_span) => r == Ok::<ProcessTracing<P, H>, E>(
                    ProcessTracing { process_span, reload_handle: made.1 },
                ),
                Err(e) => r == Err::<ProcessTracing<P, H>, E>(e),
            }
        }
}

/// Sets tracing up without layers, under a given fallback trace; they are installed for each
/// invocation by [`ProcessTracing::begin_invocation`].
pub fn init_tracing_reloadable<
    A,
    D,
    P,
    H,
    E,
    FD: FnOnce(u128, Option<u64>, bool) -> (D, H),
    FA: FnOnce(&'static str) -> A,
    FI: FnOnce(LevelFilter, A, D, Vec<&'static str>) -> Result<P, E>,
>(
    package: &'static str,
    fallback_trace_id: u128,
    max_log_verbosity: LevelFilter,
    debug_build: bool,
    make_layer: FD,
    attributes: FA,
    init: FI,
) -> (r: Result<ProcessTracing<P, H>, E>)
    requires
        forall|id: u128, span: Option<u64>, strip: bool| make_layer.requires((id, span, strip)),
        forall|p: &'static str| attributes.requires((p,)),
        forall|level: LevelFilter, a: A, d: D, v: Vec<&'static str>|
            init.requires((level, a, d, v)),
    ensures
        initialized_reloadable(
            package,
            fallback_trace_id,
            max_log_verbosity,
            debug_build,
            make_layer,
            attributes,
            init,
            r,
        ),
{
    let made: (D, H) = make_layer(fallback_trace_id, None, !debug_build);
    let ghost both = made;
    let (data_layer, reload_handle) = made;
    let process_attributes: A = attributes(package);
    let span: Result<P, E> = init_tracing_with_data_layer(
        max_log_verbosity,
        process_attributes,
        data_layer,
        init,
    );
    assert(initialized(init, max_log_verbosity, process_attributes, both.0, span));
    match span {
        Ok(process_span) => Ok(ProcessTracing { process_span, reload_handle }),
        Err(e) => Err(e),
    }
}

/// Sets tracing up without layers, under a fresh fallback trace. There is no invocation yet to
/// borrow an identifier from; the fresh one only labels events outside of any invocation.
///
/// The verbosity is applied once, so it has to suit every later invocation.
pub fn init_tracing_cli_reloadable<
    A,
    D,
    P,
    H,
    E,
    FD: FnOnce(u128, Option<u64>, bool) -> (D, H),
    FA: FnOnce(&'static str) -> A,
    FI: FnOnce(LevelFilter, A, D, Vec<&'static str>) -> Result<P, E>,
>(
    package: &'static str,
    max_log_verbosity: LevelFilter,
    debug_build: bool,
    make_layer: FD,
    attributes: FA,
    init: FI,
) -> (r: Result<ProcessTracing<P, H>, E>)
    requires
        forall|id: u128, span: Option<u64>, strip: bool| make_layer.requires((id, span, strip)),
        forall|p: &'static str| attributes.requires((p,)),
        forall|level: LevelFilter, a: A, d: D, v: Vec<&'static str>|
            init.requires((level, a, d, v)),
    ensures
        exists|id: u128|
            is_v7(id) && #[trigger] initialized_reloadable(
                package,
                id,
                max_log_verbosity,
                debug_build,
                make_layer,
                attributes,
                init,
                r,
            ),
{
    let id: u128 = fresh_v7();
    init_tracing_reloadable(
        package,
        id,
        max_log_verbosity,
        debug_build,
        make_layer,
        attributes,
        init,
    )
}

/// Holds what an invocation has to shut down.
#[derive(Debug)]
pub struct InvocationTracingGuard<S, H> {
    pub shutdown_items: Vec<S>,
    pub reload_handle: H,
    /// Whether the layers of the invocation are gone.
    pub finished: bool,
}

/// Why an invocation could not begin: its layers could not be built, or not be installed.
#[derive(Debug)]
pub enum InvocationError<E> {
    Layers(LayerError<E>),
    Install(FsError),
}

/// Whether two providers say the same.
pub open spec fn same_state<P: TracingConfigProvider>(a: P, b: P) -> bool {
    &&& a.keeps() == b.keeps()
    &&& a.options() == b.options()
    &&& a.log_file() == b.log_file()
}

/// Whether `r` and `after` are what beginning an invocation comes to, where `built` is what
/// building the layers of `config` came to, and `between` the provider after that.
pub open spec fn begun<
    K,
    P: TracingConfigProvider,
    C,
    S,
    E,
    H: Clone,
    G: FnOnce(&H, Vec<MiddlewareLayer<K>>, Vec<C>) -> Result<(), String>,
>(
    reload_handle: H,
    config: FsTraceConfig,
    config_provider: K,
    built: Result<FsTraceLayers<K, C, S>, LayerError<E>>,
    between: P,
    after: P,
    install: G,
    r: Result<(InvocationTracingGuard<S, H>, K), InvocationError<E>>,
) -> bool {
    match built {
        Err(e) => same_state(after, between) && r == Err::<
            (InvocationTracingGuard<S, H>, K),
            InvocationError<E>,
        >(InvocationError::Layers(e)),
        Ok(layers) => exists|installed: Result<(), String>|
            {
                &&& #[trigger] install.ensures(
                    (&reload_handle, layers.middleware_layers, layers.consumer_layers),
                    installed,
                )
                &&& match installed {
                    Ok(()) => {
                        &&& r matches Ok((guard, handed_back))
                        &&& guard.shutdown_items == layers.shutdown_items
                        &&& !guard.finished
                        &&& cloned(reload_handle, guard.reload_handle)
                        &&& handed_back == config_provider
                        &&& after.keeps() == between.keeps()
                        &&& after.log_file() == between.log_file()
                        &&& after.options() == if between.keeps() {
                            config.warn_error_options@
                        } else {
                            between.options()
                        }
                    },
                    Err(reason) => {
                        &&& same_state(after, between)
                        &&& r matches Err(InvocationError::Install(e))
                        &&& e.code == ErrorCode::Generic
                        &&& e.message@ == "Failed to install invocation telemetry layers: "@
                            + reason@
                    },
                }
            },
    }
}

impl<N, H: Clone> ProcessTracing<N, H> {
    /// Begins an invocation: builds the layers of its configuration and installs them, and puts
    /// the warn-error options of the configuration in force, so that the invocation has its own
    /// log path, verbosity and options. Gives back a guard to hold for the invocation, and the
    /// handle to the configuration provider.
    ///
    /// `install` exchanges the layers behind the reload handle; it says why where it cannot. Of
    /// the other arguments, see [`FsTraceConfig::build_layers`].
    pub fn begin_invocation<
        'a,
        K: Clone,
        P: TracingConfigProvider,
        C,
        S,
        E,
        F: Fn(&LayerStep<'a>) -> StepOutcome<C, S, E>,
        G: FnOnce(&H, Vec<MiddlewareLayer<K>>, Vec<C>) -> Result<(), String>,
    >(
        &self,
        config: &'a FsTraceConfig,
        config_provider: K,
        provider: &mut P,
        version: &'static str,
        perform: F,
        install: G,
    ) -> (r: Result<(InvocationTracingGuard<S, H>, K), InvocationError<E>>)
        requires
            forall|step: &LayerStep<'a>| perform.requires((step,)),
            forall|step: &LayerStep<'a>, outcome: StepOutcome<C, S, E>| #[trigger]
                perform.ensures((step,), outcome) ==> fits(step@, outcome),
            forall|h: &H, m: Vec<MiddlewareLayer<K>>, c: Vec<C>| install.requires((h, m, c)),
        ensures
            exists|
                stage_provider: K,
                built: Result<FsTraceLayers<K, C, S>, LayerError<E>>,
                between: P,
            |
                {
                    &&& cloned(config_provider, stage_provider)
                    &&& #[trigger] layers_built(
                        *config,
                        stage_provider,
                        *old(provider),
                        between,
                        version,
                        perform,
                        built,
                    )
                    &&& begun(
                        self.reload_handle,
                        *config,
                        config_provider,
                        built,
                        between,
                        *final(provider),
                        install,
                        r,
                    )
                },
            r is Ok && old(provider).keeps() ==> final(provider).options()
                == config.warn_error_options@ && final(provider).log_file() == config_log_file(
                *config,
            ),
    {
        let stage_provider: K = config_provider.clone();
        let ghost handle = stage_provider;
        let built: Result<FsTraceLayers<K, C, S>, LayerError<E>> = config.build_layers(
            stage_provider,
            provider,
            version,
            perform,
        );
        let ghost between = *provider;
        assert(layers_built(*config, handle, *old(provider), between, version, perform, built));
        match built {
            Err(e) => Err(InvocationError::Layers(e)),
            Ok(layers) => {
                proof {
                    if old(provider).keeps() {
                        law_built_provider(
                            *config,
                            handle,
                            *old(provider),
                            between,
                            version,
                            perform,
                            built,
                        );
                    }
                }
                let (middlewares, consumer_layers, shutdown_items) = layers.into_parts();
                let installed: Result<(), String> = install(
                    &self.reload_handle,
                    middlewares,
                    consumer_layers,
                );
                match installed {
                    Ok(()) => {
                        provider.set_warn_error_options(config.warn_error_options.clone());
                        let guard: InvocationTracingGuard<S, H> = InvocationTracingGuard {
                            shutdown_items,
                            reload_handle: self.reload_handle.clone(),
                            finished: false,
                        };
                        Ok((guard, config_provider))
                    },
                    Err(reason) => Err(
                        InvocationError::Install(
                            FsError::with_detail(
                                ErrorCode::Generic,
                                "Failed to install invocation telemetry layers: ",
                                reason.as_str(),
                            ),
                        ),
                    ),
                }
            },
        }
    }
}

/// The errors among the results of several shutdowns, in order.
pub open spec fn failures<E>(results: Seq<Result<(), E>>) -> Seq<E>
    decreases results.len(),
{
    if results.len() == 0 {
        Seq::empty()
    } else {
        match results.last() {
            Ok(()) => failures(results.drop_last()),
            Err(e) => failures(results.drop_last()).push(e),
        }
    }
}

/// There are no errors exactly where every shutdown succeeded.
pub proof fn law_no_failures<E>(results: Seq<Result<(), E>>)
    ensures
        failures(results).len() == 0 <==> forall|i: int|
            0 <= i < results.len() ==> #[trigger] results[i] is Ok,
    decreases results.len(),
{
    if results.len() > 0 {
        law_no_failures(results.drop_last());
        assert(forall|i: int|
            0 <= i < results.len() - 1 ==> results.drop_last()[i] == #[trigger] results[i]);
        assert(results[results.len() - 1] == results.last());
        if failures(results).len() == 0 {
            assert forall|i: int| 0 <= i < results.len() implies #[trigger] results[i] is Ok by {
                if i < results.len() - 1 {
                    assert(results.drop_last()[i] is Ok);
                }
            }
        } else if forall|i: int| 0 <= i < results.len() ==> #[trigger] results[i] is Ok {
            assert(forall|i: int|
                0 <= i < results.drop_last().len() ==> #[trigger] results.drop_last()[i] is Ok);
        }
    }
}

/// Whether `results` is what shutting `items` down, one after the other, came to.
pub open spec fn shut_down<S, E, F: Fn(S) -> Result<(), E>>(
    shutdown: F,
    items: Seq<S>,
    results: Seq<Result<(), E>>,
) -> bool {
    &&& results.len() == items.len()
    &&& forall|i: int|
        0 <= i < items.len() ==> shutdown.ensures((items[i],), #[trigger] results[i])
}

/// Shuts every item down, whatever becomes of the ones before it, and gathers the errors.
pub fn shutdown_all<S, E, F: Fn(S) -> Result<(), E>>(items: Vec<S>, shutdown: &F) -> (r: Vec<E>)
    requires
        forall|s: S| shutdown.requires((s,)),
    ensures
        exists|results: Seq<Result<(), E>>|
            #[trigger] shut_down(*shutdown, items@, results) && r@ == failures(results),
{
    let mut errors: Vec<E> = Vec::new();
    let ghost mut results: Seq<Result<(), E>> = Seq::empty();
    let ghost all = items@;
    let mut rest: Vec<S> = items;
    while rest.len() > 0
        invariant
            forall|s: S| shutdown.requires((s,)),
            rest@.len() + results.len() == all.len(),
            rest@ == all.skip(results.len() as int),
            shut_down(*shutdown, all.take(results.len() as int), results),
            errors@ == failures(results),
        decreases rest@.len(),
    {
        let ghost n = results.len() as int;
        let item: S = rest.remove(0);
        assert(item == all[n]);
        let result: Result<(), E> = shutdown(item);
        proof {
            assert(results.push(result).drop_last() =~= results);
            assert forall|i: int| 0 <= i < n + 1 implies shutdown.ensures(
                (all.take(n + 1)[i],),
                #[trigger] results.push(result)[i],
            ) by {
                if i < n {
                    assert(all.take(n)[i] == all.take(n + 1)[i]);
                    assert(results.push(result)[i] == results[i]);
                }
            }
            results = results.push(result);
        }
        match result {
            Ok(()) => {},
            Err(e) => {
                errors.push(e);
            },
        }
        assert(rest@ =~= all.skip(n + 1));
    }
    assert(all.take(all.len() as int) =~= all);
    errors
}

/// The error of an invocation whose layers could not be detached.
pub open spec fn is_detach_error(e: FsError, reason: Seq<char>) -> bool {
    &&& e.code == ErrorCode::Generic
    &&& e.message@ == "Failed to detach invocation telemetry layers: "@ + reason
}

/// Whether `errors` are the errors of a teardown: those of the shutdowns, in order, and behind
/// them that of the detachment, if it failed.
pub open spec fn teardown_errors(
    results: Seq<Result<(), FsError>>,
    detached: Result<(), String>,
    errors: Seq<FsError>,
) -> bool {
    match detached {
        Ok(()) => errors == failures(results),
        Err(reason) => errors.len() > 0 && errors.drop_last() == failures(results)
            && is_detach_error(errors.last(), reason@),
    }
}

/// A teardown has no errors exactly where every shutdown and the detachment succeeded.
pub proof fn law_clean_teardown(
    results: Seq<Result<(), FsError>>,
    detached: Result<(), String>,
    errors: Seq<FsError>,
)
    requires
        teardown_errors(results, detached, errors),
    ensures
        errors.len() == 0 <==> detached is Ok && forall|i: int|
            0 <= i < results.len() ==> #[trigger] results[i] is Ok,
        errors.len() == failures(results).len() + if detached is Ok {
            0int
        } else {
            1int
        },
{
    law_no_failures(results);
}

/// Whether a teardown of a guard that holds `items` can come to `errors`: every item is shut
/// down and the layers behind the handle are exchanged for none.
pub open spec fn torn_down<
    K,
    C,
    S,
    H,
    F: Fn(S) -> Result<(), FsError>,
    G: FnOnce(&H, Vec<MiddlewareLayer<K>>, Vec<C>) -> Result<(), String>,
>(items: Seq<S>, handle: &H, shutdown: F, reload: G, errors: Seq<FsError>) -> bool {
    exists|
        results: Seq<Result<(), FsError>>,
        m: Vec<MiddlewareLayer<K>>,
        c: Vec<C>,
        detached: Result<(), String>,
    |
        {
            &&& #[trigger] shut_down(shutdown, items, results)
            &&& m@ == Seq::<MiddlewareLayer<K>>::empty()
            &&& c@ == Seq::<C>::empty()
            &&& #[trigger] reload.ensures((handle, m, c), detached)
            &&& teardown_errors(results, detached, errors)
        }
}

impl<S, H> InvocationTracingGuard<S, H> {
    /// Shuts down what the invocation holds and detaches its layers, once: a second call does
    /// nothing. All errors are returned.
    pub fn teardown<
        K,
        C,
        F: Fn(S) -> Result<(), FsError>,
        G: FnOnce(&H, Vec<MiddlewareLayer<K>>, Vec<C>) -> Result<(), String>,
    >(&mut self, shutdown: F, reload: G) -> (r: Vec<FsError>)
        requires
            forall|s: S| shutdown.requires((s,)),
            forall|h: &H, m: Vec<MiddlewareLayer<K>>, c: Vec<C>| reload.requires((h, m, c)),
        ensures
            final(self).finished,
            final(self).reload_handle == old(self).reload_handle,
            if old(self).finished {
                r@ == Seq::<FsError>::empty() && *final(self) == *old(self)
            } else {
                &&& final(self).shutdown_items@ == Seq::<S>::empty()
                &&& torn_down(
                    old(self).shutdown_items@,
                    &old(self).reload_handle,
                    shutdown,
                    reload,
                    r@,
                )
            },
    {
        if self.finished {
            return Vec::new();
        }
        self.finished = true;
        let mut items: Vec<S> = Vec::new();
        std::mem::swap(&mut items, &mut self.shutdown_items);
        let mut errors: Vec<FsError> = shutdown_all(items, &shutdown);
        let ghost results = choose|results: Seq<Result<(), FsError>>|
            #[trigger] shut_down(shutdown, items@, results) && errors@ == failures(results);
        let no_middlewares: Vec<MiddlewareLayer<K>> = Vec::new();
        let no_consumers: Vec<C> = Vec::new();
        let detached: Result<(), String> = reload(
            &self.reload_handle,
            no_middlewares,
            no_consumers,
        );
        if let Err(reason) = &detached {
            errors.push(
                FsError::with_detail(
                    ErrorCode::Generic,
                    "Failed to detach invocation telemetry layers: ",
                    reason.as_str(),
                ),
            );
            assert(errors@.drop_last() =~= failures(results));
        }
        assert(teardown_errors(results, detached, errors@));
        assert(shut_down(shutdown, items@, results));
        errors
    }

    /// Ends the invocation: shuts down what it holds, detaches its layers, and returns every
    /// failure. A failure means that log lines or telemetry rows were lost.
    pub fn finish<
        K,
        C,
        F: Fn(S) -> Result<(), FsError>,
        G: FnOnce(&H, Vec<MiddlewareLayer<K>>, Vec<C>) -> Result<(), String>,
    >(self, shutdown: F, reload: G) -> (r: Result<(), Vec<FsError>>)
        requires
            forall|s: S| shutdown.requires((s,)),
            forall|h: &H, m: Vec<MiddlewareLayer<K>>, c: Vec<C>| reload.requires((h, m, c)),
        ensures
            self.finished ==> r is Ok,
            !self.finished ==> torn_down(
                self.shutdown_items@,
                &self.reload_handle,
                shutdown,
                reload,
                match r {
                    Ok(()) => Seq::empty(),
                    Err(errors) => errors@,
                },
            ),
            r matches Err(errors) ==> errors@.len() > 0,
    {
        let mut guard: InvocationTracingGuard<S, H> = self;
        let errors: Vec<FsError> = guard.teardown(shutdown, reload);
        if errors.len() == 0 {
            assert(errors@ =~= Seq::empty());
            Ok(())
        } else {
            Err(errors)
        }
    }
}

} // verus!

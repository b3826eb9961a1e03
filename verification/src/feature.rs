//! The tracing feature of a running command: its configuration and the handle that shuts
//! tracing down.

use crate::feature_handles::noop_tracing_config_provider;
use crate::feature_handles::NoOpTracingConfigProvider;
use vstd::prelude::*;

verus! {

/// A configuration provider and a shutdown handle that is used at most once.
pub struct TracingFeature<P, H> {
    pub config_provider: P,
    /// The handle that has not been used yet.
    pub shutdown_handle: Option<H>,
}

impl<H> Default for TracingFeature<NoOpTracingConfigProvider, H> {
    fn default() -> (r: Self)
        ensures
            r.config_provider == NoOpTracingConfigProvider,
            r.shutdown_handle is None,
    {
        TracingFeature { config_provider: noop_tracing_config_provider(), shutdown_handle: None }
    }
}

impl<P, H> TracingFeature<P, H> {
    /// The feature with another configuration provider.
    pub fn with_config_provider<Q>(self, provider: Q) -> (r: TracingFeature<Q, H>)
        ensures
            r.config_provider == provider,
            r.shutdown_handle == self.shutdown_handle,
    {
        TracingFeature { config_provider: provider, shutdown_handle: self.shutdown_handle }
    }

    /// The feature with `handle` to shut tracing down; an earlier handle is given up.
    pub fn with_shutdown_handle(self, handle: H) -> (r: Self)
        ensures
            r.config_provider == self.config_provider,
            r.shutdown_handle == Some(handle),
    {
        TracingFeature { config_provider: self.config_provider, shutdown_handle: Some(handle) }
    }

    /// Takes the handle, if it has not been taken, and shuts tracing down with `shutdown`.
    /// Without a handle there is nothing to do, and nothing can fail.
    pub fn shutdown_once<E, F: FnOnce(H) -> Result<(), Vec<E>>>(&mut self, shutdown: F) -> (r: Result<
        (),
        Vec<E>,
    >)
        requires
            old(self).shutdown_handle matches Some(h) ==> shutdown.requires((h,)),
        ensures
            final(self).shutdown_handle is None,
            final(self).config_provider == old(self).config_provider,
            match old(self).shutdown_handle {
                Some(h) => shutdown.ensures((h,), r),
                None => r == Ok::<(), Vec<E>>(()),
            },
    {
        match self.shutdown_handle.take() {
            Some(handle) => shutdown(handle),
            None => Ok(()),
        }
    }
}

} // verus!

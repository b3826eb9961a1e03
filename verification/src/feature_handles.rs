//! Tracing configuration that can change while a command runs.

use crate::path::opt_path;
use crate::path::FsPath;
use crate::warn_error_options::no_options;
use crate::warn_error_options::OptionLists;
use crate::warn_error_options::WarnErrorOptions;
use vstd::prelude::*;

verus! {

/// A handle to tracing configuration that is mutable at runtime.
pub trait TracingConfigProvider: Sized {
    /// Whether the provider keeps what it is given.
    spec fn keeps(&self) -> bool;

    /// The warn-error options in force.
    spec fn options(&self) -> OptionLists;

    /// The path of the log file.
    spec fn log_file(&self) -> Option<Seq<u8>>;

    /// Puts other warn-error options in force.
    fn set_warn_error_options(&mut self, warn_error_options: WarnErrorOptions)
        ensures
            final(self).keeps() == old(self).keeps(),
            final(self).log_file() == old(self).log_file(),
            final(self).options() == if old(self).keeps() {
                warn_error_options@
            } else {
                old(self).options()
            },
    ;

    /// Calls `f` with the warn-error options in force and hands on what it returns.
    fn with_warn_error_options<R, F: FnOnce(&WarnErrorOptions) -> R>(&self, f: F) -> (r: R)
        requires
            forall|o: &WarnErrorOptions| o@ == self.options() ==> #[trigger] f.requires((o,)),
        ensures
            exists|o: &WarnErrorOptions| o@ == self.options() && #[trigger] f.ensures((o,), r),
    ;

    /// Records the path of the log file.
    fn set_file_log_path(&mut self, file_log_path: Option<FsPath>)
        ensures
            final(self).keeps() == old(self).keeps(),
            final(self).options() == old(self).options(),
            final(self).log_file() == if old(self).keeps() {
                opt_path(file_log_path)
            } else {
                old(self).log_file()
            },
    ;

    /// The path of the log file, if one was recorded.
    fn get_file_log_path(&self) -> (r: Option<FsPath>)
        ensures
            opt_path(r) == self.log_file(),
    ;
}

/// A provider that keeps nothing: no options are in force, no log file is known.
pub struct NoOpTracingConfigProvider;

impl TracingConfigProvider for NoOpTracingConfigProvider {
    open spec fn keeps(&self) -> bool {
        false
    }

    open spec fn options(&self) -> OptionLists {
        no_options()
    }

    open spec fn log_file(&self) -> Option<Seq<u8>> {
        None
    }

    fn set_warn_error_options(&mut self, _warn_error_options: WarnErrorOptions) {
    }

    fn with_warn_error_options<R, F: FnOnce(&WarnErrorOptions) -> R>(&self, f: F) -> (r: R) {
        let options: WarnErrorOptions = WarnErrorOptions::default();
        f(&options)
    }

    fn set_file_log_path(&mut self, _file_log_path: Option<FsPath>) {
    }

    fn get_file_log_path(&self) -> (r: Option<FsPath>) {
        None
    }
}

/// A provider that keeps nothing.
pub fn noop_tracing_config_provider() -> (r: NoOpTracingConfigProvider)
    ensures
        !r.keeps(),
        r.options() == no_options(),
        r.log_file() is None,
{
    NoOpTracingConfigProvider
}

/// A provider that keeps what it is given.
pub struct FsTracingConfigProvider {
    pub warn_error_options: WarnErrorOptions,
    pub file_log_path: Option<FsPath>,
}

impl Default for FsTracingConfigProvider {
    fn default() -> (r: Self)
        ensures
            r.options() == no_options(),
            r.log_file() is None,
    {
        FsTracingConfigProvider {
            warn_error_options: WarnErrorOptions::default(),
            file_log_path: None,
        }
    }
}

impl FsTracingConfigProvider {
    /// A provider with the given options and no log file.
    pub fn from_warn_error_options(warn_error_options: WarnErrorOptions) -> (r: Self)
        ensures
            r.warn_error_options == warn_error_options,
            r.options() == warn_error_options@,
            r.log_file() is None,
    {
        FsTracingConfigProvider { warn_error_options, file_log_path: None }
    }
}

impl TracingConfigProvider for FsTracingConfigProvider {
    open spec fn keeps(&self) -> bool {
        true
    }

    open spec fn options(&self) -> OptionLists {
        self.warn_error_options@
    }

    open spec fn log_file(&self) -> Option<Seq<u8>> {
        opt_path(self.file_log_path)
    }

    fn set_warn_error_options(&mut self, warn_error_options: WarnErrorOptions)
        ensures
            final(self).warn_error_options == warn_error_options,
            final(self).file_log_path == old(self).file_log_path,
    {
        self.warn_error_options = warn_error_options;
    }

    fn with_warn_error_options<R, F: FnOnce(&WarnErrorOptions) -> R>(&self, f: F) -> (r: R)
        ensures
            f.ensures((&self.warn_error_options,), r),
    {
        f(&self.warn_error_options)
    }

    fn set_file_log_path(&mut self, file_log_path: Option<FsPath>)
        ensures
            final(self).warn_error_options == old(self).warn_error_options,
            final(self).file_log_path == file_log_path,
    {
        self.file_log_path = file_log_path;
    }

    fn get_file_log_path(&self) -> (r: Option<FsPath>) {
        self.file_log_path.clone()
    }
}

} // verus!

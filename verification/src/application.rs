//! Process-singleton bookkeeping of the application: builder options, the install-once
//! rule, and access to the object tree while the application is live.
use std::time::Duration;

use vstd::prelude::*;

use crate::event_loop::{normalised_tick, tick_policy};
use crate::global_tree::{deregister, is_live, register, TreeLiveness};
use crate::object_tree::ObjectTree;

verus! {

/// Error returned when an application is built while one already exists in the process.
#[derive(Clone, Copy, Debug, PartialEq, Eq, Structural)]
pub enum ApplicationError {
    /// Only one application may exist per process.
    AlreadyExists,
}

impl ApplicationError {
    /// The human-readable message of the error.
    pub fn message(&self) -> (r: &'static str)
        ensures
            r@ == "Application already exists"@,
    {
        "Application already exists"
    }
}

/// Error returned when the global object tree is accessed while no application is live.
#[derive(Clone, Copy, Debug, PartialEq, Eq, Structural)]
pub struct TreeAccessError;

impl TreeAccessError {
    /// The human-readable message of the error.
    pub fn message(&self) -> (r: &'static str)
        ensures
            r@ == "no Application is currently live"@,
    {
        "no Application is currently live"
    }
}

/// The methods that the application object answers to by name.
#[derive(Clone, Copy, Debug, PartialEq, Eq, Structural)]
pub enum AppMethod {
    /// Stop the application's event loop.
    Quit,
}

/// Resolves a by-name invocation on the application object: `quit` without arguments
/// is the only method; anything else is not invocable.
pub fn invoke_method(name: &str, arg_count: usize) -> (r: Option<AppMethod>)
    ensures
        r == (if name@ == "quit"@ && arg_count == 0 {
            Some(AppMethod::Quit)
        } else {
            None::<AppMethod>
        }),
{
    let quit = String::from_str("quit");
    let given = name.to_owned();
    if arg_count == 0 && given == quit {
        Some(AppMethod::Quit)
    } else {
        None
    }
}

/// Builder options for the application singleton.
#[derive(Debug)]
pub struct ApplicationBuilder {
    tick: Option<Duration>,
}

impl ApplicationBuilder {
    /// The configured tick of the application's event loop.
    pub closed spec fn spec_tick(&self) -> Option<Duration> {
        self.tick
    }

    /// A builder with the tickless default.
    pub fn new() -> (r: ApplicationBuilder)
        ensures
            r.spec_tick() is None,
    {
        ApplicationBuilder { tick: None }
    }

    /// Sets the tick of the event loop; `Some(zero)` is normalised to tickless.
    pub fn tick_duration(self, tick: Option<Duration>) -> (r: ApplicationBuilder)
        ensures
            r.spec_tick() == normalised_tick(tick),
    {
        ApplicationBuilder { tick: tick_policy(tick) }
    }

    /// The configured tick; `None` means tickless.
    pub fn tick(&self) -> (r: Option<Duration>)
        ensures
            r == self.spec_tick(),
    {
        self.tick
    }
}

impl Default for ApplicationBuilder {
    fn default() -> (r: ApplicationBuilder)
        ensures
            r.spec_tick() is None,
    {
        ApplicationBuilder::new()
    }
}

/// Process-wide application state: whether an application was ever installed and
/// whether its object tree is currently live.
#[derive(Debug)]
pub struct AppRegistry {
    installed: bool,
    tree: TreeLiveness,
}

impl AppRegistry {
    /// True once an application has been installed (it is never uninstalled).
    pub closed spec fn spec_installed(&self) -> bool {
        self.installed
    }

    /// True while the installed application has not been dropped.
    pub closed spec fn spec_live(&self) -> bool {
        self.tree.spec_live()
    }

    /// A process in which no application was built yet.
    pub fn new() -> (r: AppRegistry)
        ensures
            !r.spec_installed(),
            !r.spec_live(),
    {
        AppRegistry { installed: false, tree: TreeLiveness::new() }
    }

    /// Installs the application singleton and marks its tree live; fails with
    /// `AlreadyExists` (changing nothing) when one was installed before.
    pub fn build(&mut self) -> (r: Result<(), ApplicationError>)
        ensures
            old(self).spec_installed() ==> r == Err::<(), ApplicationError>(ApplicationError::AlreadyExists)
                && final(self).spec_installed() == old(self).spec_installed()
                && final(self).spec_live() == old(self).spec_live(),
            !old(self).spec_installed() ==> r is Ok && final(self).spec_installed() && final(self).spec_live(),
    {
        if self.installed {
            return Err(ApplicationError::AlreadyExists);
        }
        self.installed = true;
        register(&mut self.tree);
        Ok(())
    }

    /// Records that the application was dropped: its tree is no longer live.
    pub fn drop_application(&mut self)
        ensures
            !final(self).spec_live(),
            final(self).spec_installed() == old(self).spec_installed(),
    {
        deregister(&mut self.tree);
    }

    /// Runs `f` on `tree` when the application is live; `Err(TreeAccessError)` otherwise.
    pub fn try_with_tree<R, F: FnOnce(&ObjectTree) -> R>(&self, tree: &ObjectTree, f: F) -> (r: Result<
        R,
        TreeAccessError,
    >)
        requires
            f.requires((tree,)),
        ensures
            !self.spec_live() ==> r == Err::<R, TreeAccessError>(TreeAccessError),
            self.spec_live() ==> (r matches Ok(v) && f.ensures((tree,), v)),
    {
        if !is_live(&self.tree) {
            return Err(TreeAccessError);
        }
        Ok(f(tree))
    }
}

} // verus!

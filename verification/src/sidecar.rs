//! Keeping track of the subprocesses that the application has started.
//!
//! The application adds every subprocess it starts and kills them all when
//! it exits. Nothing is ever removed from the list before that.

use vstd::prelude::*;

verus! {

/// The handle of one subprocess, for as long as the subprocess has not been
/// killed through it.
pub struct SharedChild<T> {
    child: Option<T>,
}

impl<T> SharedChild<T> {
    /// The handle, while it is there.
    pub closed spec fn handle(self) -> Option<T> {
        self.child
    }

    /// Holds the handle of a subprocess that runs.
    pub fn new(child: T) -> (shared: Self)
        ensures
            shared.handle() == Some(child),
    {
        SharedChild { child: Some(child) }
    }

    /// Takes the handle out for the caller to kill the subprocess with. A
    /// subprocess is killed once: a second call finds nothing to kill.
    pub fn kill(&mut self) -> (handle: Option<T>)
        ensures
            handle == old(self).handle(),
            final(self).handle() is None,
    {
        self.child.take()
    }
}

/// The subprocesses that the application has started, in the order in which
/// it started them.
pub struct SidecarManager<T> {
    processes: Vec<T>,
}

impl<T> SidecarManager<T> {
    /// The subprocesses added so far.
    pub closed spec fn started(self) -> Seq<T> {
        self.processes@
    }

    /// A list without subprocesses.
    pub fn new() -> (manager: Self)
        ensures
            manager.started() == Seq::<T>::empty(),
    {
        SidecarManager { processes: Vec::new() }
    }

    /// Adds one more subprocess. Those added before stay as they are.
    pub fn add(&mut self, child: T)
        ensures
            final(self).started() == old(self).started().push(child),
    {
        self.processes.push(child);
    }

    /// The subprocesses added so far, oldest first.
    pub fn processes(&self) -> (all: &Vec<T>)
        ensures
            all@ == self.started(),
    {
        &self.processes
    }
}

impl<T> Default for SidecarManager<T> {
    /// A list without subprocesses.
    fn default() -> (manager: Self)
        ensures
            manager.started() == Seq::<T>::empty(),
    {
        SidecarManager { processes: Vec::new() }
    }
}

} // verus!

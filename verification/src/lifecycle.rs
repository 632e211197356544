//! The lifecycle manager: the single optional handle that can cancel the
//! running serving loop, and the start/stop transitions over it. A shared
//! instance is guarded by mutual exclusion by its owner; every mutation of
//! the slot happens through these methods under that discipline.

use vstd::prelude::*;
use vstd::string::StringExecFns;
use crate::errors::LifecycleError;

verus! {

/// Declares futures' `AbortHandle` — the cancellation signal for the
/// serving loop — as an opaque outside type, so the handle slot can hold
/// one.
#[verifier::external_type_specification]
#[verifier::external_body]
pub struct ExAbortHandle(futures::future::AbortHandle);

/// Relies on futures' `AbortHandle::abort`: signals the paired `Abortable`
/// future — the serving loop — to halt. Fire-and-forget; nothing is
/// assumed of its effect.
#[verifier::external_body]
fn signal_abort(handle: &futures::future::AbortHandle) {
    handle.abort();
}

/// The lifecycle manager. At most one cancellation handle exists at a
/// time: it is installed by the winning `start` and removed by `stop`.
pub struct ProxyState {
    pub server_handle: Option<futures::future::AbortHandle>,
}

impl ProxyState {
    /// A serving loop is currently considered running.
    pub open spec fn is_running(&self) -> bool {
        self.server_handle is Some
    }

    /// The outcome of installing a freshly created cancellation handle:
    /// refused, with the state unchanged, when a handle is already
    /// present; recorded otherwise.
    pub open spec fn spec_install(self, handle: futures::future::AbortHandle) -> (Result<
        (),
        LifecycleError,
    >, ProxyState) {
        if self.is_running() {
            (Err(LifecycleError::AlreadyRunning), self)
        } else {
            (Ok(()), ProxyState { server_handle: Some(handle) })
        }
    }

    /// The outcome of a stop: refused when nothing runs, with the state
    /// unchanged; the slot cleared otherwise.
    pub open spec fn spec_stop(self) -> (Result<(), LifecycleError>, ProxyState) {
        if self.is_running() {
            (Ok(()), ProxyState { server_handle: None })
        } else {
            (Err(LifecycleError::NotRunning), self)
        }
    }

    /// A fresh manager with no running serving loop.
    pub fn new() -> (s: Self)
        ensures
            !s.is_running(),
    {
        ProxyState { server_handle: None }
    }

    /// The test a starting caller makes before binding the listener:
    /// fails with `AlreadyRunning` exactly when a handle is present.
    pub fn check_can_start(&self) -> (r: Result<(), LifecycleError>)
        ensures
            r is Ok <==> !self.is_running(),
            r matches Err(e) ==> e is AlreadyRunning,
    {
        match &self.server_handle {
            Some(_) => Err(LifecycleError::AlreadyRunning),
            None => Ok(()),
        }
    }

    /// After a successful bind, re-checks under the same exclusive access
    /// that no other caller installed a handle in the interim, and
    /// installs this one. A losing caller gets `AlreadyRunning`, the state
    /// is untouched, and the caller must release its freshly bound
    /// listener rather than leak it or install a second handle.
    pub fn install_handle(&mut self, handle: futures::future::AbortHandle) -> (r: Result<
        (),
        LifecycleError,
    >)
        ensures
            r == old(self).spec_install(handle).0,
            final(self).server_handle == old(self).spec_install(handle).1.server_handle,
    {
        match &self.server_handle {
            Some(_) => Err(LifecycleError::AlreadyRunning),
            None => {
                self.server_handle = Some(handle);
                Ok(())
            },
        }
    }

    /// Stops the proxy: removes the handle and signals the serving loop to
    /// cancel, without waiting for in-flight requests to finish. Fails
    /// with `NotRunning`, leaving the state unchanged, when no handle is
    /// present.
    pub fn stop(&mut self) -> (r: Result<String, LifecycleError>)
        ensures
            old(self).is_running() ==> (r matches Ok(m) && m@ == "Proxy server stopped"@
                && !final(self).is_running()),
            !old(self).is_running() ==> (r matches Err(e) && e is NotRunning
                && final(self).server_handle == old(self).server_handle),
            final(self).server_handle == old(self).spec_stop().1.server_handle,
    {
        match self.server_handle.take() {
            Some(handle) => {
                signal_abort(&handle);
                Ok(stopped_message())
            },
            None => Err(LifecycleError::NotRunning),
        }
    }
}

/// The confirmation a successful stop returns.
pub fn stopped_message() -> (r: String)
    ensures
        r@ == "Proxy server stopped"@,
{
    String::from_str("Proxy server stopped")
}

/// The confirmation a successful start returns, naming the bound address.
pub fn started_message(addr: &str) -> (r: String)
    ensures
        r@ == "Proxy server started on "@ + addr@,
{
    let mut s = String::from_str("Proxy server started on ");
    s.append(addr);
    s
}

/// Law: from a state with no handle installed, a first start may install
/// its handle, and a second start without an intervening stop is refused
/// with `AlreadyRunning` while the slot still holds exactly the first
/// handle — the handle set stays a singleton.
pub proof fn lemma_second_start_refused(
    s: ProxyState,
    h1: futures::future::AbortHandle,
    h2: futures::future::AbortHandle,
)
    requires
        !s.is_running(),
    ensures
        ({
            let (r1, s1) = s.spec_install(h1);
            let (r2, s2) = s1.spec_install(h2);
            r1 is Ok && s1.server_handle == Some(h1) && r2 == Err::<(), LifecycleError>(
                LifecycleError::AlreadyRunning,
            ) && s2 == s1
        }),
{
}

/// Law: a stop in a stopped state is refused with `NotRunning` and leaves
/// the state exactly as it was.
pub proof fn lemma_stop_when_stopped(s: ProxyState)
    requires
        !s.is_running(),
    ensures
        s.spec_stop().0 == Err::<(), LifecycleError>(LifecycleError::NotRunning),
        s.spec_stop().1 == s,
{
}

} // verus!

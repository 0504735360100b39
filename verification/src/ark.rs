//! The ArkTS runtime handle and the builder of asynchronous blocks handed
//! to it.

use vstd::prelude::*;
use core::marker::PhantomData;

verus! {

/// How an event loop runs.
#[derive(Debug, Clone, Copy, PartialEq, Eq, Structural)]
pub enum EventLoopMode {
    NonBlocking,
    Blocking,
}

/// The event-loop modes of the native API: the default one, which waits
/// for events, and the one that does not.
#[derive(Debug, Clone, Copy, PartialEq, Eq, Structural)]
pub enum EventMode {
    Default,
    NoWait,
}

impl EventLoopMode {
    /// The native mode for this one: blocking runs the default mode,
    /// non-blocking the one that does not wait.
    pub fn to_event_mode(self) -> (r: EventMode)
        ensures
            r == (match self {
                EventLoopMode::Blocking => EventMode::Default,
                EventLoopMode::NonBlocking => EventMode::NoWait,
            }),
    {
        match self {
            EventLoopMode::Blocking => EventMode::Default,
            EventLoopMode::NonBlocking => EventMode::NoWait,
        }
    }
}

/// An environment of the ArkTS runtime, by its handle.
#[derive(Debug, Clone, Copy, PartialEq, Eq, Structural)]
pub struct Env {
    pub handle: u64,
}

/// An ArkTS runtime to call ArkTS from Rust.  One made for an existing
/// environment (such as the main thread's) belongs to that environment's
/// owner and is not destroyed with this value.
pub struct ArkRuntime {
    pub env: Env,
    is_new: bool,
}

impl ArkRuntime {
    /// Whether dropping this runtime destroys its environment.
    pub closed spec fn owns_env(&self) -> bool {
        self.is_new
    }

    /// The environment it runs in.
    pub closed spec fn env_of(&self) -> Env {
        self.env
    }

    /// A runtime over an existing environment, which it does not own.
    pub fn new_with_env(env: Env) -> (r: ArkRuntime)
        ensures
            r.env_of() == env,
            !r.owns_env(),
    {
        ArkRuntime { env: env, is_new: false }
    }

    /// Whether dropping this runtime destroys its environment: only a
    /// runtime created for its own environment does.
    pub fn destroys_env_on_drop(&self) -> (r: bool)
        ensures
            r == self.owns_env(),
    {
        self.is_new
    }
}

/// A future to run on the async runtime, with what to do with the
/// environment before its value is handed back.
pub struct AsyncBlockBuilder<V, F, Dispose> {
    inner: F,
    dispose: Option<Dispose>,
    value: PhantomData<V>,
}

impl<V, F, Dispose> AsyncBlockBuilder<V, F, Dispose> {
    /// The future.
    pub closed spec fn future(&self) -> F {
        self.inner
    }

    /// What runs before the value is handed back, if anything.
    pub closed spec fn dispose_step(&self) -> Option<Dispose> {
        self.dispose
    }

    /// A builder for `inner` with nothing to run before the value.
    pub fn new(inner: F) -> (r: Self)
        ensures
            r.future() == inner,
            r.dispose_step() is None,
    {
        AsyncBlockBuilder { inner, dispose: None, value: PhantomData }
    }

    /// A builder for `inner` with nothing to run before the value.
    pub fn with(inner: F) -> (r: Self)
        ensures
            r.future() == inner,
            r.dispose_step() is None,
    {
        AsyncBlockBuilder { inner, dispose: None, value: PhantomData }
    }

    /// The same builder, with `dispose` to run before the value.
    pub fn with_dispose(self, dispose: Dispose) -> (r: Self)
        ensures
            r.future() == self.future(),
            r.dispose_step() == Some(dispose),
    {
        let mut s = self;
        s.dispose = Some(dispose);
        s
    }
}

/// A function that turns the value of a finished future into the value
/// handed back to ArkTS, carried to the thread where it is called.
pub struct SendableResolver<Data, R> {
    inner: R,
    data: PhantomData<Data>,
}

impl<Data, Out, R: FnOnce(Env, Data) -> Out> SendableResolver<Data, R> {
    /// The function carried.
    pub closed spec fn function(&self) -> R {
        self.inner
    }

    /// Carries `inner`.
    pub fn new(inner: R) -> (r: Self)
        ensures
            r.function() == inner,
    {
        SendableResolver { inner, data: PhantomData }
    }

    /// Calls the function carried with the environment and the value.
    pub fn resolve(self, env: Env, data: Data) -> (r: Out)
        requires
            call_requires(self.function(), (env, data)),
        ensures
            call_ensures(self.function(), (env, data), r),
    {
        (self.inner)(env, data)
    }
}

} // verus!

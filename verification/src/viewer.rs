use vstd::prelude::*;

verus! {

/// How the viewer's client session runs.
#[derive(Copy, Clone, Debug, PartialEq, Eq, Structural)]
pub enum RunMode {
    Initializing,
    Running,
    Paused,
}

/// Viewer-side client state.
#[derive(Copy, Clone, Debug)]
pub struct Client {
    pub run_mode: RunMode,
}

impl Default for Client {
    fn default() -> (c: Client)
        ensures
            c.run_mode == RunMode::Running,
    {
        Client { run_mode: RunMode::Running }
    }
}

/// Render-facing channel capability: the consumer hands commands out and
/// takes the latest decoded state, whatever transport stands behind it.
/// There are two concrete implementations, a native socket-backed one and a
/// browser socket-backed one, both supplied by the surrounding program.
pub trait BackendChannel {
    type Tx;

    type Rx;

    /// Queue one outbound value.
    fn send(&self, value: Self::Tx);

    /// Take the latest inbound value, if one has arrived.
    fn recv(&self) -> Option<Self::Rx>;
}

/// The kinds of world objects a viewer materializes.
#[derive(Copy, Clone, Debug, PartialEq, Eq, Structural)]
pub enum Kind {
    Block,
    Player,
    Plane,
    Sphere,
    Quad,
}

} // verus!

//! Top-level regions (windows, panels) and their two halves.

use vstd::prelude::*;

verus! {

/// The top-level region primitives a toolkit supplies.
#[derive(Clone, Copy, Debug, PartialEq, Eq, Structural)]
pub enum RootKind {
    CentralPanel,
    SidePanel,
    TopBottomPanel,
    Window,
    Area,
}

/// Opening half of a top-level region: the primitive to open, tagged with
/// its kind.
#[derive(Debug, PartialEq, Eq)]
pub struct BeginRoot<P> {
    pub kind: RootKind,
    pub region: P,
}

/// Closing half of a top-level region: the kind it expects to close.
#[derive(Clone, Copy, Debug, PartialEq, Eq, Structural)]
pub struct EndRoot {
    pub kind: RootKind,
}

/// A region that can be shown at top level. It splits into the half that
/// opens it and the half that closes it; both carry the same kind.
pub trait Root<P>: Sized {
    /// The kind of region this is.
    spec fn kind(&self) -> RootKind;

    /// The toolkit primitive handed to the opening half.
    spec fn region(&self) -> P;

    /// Splits the region into its two halves.
    fn into_root(self) -> (halves: (BeginRoot<P>, EndRoot))
        ensures
            halves.0.kind == self.kind(),
            halves.0.region == self.region(),
            halves.1.kind == self.kind(),
    ;
}

/// A panel that covers what the other panels leave free.
pub struct CentralPanel<P>(pub P);

/// A panel at the left or right edge.
pub struct SidePanel<P>(pub P);

/// A panel at the top or bottom edge.
pub struct TopBottomPanel<P>(pub P);

/// A floating window.
pub struct Window<P>(pub P);

/// A free-floating area.
pub struct Area<P>(pub P);

impl<P> Root<P> for CentralPanel<P> {
    open spec fn kind(&self) -> RootKind {
        RootKind::CentralPanel
    }

    open spec fn region(&self) -> P {
        self.0
    }

    fn into_root(self) -> (halves: (BeginRoot<P>, EndRoot)) {
        (BeginRoot { kind: RootKind::CentralPanel, region: self.0 }, EndRoot { kind: RootKind::CentralPanel })
    }
}

impl<P> Root<P> for SidePanel<P> {
    open spec fn kind(&self) -> RootKind {
        RootKind::SidePanel
    }

    open spec fn region(&self) -> P {
        self.0
    }

    fn into_root(self) -> (halves: (BeginRoot<P>, EndRoot)) {
        (BeginRoot { kind: RootKind::SidePanel, region: self.0 }, EndRoot { kind: RootKind::SidePanel })
    }
}

impl<P> Root<P> for TopBottomPanel<P> {
    open spec fn kind(&self) -> RootKind {
        RootKind::TopBottomPanel
    }

    open spec fn region(&self) -> P {
        self.0
    }

    fn into_root(self) -> (halves: (BeginRoot<P>, EndRoot)) {
        (
            BeginRoot { kind: RootKind::TopBottomPanel, region: self.0 },
            EndRoot { kind: RootKind::TopBottomPanel },
        )
    }
}

impl<P> Root<P> for Window<P> {
    open spec fn kind(&self) -> RootKind {
        RootKind::Window
    }

    open spec fn region(&self) -> P {
        self.0
    }

    fn into_root(self) -> (halves: (BeginRoot<P>, EndRoot)) {
        (BeginRoot { kind: RootKind::Window, region: self.0 }, EndRoot { kind: RootKind::Window })
    }
}

impl<P> Root<P> for Area<P> {
    open spec fn kind(&self) -> RootKind {
        RootKind::Area
    }

    open spec fn region(&self) -> P {
        self.0
    }

    fn into_root(self) -> (halves: (BeginRoot<P>, EndRoot)) {
        (BeginRoot { kind: RootKind::Area, region: self.0 }, EndRoot { kind: RootKind::Area })
    }
}

} // verus!

//! Containers for grouping widgets together, and their two halves.

use vstd::prelude::*;

verus! {

/// The shapes of nested regions. A region is closed by the kind it was
/// opened with.
#[derive(Clone, Copy, Debug, PartialEq, Eq, Structural)]
pub enum ContainerKind {
    Layout,
    ComboBox,
    Resize,
    Frame,
    ScrollArea,
    CollapsingHeader,
    SubMenu,
    UiBuilder,
    Columns,
    ConstColumns,
    Enabled,
    Group,
}

/// What the toolkit is asked to open.
#[derive(Debug, PartialEq, Eq)]
pub enum Opener<P> {
    /// A region primitive of the toolkit.
    Primitive(P),
    /// This many columns side by side.
    Columns(usize),
    /// A scope whose contents are interactive or greyed out.
    Enabled(bool),
    /// A framed group.
    Group,
}

/// The column that takes what is queued into a container of `count`
/// columns: the first, if there is one. A queue says nothing of columns, so
/// its content cannot be spread over them.
pub fn queued_column(count: usize) -> (column: Option<usize>)
    ensures
        count == 0 ==> column is None,
        count > 0 ==> column == Some(0usize),
{
    if count > 0 {
        Some(0)
    } else {
        None
    }
}

/// Opening half of a container.
#[derive(Debug, PartialEq, Eq)]
pub struct BeginContainer<P> {
    pub kind: ContainerKind,
    pub opener: Opener<P>,
}

/// Closing half of a container: the kind it expects to close.
#[derive(Clone, Copy, Debug, PartialEq, Eq, Structural)]
pub struct EndContainer {
    pub kind: ContainerKind,
}

/// A region that can be shown inside another one. It splits into the half
/// that opens it and the half that closes it; both carry the same kind.
pub trait Container<P>: Sized {
    /// The kind of region this is.
    spec fn kind(&self) -> ContainerKind;

    /// What the opening half asks the toolkit to open.
    spec fn opener(&self) -> Opener<P>;

    /// Splits the container into its two halves.
    fn into_container(self) -> (halves: (BeginContainer<P>, EndContainer))
        ensures
            halves.0.kind == self.kind(),
            halves.0.opener == self.opener(),
            halves.1.kind == self.kind(),
    ;
}

/// A region laid out by an explicit layout.
pub struct Layout<P>(pub P);

impl<P> Container<P> for Layout<P> {
    open spec fn kind(&self) -> ContainerKind {
        ContainerKind::Layout
    }

    open spec fn opener(&self) -> Opener<P> {
        Opener::Primitive(self.0)
    }

    fn into_container(self) -> (halves: (BeginContainer<P>, EndContainer)) {
        (
            BeginContainer { kind: ContainerKind::Layout, opener: Opener::Primitive(self.0) },
            EndContainer { kind: ContainerKind::Layout },
        )
    }
}

/// The drop-down part of a combo box.
pub struct ComboBox<P>(pub P);

impl<P> Container<P> for ComboBox<P> {
    open spec fn kind(&self) -> ContainerKind {
        ContainerKind::ComboBox
    }

    open spec fn opener(&self) -> Opener<P> {
        Opener::Primitive(self.0)
    }

    fn into_container(self) -> (halves: (BeginContainer<P>, EndContainer)) {
        (
            BeginContainer { kind: ContainerKind::ComboBox, opener: Opener::Primitive(self.0) },
            EndContainer { kind: ContainerKind::ComboBox },
        )
    }
}

/// A region the user can resize.
pub struct Resize<P>(pub P);

impl<P> Container<P> for Resize<P> {
    open spec fn kind(&self) -> ContainerKind {
        ContainerKind::Resize
    }

    open spec fn opener(&self) -> Opener<P> {
        Opener::Primitive(self.0)
    }

    fn into_container(self) -> (halves: (BeginContainer<P>, EndContainer)) {
        (
            BeginContainer { kind: ContainerKind::Resize, opener: Opener::Primitive(self.0) },
            EndContainer { kind: ContainerKind::Resize },
        )
    }
}

/// A region with a background and a border.
pub struct Frame<P>(pub P);

impl<P> Container<P> for Frame<P> {
    open spec fn kind(&self) -> ContainerKind {
        ContainerKind::Frame
    }

    open spec fn opener(&self) -> Opener<P> {
        Opener::Primitive(self.0)
    }

    fn into_container(self) -> (halves: (BeginContainer<P>, EndContainer)) {
        (
            BeginContainer { kind: ContainerKind::Frame, opener: Opener::Primitive(self.0) },
            EndContainer { kind: ContainerKind::Frame },
        )
    }
}

/// A region that scrolls its contents.
pub struct ScrollArea<P>(pub P);

impl<P> Container<P> for ScrollArea<P> {
    open spec fn kind(&self) -> ContainerKind {
        ContainerKind::ScrollArea
    }

    open spec fn opener(&self) -> Opener<P> {
        Opener::Primitive(self.0)
    }

    fn into_container(self) -> (halves: (BeginContainer<P>, EndContainer)) {
        (
            BeginContainer { kind: ContainerKind::ScrollArea, opener: Opener::Primitive(self.0) },
            EndContainer { kind: ContainerKind::ScrollArea },
        )
    }
}

/// A region under a header that folds away.
pub struct CollapsingHeader<P>(pub P);

impl<P> Container<P> for CollapsingHeader<P> {
    open spec fn kind(&self) -> ContainerKind {
        ContainerKind::CollapsingHeader
    }

    open spec fn opener(&self) -> Opener<P> {
        Opener::Primitive(self.0)
    }

    fn into_container(self) -> (halves: (BeginContainer<P>, EndContainer)) {
        (
            BeginContainer { kind: ContainerKind::CollapsingHeader, opener: Opener::Primitive(self.0) },
            EndContainer { kind: ContainerKind::CollapsingHeader },
        )
    }
}

/// The contents of a sub-menu.
pub struct SubMenu<P>(pub P);

impl<P> Container<P> for SubMenu<P> {
    open spec fn kind(&self) -> ContainerKind {
        ContainerKind::SubMenu
    }

    open spec fn opener(&self) -> Opener<P> {
        Opener::Primitive(self.0)
    }

    fn into_container(self) -> (halves: (BeginContainer<P>, EndContainer)) {
        (
            BeginContainer { kind: ContainerKind::SubMenu, opener: Opener::Primitive(self.0) },
            EndContainer { kind: ContainerKind::SubMenu },
        )
    }
}

/// A child scope built from explicit settings.
pub struct UiBuilder<P>(pub P);

impl<P> Container<P> for UiBuilder<P> {
    open spec fn kind(&self) -> ContainerKind {
        ContainerKind::UiBuilder
    }

    open spec fn opener(&self) -> Opener<P> {
        Opener::Primitive(self.0)
    }

    fn into_container(self) -> (halves: (BeginContainer<P>, EndContainer)) {
        (
            BeginContainer { kind: ContainerKind::UiBuilder, opener: Opener::Primitive(self.0) },
            EndContainer { kind: ContainerKind::UiBuilder },
        )
    }
}

/// Container that renders `COLS` columns. `COLS` is either a `usize` chosen
/// at run time or a [`Const<N>`] fixed at compile time.
pub struct Columns<COLS>(pub COLS);

impl<P> Container<P> for Columns<usize> {
    open spec fn kind(&self) -> ContainerKind {
        ContainerKind::Columns
    }

    open spec fn opener(&self) -> Opener<P> {
        Opener::Columns(self.0)
    }

    fn into_container(self) -> (halves: (BeginContainer<P>, EndContainer)) {
        (
            BeginContainer { kind: ContainerKind::Columns, opener: Opener::Columns(self.0) },
            EndContainer { kind: ContainerKind::Columns },
        )
    }
}

/// Specifies a constant number of [`Columns`].
pub struct Const<const N: usize>;

impl<P, const N: usize> Container<P> for Columns<Const<N>> {
    open spec fn kind(&self) -> ContainerKind {
        ContainerKind::ConstColumns
    }

    open spec fn opener(&self) -> Opener<P> {
        Opener::Columns(N)
    }

    fn into_container(self) -> (halves: (BeginContainer<P>, EndContainer)) {
        (
            BeginContainer { kind: ContainerKind::ConstColumns, opener: Opener::Columns(N) },
            EndContainer { kind: ContainerKind::ConstColumns },
        )
    }
}

/// Container that renders a maybe-enabled UI.
pub struct Enabled(pub bool);

impl<P> Container<P> for Enabled {
    open spec fn kind(&self) -> ContainerKind {
        ContainerKind::Enabled
    }

    open spec fn opener(&self) -> Opener<P> {
        Opener::Enabled(self.0)
    }

    fn into_container(self) -> (halves: (BeginContainer<P>, EndContainer)) {
        (
            BeginContainer { kind: ContainerKind::Enabled, opener: Opener::Enabled(self.0) },
            EndContainer { kind: ContainerKind::Enabled },
        )
    }
}

/// Container that groups widgets together inside a frame.
pub struct Group;

impl<P> Container<P> for Group {
    open spec fn kind(&self) -> ContainerKind {
        ContainerKind::Group
    }

    open spec fn opener(&self) -> Opener<P> {
        Opener::Group
    }

    fn into_container(self) -> (halves: (BeginContainer<P>, EndContainer)) {
        (
            BeginContainer { kind: ContainerKind::Group, opener: Opener::Group },
            EndContainer { kind: ContainerKind::Group },
        )
    }
}

} // verus!

//! Commonly used traits and types.

pub use crate::command::{Command, Commands, RootCommands, UiCommands};
pub use crate::container::{
    CollapsingHeader, Columns, ComboBox, Const, Container, Enabled, Frame, Group, Layout, Resize,
    ScrollArea, SubMenu, UiBuilder,
};
pub use crate::ctx::{WorldCtx, WorldCtxExt};
pub use crate::effect::{Diagnostic, Effect};
pub use crate::responder::{IntoResponder, Responder};
pub use crate::root::{Area, CentralPanel, Root, SidePanel, TopBottomPanel, Window};
pub use crate::state::{EguiContext, RegionId};
pub use crate::system::{Invocation, SystemDef, SystemId};
pub use crate::ui::{UiStack, WorldUi};
pub use crate::widget::{Draw, EguiWidget, IntoWidget, Widget};

pub mod controller;
pub mod geometry;
pub mod items;
pub mod laws;
pub mod menu_bar;
pub mod navigation;
pub mod pointer;
pub mod shortcuts;
pub mod tree;

pub use controller::{FrameInput, FrameOutput, TitleBar};
pub use geometry::{GeometryCache, PanelGeometry, Point, Rect};
pub use items::{KeyChord, KeyboardShortcut, SubMenuItem};
pub use menu_bar::MenuBar;
pub use navigation::{InputMode, MenuState, NavKey};
pub use tree::MenuTree;

//! The parts of the configuration that the compositor's logic reads.
use vstd::prelude::*;

verus! {

#[derive(Debug, Clone, Copy, PartialEq, Eq, Structural)]
pub enum FocusDirection {
    Left,
    Right,
    Up,
    Down,
}

#[derive(Debug, Clone, Copy, PartialEq, Eq, Structural)]
pub enum LayoutKind {
    Dwindle,
    MasterStack,
}

/// What a key binding does.
#[derive(Debug)]
pub enum Action {
    Spawn(String),
    FocusNext,
    FocusPrev,
    FocusDirection(FocusDirection),
    FocusOutput(FocusDirection),
    MoveWindowToOutput(FocusDirection),
    CloseWindow,
    ToggleFullscreen,
    ToggleFloat,
    ToggleSticky,
    Quit,
    SwitchWorkspace(usize),
    MoveToWorkspace(usize),
}

/// A key binding as it is written in the configuration.
#[derive(Debug)]
pub struct Keybind {
    pub modifiers: Vec<String>,
    pub key: String,
    pub action: Action,
}

/// A mode by size and, where it matters, refresh rate in hertz.
#[derive(Debug, Clone, Copy, PartialEq, Eq, Structural)]
pub struct OutputModeSpec {
    pub width: i32,
    pub height: i32,
    pub refresh: Option<u32>,
}

/// What the configuration says of one output.
#[derive(Debug)]
pub struct OutputConfig {
    pub name: String,
    pub enabled: bool,
    pub mode: Option<OutputModeSpec>,
    pub position: Option<(i32, i32)>,
}

} // verus!

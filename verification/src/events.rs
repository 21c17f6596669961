//! Messages between the editor, the host and the controller.
use crate::domain::{KeyMode, Layer};
use crate::plain::Plain;
use vstd::prelude::*;

verus! {

/// Where a preset is read from.
#[derive(Clone, Debug)]
pub enum PresetSource {
    /// Index into the factory bank.
    Factory { index: usize },
    /// Absolute path under the user's presets.
    User { path: String },
}

/// What the editor asks for. A parameter is given by its id.
#[derive(Clone, Debug)]
pub enum UiEvent {
    SetParam { id: usize, plain: Plain },
    SetParamNorm { id: usize, norm: Plain },
    BeginGesture { id: usize },
    EndGesture { id: usize },
    /// Put every parameter of a layer's patch to its default, each in a gesture. The
    /// global parameters and the other layer stay.
    ResetLayer { layer: Layer },
    LoadPreset { source: PresetSource },
    /// Walk the list of all presets by `delta`, wrapping at either end, and load the entry.
    StepPreset { delta: i32 },
    SavePreset { name: String, folder: Option<String> },
    RenamePreset { path: String, new_name: String },
    DeletePreset { path: String },
    MovePreset { path: String, dest_folder: Option<String> },
    RenameFolder { old_name: String, new_name: String },
    DeleteFolder { name: String },
    NewFolder { suggested: String },
    SetKeyMode { mode: KeyMode },
    SetSplitPoint { note: u8 },
    SetEditLayer { layer: Layer },
    /// The editor is ready to be told everything.
    EditorReady,
    /// Open a window for a text. `id` comes back with the result.
    RequestTextInput { id: String, title: String, initial: String },
    /// The text that was entered, or nothing if that was called off.
    TextInputResult { id: String, value: Option<String> },
}

/// What the host tells the controller.
#[derive(Clone, Debug)]
pub enum HostEvent {
    ParamAutomation { id: usize, plain: Plain },
    /// A saved state, as bytes.
    StateLoaded { blob: Vec<u8> },
    Tempo { bpm: Plain },
}

/// What the editor is told. `M` describes a preset.
#[derive(Clone, Debug)]
pub enum ViewEvent<M> {
    ParamChanged { id: usize, plain: Plain, norm: Plain, display: String },
    PresetLoaded { meta: M, source: Option<PresetSource>, warnings: Vec<String> },
    /// The user's presets changed. `follow` is the entry that did, if it was one.
    PresetCorpusChanged { follow: Option<String> },
    KeyModeChanged { mode: KeyMode },
    /// Another layer is being edited.
    EditLayerChanged { layer: Layer },
    Status { line: String },
    /// Open a window for a text.
    OpenTextInput { id: String, title: String, initial: String },
    TextInputResult { id: String, value: Option<String> },
}

} // verus!

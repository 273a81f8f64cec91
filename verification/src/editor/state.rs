//! What the pointer is doing, which tool is in hand, and how the interface is
//! set up.

use crate::colorpicker::mode::{PickerMode, WheelAngles, WheelShape};
use crate::number::{digits_of, write_digits};
use crate::text::{push_text, string_of};
use vstd::prelude::*;

verus! {

/// What the pointer is currently doing.
#[derive(Clone, Copy, Debug, PartialEq, Eq, Structural)]
pub enum Interaction {
    Idle,
    Drawing,
    /// A selection outline is being drawn.
    Selecting,
    Panning,
    Zooming,
    /// A colour is being taken, and the pointer is still down.
    Picking,
}

impl Interaction {
    /// Whether the eyedropper may be aimed while this is going on: the hover,
    /// and the drag itself. Everything else is another gesture holding the
    /// pointer.
    pub open spec fn aims(self) -> bool {
        self == Interaction::Idle || self == Interaction::Picking
    }

    pub fn allows_aim(self) -> (r: bool)
        ensures
            r == self.aims(),
    {
        match self {
            Interaction::Idle | Interaction::Picking => true,
            Interaction::Drawing
            | Interaction::Selecting
            | Interaction::Panning
            | Interaction::Zooming => false,
        }
    }
}

#[derive(Clone, Copy, Debug, PartialEq, Eq, Structural)]
pub enum Tool {
    Brush,
    Eraser,
    Select,
    Transform,
    /// Take the colour under the pointer.
    Eyedropper,
    Pan,
    Zoom,
}

impl Tool {
    /// Whether a press with this tool lays paint down.
    pub fn paints(self) -> (r: bool)
        ensures
            r == (self == Tool::Brush || self == Tool::Eraser),
    {
        match self {
            Tool::Brush | Tool::Eraser => true,
            Tool::Select | Tool::Transform | Tool::Eyedropper | Tool::Pan | Tool::Zoom => false,
        }
    }
}

/// Tabs of the brush editor dialog.
#[derive(Clone, Copy, Debug, PartialEq, Eq, Structural, Hash)]
pub enum BrushTab {
    Tip,
    Dynamics,
    Inputs,
    Scatter,
    Texture,
    Blending,
}

/// What one step of the history needs of the document before it can be carried
/// out, or why it cannot be.
#[derive(Clone, Copy, Debug, PartialEq, Eq, Structural)]
pub enum StepGate {
    /// Nothing in the way.
    Clear,
    /// A canvas flip: the live stroke has to be committed first.
    SettleForFlip,
    /// A canvas flip a locked layer refuses. The entry stays where it is.
    FlipLocked,
}

impl StepGate {
    /// Whether this answer refuses the step outright.
    pub fn refuses(self) -> (r: bool)
        ensures
            r == (self == StepGate::FlipLocked),
    {
        match self {
            StepGate::Clear | StepGate::SettleForFlip => false,
            StepGate::FlipLocked => true,
        }
    }
}

/// Why a locked layer refuses a canvas flip, in one clause.
pub const FLIP_LOCKED_REASON: &'static str =
    "A flip mirrors every layer at once, so it cannot skip one. Unlock every locked layer in the Layers panel";

/// What the window is like around the pointer this frame.
#[derive(Clone, Copy, Debug, PartialEq, Eq, Structural)]
pub struct Surroundings {
    /// Whether a menu, a dropdown, a modal or a floating panel is drawn over the
    /// canvas at the pointer.
    pub over_area: bool,
    /// Whether this window has the keyboard focus.
    pub focused: bool,
}

/// A count of text layers as somebody would write it.
pub open spec fn text_layers_of(count: int) -> Seq<char> {
    if count == 1 {
        "one text layer"@
    } else {
        digits_of(count as nat) + " text layers"@
    }
}

pub fn text_layers(count: usize) -> (r: String)
    ensures
        r@ == text_layers_of(count as int),
{
    if count == 1 {
        return "one text layer".to_owned();
    }
    let mut out: Vec<char> = Vec::new();
    write_digits(count as u64, &mut out);
    push_text(&mut out, " text layers");
    assert(out@ =~= text_layers_of(count as int));
    string_of(&out)
}

/// A message that has to reach the user rather than the log.
#[derive(Debug)]
pub struct Notice {
    pub title: String,
    pub lines: Vec<String>,
}

/// Which outline the selection tool draws.
#[derive(Clone, Copy, Debug, PartialEq, Eq, Structural)]
pub enum SelectionMode {
    Rectangle,
    Ellipse,
    Lasso,
    Polygon,
}

/// What a gesture does to the selection already standing.
#[derive(Clone, Copy, Debug, PartialEq, Eq, Structural)]
pub enum SelectionOp {
    Replace,
    Add,
    Subtract,
}

/// The themes the application comes with.
#[derive(Clone, Copy, Debug, PartialEq, Eq, Structural)]
pub enum ThemeKind {
    Graphite,
    Paper,
}

/// A pane of the settings dialog.
#[derive(Clone, Copy, Debug, PartialEq, Eq, Structural)]
pub enum SettingsTab {
    Themes,
    Shortcuts,
    InputAndPen,
}

/// Presentation state: what the interface looks like, not what the document
/// contains. Lengths and shares are on the grids of [`crate::geom`] and
/// [`crate::ratio`].
#[derive(Clone, Copy, Debug, PartialEq, Eq, Structural)]
pub struct UiState {
    pub theme: ThemeKind,
    pub pressure_open: bool,
    pub tool: Tool,
    pub selection_mode: SelectionMode,
    pub selection_op: SelectionOp,
    /// How far a new selection's edge is softened.
    pub selection_feather: i64,
    /// How far a rectangular selection's corners are rounded.
    pub selection_roundness: i64,
    /// How heavily the lasso damps the hand.
    pub selection_stabiliser: i64,
    pub picker: PickerMode,
    pub wheel_shape: WheelShape,
    pub wheel_rotates: bool,
    pub wheel_mirrored: bool,
    pub wheel_angles: WheelAngles,
    pub brush_editor_open: bool,
    pub brush_tab: BrushTab,
    pub settings_open: bool,
    pub settings_tab: SettingsTab,
    pub module_library_open: bool,
    pub about_open: bool,
    /// Tab whose close is waiting on confirmation, if any.
    pub close_prompt: Option<usize>,
    /// The window has been asked to close and something would be lost.
    pub quit_prompt: bool,
    /// Which row of the brush editor's Inputs list is open.
    pub modulation: usize,
    /// Whether a save carries the undo history into the document.
    pub save_history: bool,
    /// Whether placing text makes a layer of its own to hold it.
    pub text_own_layer: bool,
}

impl UiState {
    /// Take up a tool.
    pub fn take_up(&mut self, tool: Tool)
        ensures
            *final(self) == (UiState { tool, ..*old(self) }),
    {
        self.tool = tool;
    }

    pub open spec fn shipped() -> UiState {
        UiState {
            theme: ThemeKind::Graphite,
            pressure_open: true,
            tool: Tool::Brush,
            selection_mode: SelectionMode::Rectangle,
            selection_op: SelectionOp::Replace,
            selection_feather: 0,
            selection_roundness: 0,
            selection_stabiliser: 0,
            picker: PickerMode::Wheel,
            wheel_shape: WheelShape::Triangle,
            wheel_rotates: true,
            wheel_mirrored: false,
            wheel_angles: WheelAngles { triangle: 0, square: 0 },
            brush_editor_open: false,
            brush_tab: BrushTab::Tip,
            settings_open: false,
            settings_tab: SettingsTab::Themes,
            module_library_open: false,
            about_open: false,
            close_prompt: None,
            quit_prompt: false,
            modulation: 0,
            save_history: true,
            text_own_layer: true,
        }
    }
}

impl Default for UiState {
    fn default() -> (r: UiState)
        ensures
            r == UiState::shipped(),
    {
        UiState {
            theme: ThemeKind::Graphite,
            pressure_open: true,
            tool: Tool::Brush,
            selection_mode: SelectionMode::Rectangle,
            selection_op: SelectionOp::Replace,
            selection_feather: 0,
            selection_roundness: 0,
            selection_stabiliser: 0,
            picker: PickerMode::Wheel,
            wheel_shape: WheelShape::Triangle,
            wheel_rotates: true,
            wheel_mirrored: false,
            wheel_angles: WheelAngles::default(),
            brush_editor_open: false,
            brush_tab: BrushTab::Tip,
            settings_open: false,
            settings_tab: SettingsTab::Themes,
            module_library_open: false,
            about_open: false,
            close_prompt: None,
            quit_prompt: false,
            modulation: 0,
            save_history: true,
            text_own_layer: true,
        }
    }
}

/// The pointer aims while nothing is under way or a colour is being picked, and while
/// nothing else is.
pub proof fn only_the_idle_and_the_picking_aim(i: Interaction)
    ensures
        Interaction::Idle.aims(),
        Interaction::Picking.aims(),
        i != Interaction::Idle && i != Interaction::Picking ==> !i.aims(),
{
}

/// An editor opens with the brush in hand and every window closed, and asks about nothing;
/// outlines are plain rectangles that replace what was selected; the picker is a triangle
/// in a wheel that turns with the hue; and history is saved.
pub proof fn an_editor_opens_with_the_brush_in_hand()
    ensures
        ({
            let ui = UiState::shipped();
            &&& ui.tool == Tool::Brush
            &&& ui.theme == ThemeKind::Graphite
            &&& ui.selection_mode == SelectionMode::Rectangle
            &&& ui.selection_op == SelectionOp::Replace
            &&& ui.selection_feather == 0 && ui.selection_roundness == 0
                && ui.selection_stabiliser == 0
            &&& ui.picker == PickerMode::Wheel
            &&& ui.wheel_shape == WheelShape::Triangle
            &&& ui.wheel_rotates && !ui.wheel_mirrored
            &&& ui.wheel_angles.triangle == 0 && ui.wheel_angles.square == 0
            &&& !ui.brush_editor_open && !ui.settings_open && !ui.module_library_open
                && !ui.about_open
            &&& ui.brush_tab == BrushTab::Tip
            &&& ui.settings_tab == SettingsTab::Themes
            &&& ui.close_prompt is None && !ui.quit_prompt
            &&& ui.pressure_open
            &&& ui.modulation == 0
            &&& ui.save_history
            &&& ui.text_own_layer
        }),
{
}

} // verus!

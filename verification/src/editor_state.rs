//! Editor tools, panels and the tool choices made on the toolbar.

use vstd::prelude::*;

verus! {

/// The tool the viewport currently applies.
#[derive(Debug, Clone, Copy, PartialEq, Eq, Structural)]
pub enum EditorTool {
    Select,
    Platform,
    EntityPlace,
    Erase,
    Eyedropper,
}

impl Default for EditorTool {
    fn default() -> (r: Self)
        ensures
            r == EditorTool::Select,
    {
        EditorTool::Select
    }
}

/// How the tile brush paints.
#[derive(Debug, Clone, Copy, PartialEq, Eq, Structural)]
pub enum PaintMode {
    /// Single tiles (or the selected stamp).
    Single,
    /// A filled rectangle between press and release.
    Rectangle,
    /// Flood fill of connected tiles.
    BucketFill,
    /// A line between press and release.
    Line,
}

/// Panels that can be docked.
#[derive(Debug, Clone, Copy, PartialEq, Eq, Structural)]
pub enum PanelType {
    SceneTree,
    Inspector,
    Layers,
    Tileset,
}

impl PanelType {
    /// Title shown on the panel's tab.
    pub fn title(&self) -> (r: &'static str)
        ensures
            r == match *self {
                PanelType::SceneTree => "Scene Tree",
                PanelType::Inspector => "Inspector",
                PanelType::Layers => "Layers",
                PanelType::Tileset => "Tileset",
            },
    {
        match self {
            PanelType::SceneTree => "Scene Tree",
            PanelType::Inspector => "Inspector",
            PanelType::Layers => "Layers",
            PanelType::Tileset => "Tileset",
        }
    }
}

/// Tabs of the left side panel.
#[derive(Debug, Clone, Copy, PartialEq, Eq, Structural)]
pub enum LeftPanelTab {
    SceneTree,
    Layers,
}

/// Tabs of the right side panel.
#[derive(Debug, Clone, Copy, PartialEq, Eq, Structural)]
pub enum RightPanelTab {
    Inspector,
    Tilesets,
}

/// The tool buttons of the toolbar.
#[derive(Debug, Clone, Copy, PartialEq, Eq, Structural)]
pub enum ToolbarButton {
    Select,
    Brush,
    Rectangle,
    Line,
    Fill,
    Eyedropper,
    Erase,
}

impl ToolbarButton {
    /// The text of the button, with its icon and shortcut key.
    pub fn label(&self) -> (r: &'static str)
        ensures
            r == match *self {
                ToolbarButton::Select => "↑ Select (V)",
                ToolbarButton::Brush => "🖌 Brush (B)",
                ToolbarButton::Rectangle => "▭ Rectangle (R)",
                ToolbarButton::Line => "─ Line (L)",
                ToolbarButton::Fill => "🪣 Fill (F)",
                ToolbarButton::Eyedropper => "💧 Eyedropper (I)",
                ToolbarButton::Erase => "🧹 Erase (E)",
            },
    {
        match self {
            ToolbarButton::Select => "↑ Select (V)",
            ToolbarButton::Brush => "🖌 Brush (B)",
            ToolbarButton::Rectangle => "▭ Rectangle (R)",
            ToolbarButton::Line => "─ Line (L)",
            ToolbarButton::Fill => "🪣 Fill (F)",
            ToolbarButton::Eyedropper => "💧 Eyedropper (I)",
            ToolbarButton::Erase => "🧹 Erase (E)",
        }
    }

    /// The tooltip of the button.
    pub fn hover_text(&self) -> (r: &'static str)
        ensures
            r == match *self {
                ToolbarButton::Select => "Select and move entities\nShortcut: V",
                ToolbarButton::Brush => "Paint single tiles\nShortcut: B",
                ToolbarButton::Rectangle => "Draw filled rectangle\nShortcut: R",
                ToolbarButton::Line => "Draw straight line\nShortcut: L",
                ToolbarButton::Fill => "Bucket fill connected tiles\nShortcut: F",
                ToolbarButton::Eyedropper => "Pick tile from canvas\nShortcut: I or hold Alt",
                ToolbarButton::Erase => "Erase tiles\nShortcut: E",
            },
    {
        match self {
            ToolbarButton::Select => "Select and move entities\nShortcut: V",
            ToolbarButton::Brush => "Paint single tiles\nShortcut: B",
            ToolbarButton::Rectangle => "Draw filled rectangle\nShortcut: R",
            ToolbarButton::Line => "Draw straight line\nShortcut: L",
            ToolbarButton::Fill => "Bucket fill connected tiles\nShortcut: F",
            ToolbarButton::Eyedropper => "Pick tile from canvas\nShortcut: I or hold Alt",
            ToolbarButton::Erase => "Erase tiles\nShortcut: E",
        }
    }
}

/// The tool and, for the painting buttons, the paint mode that a toolbar
/// button selects; `None` for the mode means the mode is left as it is.
pub open spec fn button_choice(button: ToolbarButton) -> (EditorTool, Option<PaintMode>) {
    match button {
        ToolbarButton::Select => (EditorTool::Select, None),
        ToolbarButton::Brush => (EditorTool::Platform, Some(PaintMode::Single)),
        ToolbarButton::Rectangle => (EditorTool::Platform, Some(PaintMode::Rectangle)),
        ToolbarButton::Line => (EditorTool::Platform, Some(PaintMode::Line)),
        ToolbarButton::Fill => (EditorTool::Platform, Some(PaintMode::BucketFill)),
        ToolbarButton::Eyedropper => (EditorTool::Eyedropper, None),
        ToolbarButton::Erase => (EditorTool::Erase, None),
    }
}

/// Applies a click on a toolbar tool button.
pub fn press_toolbar_button(tool: &mut EditorTool, mode: &mut PaintMode, button: ToolbarButton)
    ensures
        *final(tool) == button_choice(button).0,
        *final(mode) == match button_choice(button).1 {
            Some(m) => m,
            None => *old(mode),
        },
{
    match button {
        ToolbarButton::Select => {
            *tool = EditorTool::Select;
        },
        ToolbarButton::Brush => {
            *tool = EditorTool::Platform;
            *mode = PaintMode::Single;
        },
        ToolbarButton::Rectangle => {
            *tool = EditorTool::Platform;
            *mode = PaintMode::Rectangle;
        },
        ToolbarButton::Line => {
            *tool = EditorTool::Platform;
            *mode = PaintMode::Line;
        },
        ToolbarButton::Fill => {
            *tool = EditorTool::Platform;
            *mode = PaintMode::BucketFill;
        },
        ToolbarButton::Eyedropper => {
            *tool = EditorTool::Eyedropper;
        },
        ToolbarButton::Erase => {
            *tool = EditorTool::Erase;
        },
    }
}

/// Whether a toolbar tool button shows as selected: its tool is the current
/// one and, for the painting buttons, its mode is the current mode.
pub fn toolbar_button_selected(tool: EditorTool, mode: PaintMode, button: ToolbarButton) -> (r: bool)
    ensures
        r == (tool == button_choice(button).0 && match button_choice(button).1 {
            Some(m) => mode == m,
            None => true,
        }),
{
    match button {
        ToolbarButton::Select => tool == EditorTool::Select,
        ToolbarButton::Brush => tool == EditorTool::Platform && mode == PaintMode::Single,
        ToolbarButton::Rectangle => tool == EditorTool::Platform && mode == PaintMode::Rectangle,
        ToolbarButton::Line => tool == EditorTool::Platform && mode == PaintMode::Line,
        ToolbarButton::Fill => tool == EditorTool::Platform && mode == PaintMode::BucketFill,
        ToolbarButton::Eyedropper => tool == EditorTool::Eyedropper,
        ToolbarButton::Erase => tool == EditorTool::Erase,
    }
}

/// The "Active:" label of the toolbar for a tool and paint mode.
pub open spec fn active_label(tool: EditorTool, mode: PaintMode) -> &'static str {
    match tool {
        EditorTool::Platform => match mode {
            PaintMode::Single => "Brush",
            PaintMode::Rectangle => "Rectangle",
            PaintMode::Line => "Line",
            PaintMode::BucketFill => "Fill",
        },
        EditorTool::Select => "Select",
        EditorTool::Eyedropper => "Eyedropper",
        EditorTool::Erase => "Erase",
        EditorTool::EntityPlace => "Entity",
    }
}

/// The "Active:" label of the toolbar.
pub fn active_mode_label(tool: EditorTool, mode: PaintMode) -> (r: &'static str)
    ensures
        r == active_label(tool, mode),
{
    match tool {
        EditorTool::Platform => match mode {
            PaintMode::Single => "Brush",
            PaintMode::Rectangle => "Rectangle",
            PaintMode::Line => "Line",
            PaintMode::BucketFill => "Fill",
        },
        EditorTool::Select => "Select",
        EditorTool::Eyedropper => "Eyedropper",
        EditorTool::Erase => "Erase",
        EditorTool::EntityPlace => "Entity",
    }
}

/// Whether the run, build and lint buttons are enabled: a project is open
/// and no command is running.
pub fn cli_buttons_enabled(has_project: bool, is_running: bool) -> (r: bool)
    ensures
        r == (has_project && !is_running),
{
    has_project && !is_running
}

/// The panel that shows the output of editor commands.
#[derive(Debug, Clone, Copy, PartialEq, Eq, Structural)]
pub struct CLIOutputPanel {
    pub visible: bool,
    pub auto_scroll: bool,
}

impl Default for CLIOutputPanel {
    fn default() -> (r: Self)
        ensures
            !r.visible,
            r.auto_scroll,
    {
        CLIOutputPanel { visible: false, auto_scroll: true }
    }
}

impl CLIOutputPanel {
    /// Opens the panel while a command runs or there is output to show, and
    /// says whether the panel is drawn this frame.
    pub fn update_visibility(&mut self, running: bool, has_output: bool) -> (shown: bool)
        ensures
            final(self).visible == (old(self).visible || running || has_output),
            final(self).auto_scroll == old(self).auto_scroll,
            shown == final(self).visible,
    {
        if running || has_output {
            self.visible = true;
        }
        self.visible
    }
}

/// The tool and paint mode after pressing `button` with `tool` and `mode`
/// current, as `press_toolbar_button` leaves them.
pub open spec fn after_press(tool: EditorTool, mode: PaintMode, button: ToolbarButton) -> (EditorTool, PaintMode) {
    (
        button_choice(button).0,
        match button_choice(button).1 {
            Some(m) => m,
            None => mode,
        },
    )
}

/// The name a toolbar button carries on its label.
pub open spec fn button_name(button: ToolbarButton) -> &'static str {
    match button {
        ToolbarButton::Select => "Select",
        ToolbarButton::Brush => "Brush",
        ToolbarButton::Rectangle => "Rectangle",
        ToolbarButton::Line => "Line",
        ToolbarButton::Fill => "Fill",
        ToolbarButton::Eyedropper => "Eyedropper",
        ToolbarButton::Erase => "Erase",
    }
}

/// Each painting button selects the brush in its own paint mode (Brush:
/// single tiles, Rectangle: rectangles, Line: lines, Fill: bucket fill),
/// whatever was selected before; the other buttons select their tool and
/// keep the paint mode.
pub proof fn lemma_buttons_select_their_modes(tool: EditorTool, mode: PaintMode)
    ensures
        after_press(tool, mode, ToolbarButton::Brush) == (EditorTool::Platform, PaintMode::Single),
        after_press(tool, mode, ToolbarButton::Rectangle) == (EditorTool::Platform, PaintMode::Rectangle),
        after_press(tool, mode, ToolbarButton::Line) == (EditorTool::Platform, PaintMode::Line),
        after_press(tool, mode, ToolbarButton::Fill) == (EditorTool::Platform, PaintMode::BucketFill),
        after_press(tool, mode, ToolbarButton::Select) == (EditorTool::Select, mode),
        after_press(tool, mode, ToolbarButton::Eyedropper) == (EditorTool::Eyedropper, mode),
        after_press(tool, mode, ToolbarButton::Erase) == (EditorTool::Erase, mode),
{
}

/// After pressing any toolbar button, the toolbar's "Active:" label names
/// that button, and the button shows as selected.
pub proof fn lemma_pressed_button_is_active(tool: EditorTool, mode: PaintMode, button: ToolbarButton)
    ensures
        active_label(after_press(tool, mode, button).0, after_press(tool, mode, button).1) == button_name(button),
        after_press(tool, mode, button).0 == button_choice(button).0 && match button_choice(button).1 {
            Some(m) => after_press(tool, mode, button).1 == m,
            None => true,
        },
{
}

/// Two different painting buttons select different paint modes.
pub proof fn lemma_paint_buttons_differ(tool: EditorTool, mode: PaintMode, a: ToolbarButton, b: ToolbarButton)
    requires
        a != b,
        button_choice(a).1 is Some,
        button_choice(b).1 is Some,
    ensures
        after_press(tool, mode, a).1 != after_press(tool, mode, b).1,
{
}

} // verus!

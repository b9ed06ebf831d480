//! Which tool panels are shown.

use vstd::prelude::*;

verus! {

/// The tool panels, in the order in which they are listed.
#[derive(Clone, Copy, Debug, PartialEq, Eq, Structural)]
pub enum Tool {
    PaletteOverview,
    DwuiExample,
    WcagContrast,
    CurveEditor,
    PixelArt,
    ColorImport,
}

/// The number of tools.
pub const TOOL_COUNT: usize = 6;

/// Position of `t` in the list of tools.
pub open spec fn tool_index(t: Tool) -> int {
    match t {
        Tool::PaletteOverview => 0,
        Tool::DwuiExample => 1,
        Tool::WcagContrast => 2,
        Tool::CurveEditor => 3,
        Tool::PixelArt => 4,
        Tool::ColorImport => 5,
    }
}

/// The tool at position `i` of the list.
pub open spec fn tool_at_spec(i: int) -> Tool {
    if i == 0 {
        Tool::PaletteOverview
    } else if i == 1 {
        Tool::DwuiExample
    } else if i == 2 {
        Tool::WcagContrast
    } else if i == 3 {
        Tool::CurveEditor
    } else if i == 4 {
        Tool::PixelArt
    } else {
        Tool::ColorImport
    }
}

impl Tool {
    /// Position of this tool in the list of tools.
    pub fn index(&self) -> (r: usize)
        ensures
            r == tool_index(*self),
            r < TOOL_COUNT,
    {
        match self {
            Tool::PaletteOverview => 0,
            Tool::DwuiExample => 1,
            Tool::WcagContrast => 2,
            Tool::CurveEditor => 3,
            Tool::PixelArt => 4,
            Tool::ColorImport => 5,
        }
    }

    /// The tool at position `i` of the list.
    pub fn at(i: usize) -> (r: Tool)
        requires
            i < TOOL_COUNT,
        ensures
            r == tool_at_spec(i as int),
            tool_index(r) == i,
    {
        if i == 0 {
            Tool::PaletteOverview
        } else if i == 1 {
            Tool::DwuiExample
        } else if i == 2 {
            Tool::WcagContrast
        } else if i == 3 {
            Tool::CurveEditor
        } else if i == 4 {
            Tool::PixelArt
        } else {
            Tool::ColorImport
        }
    }

    /// The tool's title.
    pub fn label(&self) -> (r: &'static str)
        ensures
            *self == Tool::PaletteOverview ==> r@ == "Color Wheel"@,
            *self == Tool::DwuiExample ==> r@ == "DWUI Example"@,
            *self == Tool::WcagContrast ==> r@ == "WCAG Contrast"@,
            *self == Tool::CurveEditor ==> r@ == "Curve Editor"@,
            *self == Tool::PixelArt ==> r@ == "Pixel Art"@,
            *self == Tool::ColorImport ==> r@ == "Color Import"@,
    {
        match self {
            Tool::PaletteOverview => "Color Wheel",
            Tool::DwuiExample => "DWUI Example",
            Tool::WcagContrast => "WCAG Contrast",
            Tool::CurveEditor => "Curve Editor",
            Tool::PixelArt => "Pixel Art",
            Tool::ColorImport => "Color Import",
        }
    }
}

/// The tools among the first `n` of the list whose flag in `shown` is set,
/// in list order.
pub open spec fn shown_prefix(shown: Seq<bool>, n: int) -> Seq<Tool>
    decreases n,
{
    if n <= 0 {
        Seq::empty()
    } else if shown[n - 1] {
        shown_prefix(shown, n - 1).push(tool_at_spec(n - 1))
    } else {
        shown_prefix(shown, n - 1)
    }
}

/// Which tool panels are shown: one flag per tool, in list order.
#[derive(Clone, Debug)]
pub struct ToolsViewState {
    pub show_tools: Vec<bool>,
}

impl ToolsViewState {
    pub open spec fn wf(&self) -> bool {
        self.show_tools@.len() == TOOL_COUNT
    }

    /// Whether `tool` is shown.
    pub open spec fn shown(&self, tool: Tool) -> bool {
        self.show_tools@[tool_index(tool)]
    }

    /// The palette overview, the component example and the pixel-art tool
    /// shown; the others hidden.
    pub fn new() -> (r: ToolsViewState)
        ensures
            r.wf(),
            r.show_tools@ == seq![true, true, false, false, true, false],
    {
        let mut show_tools: Vec<bool> = Vec::new();
        show_tools.push(true);
        show_tools.push(true);
        show_tools.push(false);
        show_tools.push(false);
        show_tools.push(true);
        show_tools.push(false);
        proof {
            assert(show_tools@ =~= seq![true, true, false, false, true, false]);
        }
        ToolsViewState { show_tools }
    }

    /// Shows `tool` if it was hidden, hides it if it was shown.
    pub fn toggle(&mut self, tool: Tool)
        requires
            old(self).wf(),
        ensures
            final(self).wf(),
            final(self).show_tools@ == old(self).show_tools@.update(tool_index(tool), !old(self).shown(tool)),
    {
        let i = tool.index();
        let v = self.show_tools[i];
        self.show_tools.set(i, !v);
    }

    /// Whether `tool` is shown.
    pub fn tool_state(&self, tool: Tool) -> (r: bool)
        requires
            self.wf(),
        ensures
            r == self.shown(tool),
    {
        self.show_tools[tool.index()]
    }

    /// Hides `tool`.
    pub fn close_tool(&mut self, tool: Tool)
        requires
            old(self).wf(),
        ensures
            final(self).wf(),
            final(self).show_tools@ == old(self).show_tools@.update(tool_index(tool), false),
    {
        self.show_tools.set(tool.index(), false);
    }

    /// The shown tools, in list order.
    pub fn shown_tools(&self) -> (r: Vec<Tool>)
        requires
            self.wf(),
        ensures
            r@ == shown_prefix(self.show_tools@, TOOL_COUNT as int),
    {
        let mut out: Vec<Tool> = Vec::new();
        let mut i: usize = 0;
        while i < TOOL_COUNT
            invariant
                i <= TOOL_COUNT,
                self.wf(),
                out@ == shown_prefix(self.show_tools@, i as int),
            decreases TOOL_COUNT - i,
        {
            if self.show_tools[i] {
                out.push(Tool::at(i));
            }
            i = i + 1;
        }
        out
    }
}

impl Default for ToolsViewState {
    fn default() -> (r: ToolsViewState)
        ensures
            r.wf(),
            r.show_tools@ == seq![true, true, false, false, true, false],
    {
        ToolsViewState::new()
    }
}

} // verus!

//! Navigation state shared by the dashboard's views: the tab ring, the
//! diagnostics focus ring and tool menu, and wrapping cursor moves over
//! lists.

use vstd::prelude::*;

verus! {

/// The dashboard's tabs, in display order.
#[derive(Clone, Copy, PartialEq, Eq, Structural, Debug)]
pub enum CurrentTab {
    /// System and public-address overview.
    Dashboard,
    /// Adapter catalogue.
    Adapter,
    /// Subnet scanner.
    Scanner,
    /// Per-adapter traffic rates.
    Traffic,
    /// Diagnostics tools (ping and friends).
    Diagnostics,
    /// Operator settings.
    Settings,
}

impl CurrentTab {
    /// The tab to the right, wrapping from the last back to the first.
    pub fn next(&self) -> (r: CurrentTab)
        ensures
            r == (match *self {
                CurrentTab::Dashboard => CurrentTab::Adapter,
                CurrentTab::Adapter => CurrentTab::Scanner,
                CurrentTab::Scanner => CurrentTab::Traffic,
                CurrentTab::Traffic => CurrentTab::Diagnostics,
                CurrentTab::Diagnostics => CurrentTab::Settings,
                CurrentTab::Settings => CurrentTab::Dashboard,
            }),
    {
        match self {
            CurrentTab::Dashboard => CurrentTab::Adapter,
            CurrentTab::Adapter => CurrentTab::Scanner,
            CurrentTab::Scanner => CurrentTab::Traffic,
            CurrentTab::Traffic => CurrentTab::Diagnostics,
            CurrentTab::Diagnostics => CurrentTab::Settings,
            CurrentTab::Settings => CurrentTab::Dashboard,
        }
    }

    /// The tab to the left, wrapping from the first back to the last.
    pub fn previous(&self) -> (r: CurrentTab)
        ensures
            r == (match *self {
                CurrentTab::Dashboard => CurrentTab::Settings,
                CurrentTab::Adapter => CurrentTab::Dashboard,
                CurrentTab::Scanner => CurrentTab::Adapter,
                CurrentTab::Traffic => CurrentTab::Scanner,
                CurrentTab::Diagnostics => CurrentTab::Traffic,
                CurrentTab::Settings => CurrentTab::Diagnostics,
            }),
    {
        match self {
            CurrentTab::Dashboard => CurrentTab::Settings,
            CurrentTab::Adapter => CurrentTab::Dashboard,
            CurrentTab::Scanner => CurrentTab::Adapter,
            CurrentTab::Traffic => CurrentTab::Scanner,
            CurrentTab::Diagnostics => CurrentTab::Traffic,
            CurrentTab::Settings => CurrentTab::Diagnostics,
        }
    }
}

/// Focus areas of the diagnostics tab.
#[derive(Clone, Copy, PartialEq, Eq, Structural, Debug)]
pub enum FocusArea {
    /// The tool menu on the left.
    Menu,
    /// The tool's main panel.
    Main,
    /// The tool's configuration panel.
    Config,
}

impl FocusArea {
    /// The next focus area in the cycle menu -> main -> config -> menu.
    pub fn next(&self) -> (r: FocusArea)
        ensures
            r == (match *self {
                FocusArea::Menu => FocusArea::Main,
                FocusArea::Main => FocusArea::Config,
                FocusArea::Config => FocusArea::Menu,
            }),
    {
        match self {
            FocusArea::Menu => FocusArea::Main,
            FocusArea::Main => FocusArea::Config,
            FocusArea::Config => FocusArea::Menu,
        }
    }
}

/// The diagnostics tools offered in the menu.
#[derive(Clone, Copy, PartialEq, Eq, Structural, Debug)]
pub enum DiagnosticTool {
    /// Latency probing.
    Ping,
    /// Route tracing.
    Trace,
    /// Port scanning.
    PortScan,
    /// Link-quality measurement.
    LinkQuality,
    /// Internet speed measurement.
    NetSpeed,
    /// LAN speed measurement.
    LanSpeed,
}

/// Where a wrapping downward cursor move lands: unchanged over an empty
/// list, down one row, and from the last row back to the first.
pub open spec fn spec_next_index(selected: Option<usize>, len: nat) -> Option<usize> {
    if len == 0 {
        selected
    } else {
        match selected {
            Some(i) => if i as nat >= (len - 1) as nat {
                Some(0usize)
            } else {
                Some((i + 1) as usize)
            },
            None => Some(0usize),
        }
    }
}

/// Where a wrapping upward cursor move lands.
pub open spec fn spec_previous_index(selected: Option<usize>, len: nat) -> Option<usize> {
    if len == 0 {
        selected
    } else {
        match selected {
            Some(i) => if i == 0 {
                Some(((len - 1) as nat) as usize)
            } else {
                Some((i - 1) as usize)
            },
            None => Some(0usize),
        }
    }
}

/// Wrapping downward cursor move over a list of `len` rows.
pub fn next_index(selected: Option<usize>, len: usize) -> (r: Option<usize>)
    requires
        match selected {
            Some(i) => i < len || len == 0,
            None => true,
        },
    ensures
        r == spec_next_index(selected, len as nat),
        match r {
            Some(i) => len > 0 && i < len,
            None => len == 0,
        } || (len == 0 && r == selected),
{
    if len == 0 {
        return selected;
    }
    match selected {
        Some(i) => {
            if i >= len - 1 {
                Some(0)
            } else {
                Some(i + 1)
            }
        },
        None => Some(0),
    }
}

/// Wrapping upward cursor move over a list of `len` rows.
pub fn previous_index(selected: Option<usize>, len: usize) -> (r: Option<usize>)
    requires
        match selected {
            Some(i) => i < len || len == 0,
            None => true,
        },
    ensures
        r == spec_previous_index(selected, len as nat),
        match r {
            Some(i) => len > 0 && i < len,
            None => len == 0,
        } || (len == 0 && r == selected),
{
    if len == 0 {
        return selected;
    }
    match selected {
        Some(i) => {
            if i == 0 {
                Some(len - 1)
            } else {
                Some(i - 1)
            }
        },
        None => Some(0),
    }
}

/// The diagnostics tab: which tool is active, which panel has focus, and
/// the cursor over the tool menu.
pub struct DiagnosticsModule {
    /// The tool whose panels are shown.
    pub current_tool: DiagnosticTool,
    /// Which panel keyboard input goes to.
    pub active_focus: FocusArea,
    /// Cursor over the tool menu.
    pub menu_selected: Option<usize>,
    /// The tools offered, in menu order.
    pub tools: Vec<DiagnosticTool>,
}

impl DiagnosticsModule {
    /// The cursor stays inside the menu and points at the active tool.
    pub open spec fn wf(&self) -> bool {
        match self.menu_selected {
            Some(i) => i < self.tools@.len() && self.tools@[i as int] == self.current_tool,
            None => true,
        }
    }

    /// The full menu with the ping tool selected and the menu focused.
    pub fn new() -> (r: DiagnosticsModule)
        ensures
            r.wf(),
            r.current_tool == DiagnosticTool::Ping,
            r.active_focus == FocusArea::Menu,
            r.menu_selected == Some(0usize),
            r.tools@.len() == 6,
    {
        let mut tools: Vec<DiagnosticTool> = Vec::new();
        tools.push(DiagnosticTool::Ping);
        tools.push(DiagnosticTool::Trace);
        tools.push(DiagnosticTool::PortScan);
        tools.push(DiagnosticTool::LinkQuality);
        tools.push(DiagnosticTool::NetSpeed);
        tools.push(DiagnosticTool::LanSpeed);
        DiagnosticsModule {
            current_tool: DiagnosticTool::Ping,
            active_focus: FocusArea::Menu,
            menu_selected: Some(0),
            tools,
        }
    }

    /// Cycles the focused panel.
    pub fn cycle_focus(&mut self)
        requires
            old(self).wf(),
        ensures
            final(self).wf(),
            final(self).active_focus == (match old(self).active_focus {
                FocusArea::Menu => FocusArea::Main,
                FocusArea::Main => FocusArea::Config,
                FocusArea::Config => FocusArea::Menu,
            }),
            final(self).current_tool == old(self).current_tool,
            final(self).menu_selected == old(self).menu_selected,
            final(self).tools == old(self).tools,
    {
        self.active_focus = self.active_focus.next();
    }

    /// Moves the menu cursor down one tool, wrapping, and makes that tool
    /// active.
    pub fn next_tool(&mut self)
        requires
            old(self).wf(),
        ensures
            final(self).wf(),
            final(self).menu_selected == spec_next_index(
                old(self).menu_selected,
                old(self).tools@.len(),
            ),
            final(self).tools == old(self).tools,
            final(self).active_focus == old(self).active_focus,
            match final(self).menu_selected {
                Some(i) => final(self).current_tool == final(self).tools@[i as int],
                None => final(self).current_tool == old(self).current_tool,
            },
    {
        self.menu_selected = next_index(self.menu_selected, self.tools.len());
        match self.menu_selected {
            Some(i) => {
                self.current_tool = self.tools[i];
            },
            None => {},
        }
    }

    /// Moves the menu cursor up one tool, wrapping, and makes that tool
    /// active.
    pub fn prev_tool(&mut self)
        requires
            old(self).wf(),
        ensures
            final(self).wf(),
            final(self).menu_selected == spec_previous_index(
                old(self).menu_selected,
                old(self).tools@.len(),
            ),
            final(self).tools == old(self).tools,
            final(self).active_focus == old(self).active_focus,
            match final(self).menu_selected {
                Some(i) => final(self).current_tool == final(self).tools@[i as int],
                None => final(self).current_tool == old(self).current_tool,
            },
    {
        self.menu_selected = previous_index(self.menu_selected, self.tools.len());
        match self.menu_selected {
            Some(i) => {
                self.current_tool = self.tools[i];
            },
            None => {},
        }
    }
}

} // verus!

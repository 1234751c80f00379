//! Workspaces as the bar sees them, and how a raw Triad workspace maps onto one.

use vstd::prelude::*;
use vstd::pervasive::arbitrary;
use crate::decimal::{decimal, u32_to_decimal};

verus! {

/// Whether a workspace is shown on its output, and if so whether it has focus.
#[derive(Debug, Clone, Copy, PartialEq, Eq, Structural)]
pub enum Visibility {
    Visible { focused: bool },
    Hidden,
}

impl Visibility {
    /// A visible workspace without focus.
    pub fn visible() -> (v: Visibility)
        ensures
            v == (Visibility::Visible { focused: false }),
    {
        Visibility::Visible { focused: false }
    }

    /// A visible workspace that holds focus.
    pub fn focused() -> (v: Visibility)
        ensures
            v == (Visibility::Visible { focused: true }),
    {
        Visibility::Visible { focused: true }
    }

    pub open spec fn spec_is_visible(self) -> bool {
        self is Visible
    }

    pub open spec fn spec_is_focused(self) -> bool {
        match self {
            Visibility::Visible { focused } => focused,
            Visibility::Hidden => false,
        }
    }

    /// True when the workspace is shown on its output.
    #[verifier::when_used_as_spec(spec_is_visible)]
    pub fn is_visible(self) -> (b: bool)
        ensures
            b == self.spec_is_visible(),
    {
        match self {
            Visibility::Visible { .. } => true,
            Visibility::Hidden => false,
        }
    }

    /// True when the workspace is shown and holds focus.
    #[verifier::when_used_as_spec(spec_is_focused)]
    pub fn is_focused(self) -> (b: bool)
        ensures
            b == self.spec_is_focused(),
    {
        match self {
            Visibility::Visible { focused } => focused,
            Visibility::Hidden => false,
        }
    }
}

/// A workspace as the bar displays it.
#[derive(Debug, Clone)]
pub struct Workspace {
    pub id: i64,
    pub index: i64,
    pub name: String,
    pub monitor: String,
    pub visibility: Visibility,
}

impl Workspace {
    /// An exact copy: every field, strings included, is equal to this one's.
    pub fn duplicate(&self) -> (w: Workspace)
        ensures
            w == *self,
    {
        Workspace {
            id: self.id,
            index: self.index,
            name: self.name.clone(),
            monitor: self.monitor.clone(),
            visibility: self.visibility,
        }
    }
}

/// A workspace as Triad reports it; every field defaults when the compositor omits it.
#[derive(Debug, Clone)]
pub struct RawWorkspace {
    pub tag_id: u64,
    pub workspace_idx: u32,
    pub name: Option<String>,
    pub output: Option<String>,
    pub is_active: bool,
    pub is_output_visible: bool,
    pub is_urgent: bool,
}

impl Default for RawWorkspace {
    fn default() -> (r: RawWorkspace)
        ensures
            r.tag_id == 0,
            r.workspace_idx == 0,
            r.name is None,
            r.output is None,
            !r.is_active,
            !r.is_output_visible,
            !r.is_urgent,
    {
        RawWorkspace {
            tag_id: 0,
            workspace_idx: 0,
            name: None,
            output: None,
            is_active: false,
            is_output_visible: false,
            is_urgent: false,
        }
    }
}

/// The visibility Triad's flags denote: an active workspace is focused, one that is
/// only shown on its output is visible, any other is hidden.
pub open spec fn visibility_of(is_active: bool, is_output_visible: bool) -> Visibility {
    if is_active {
        Visibility::Visible { focused: true }
    } else if is_output_visible {
        Visibility::Visible { focused: false }
    } else {
        Visibility::Hidden
    }
}

/// The name a raw workspace is shown under: its own name, or else its index in base ten.
pub open spec fn display_name(raw: RawWorkspace) -> Seq<char> {
    match raw.name {
        Some(n) => n@,
        None => decimal(raw.workspace_idx as nat),
    }
}

/// The monitor a raw workspace is on: its output, or else the empty name.
pub open spec fn monitor_name(raw: RawWorkspace) -> Seq<char> {
    match raw.output {
        Some(o) => o@,
        None => Seq::empty(),
    }
}

impl Workspace {
    /// `self` is what the raw workspace `raw` converts to.
    pub open spec fn converted_from(self, raw: RawWorkspace) -> bool {
        &&& self.id == raw.tag_id as i64
        &&& self.index == raw.workspace_idx as i64
        &&& self.name@ == display_name(raw)
        &&& self.monitor@ == monitor_name(raw)
        &&& self.visibility == visibility_of(raw.is_active, raw.is_output_visible)
    }

    /// Converts a raw Triad workspace; the id is the tag id reinterpreted as signed.
    pub fn from_raw(raw: &RawWorkspace) -> (w: Workspace)
        ensures
            w.converted_from(*raw),
    {
        let name = match &raw.name {
            Some(n) => n.clone(),
            None => u32_to_decimal(raw.workspace_idx),
        };
        let monitor = match &raw.output {
            Some(o) => o.clone(),
            None => String::new(),
        };
        let visibility = if raw.is_active {
            Visibility::focused()
        } else if raw.is_output_visible {
            Visibility::visible()
        } else {
            Visibility::Hidden
        };
        Workspace {
            id: raw.tag_id as i64,
            index: raw.workspace_idx as i64,
            name,
            monitor,
            visibility,
        }
    }
}

impl From<RawWorkspace> for Workspace {
    fn from(raw: RawWorkspace) -> (w: Workspace)
        ensures
            w.converted_from(raw),
    {
        Workspace::from_raw(&raw)
    }
}

impl vstd::std_specs::convert::FromSpecImpl<RawWorkspace> for Workspace {
    /// The name a converted workspace gets is a fresh string, so no single value is
    /// promised here; `from` states the conversion in its own `ensures`.
    open spec fn obeys_from_spec() -> bool {
        false
    }

    open spec fn from_spec(raw: RawWorkspace) -> Workspace {
        arbitrary()
    }
}

/// A workspace together with the urgency flag that Triad reports beside it.
#[derive(Debug, Clone)]
pub struct TriadWorkspace {
    pub workspace: Workspace,
    pub urgent: bool,
}

impl TriadWorkspace {
    /// `self` is what the raw workspace `raw` converts to.
    pub open spec fn converted_from(self, raw: RawWorkspace) -> bool {
        &&& self.workspace.converted_from(raw)
        &&& self.urgent == raw.is_urgent
    }

    /// Converts a raw Triad workspace, keeping its urgency flag.
    pub fn from_raw(raw: &RawWorkspace) -> (t: TriadWorkspace)
        ensures
            t.converted_from(*raw),
    {
        TriadWorkspace { workspace: Workspace::from_raw(raw), urgent: raw.is_urgent }
    }

    /// An exact copy.
    pub fn duplicate(&self) -> (t: TriadWorkspace)
        ensures
            t == *self,
    {
        TriadWorkspace { workspace: self.workspace.duplicate(), urgent: self.urgent }
    }
}

impl From<RawWorkspace> for TriadWorkspace {
    fn from(raw: RawWorkspace) -> (t: TriadWorkspace)
        ensures
            t.converted_from(raw),
    {
        TriadWorkspace::from_raw(&raw)
    }
}

impl vstd::std_specs::convert::FromSpecImpl<RawWorkspace> for TriadWorkspace {
    /// As for `Workspace`, `from` states the conversion in its own `ensures`.
    open spec fn obeys_from_spec() -> bool {
        false
    }

    open spec fn from_spec(raw: RawWorkspace) -> TriadWorkspace {
        arbitrary()
    }
}

} // verus!

//! Keyboard layouts and the compositor state that carries them.

use vstd::prelude::*;
use crate::workspace::RawWorkspace;

verus! {

/// The name of the keyboard layout in use.
#[derive(Debug, Clone)]
pub struct KeyboardLayoutUpdate(pub String);

impl KeyboardLayoutUpdate {
    /// An exact copy.
    pub fn duplicate(&self) -> (l: KeyboardLayoutUpdate)
        ensures
            l == *self,
    {
        KeyboardLayoutUpdate(self.0.clone())
    }
}

/// The layouts Triad knows of, and the position of the one in use.
#[derive(Debug, Clone)]
pub struct KeyboardLayouts {
    pub names: Vec<String>,
    pub current_idx: u32,
}

impl KeyboardLayouts {
    /// The layouts given as a bare list of names: the first one is in use.
    pub fn from_names(names: Vec<String>) -> (k: KeyboardLayouts)
        ensures
            k.names == names,
            k.current_idx == 0,
    {
        KeyboardLayouts { names, current_idx: 0 }
    }
}

impl Default for KeyboardLayouts {
    fn default() -> (k: KeyboardLayouts)
        ensures
            k.names@.len() == 0,
            k.current_idx == 0,
    {
        KeyboardLayouts { names: Vec::new(), current_idx: 0 }
    }
}

/// The workspaces of one layout report.
#[derive(Debug, Clone)]
pub struct RawLayout {
    pub workspaces: Vec<RawWorkspace>,
}

impl Default for RawLayout {
    fn default() -> (l: RawLayout)
        ensures
            l.workspaces@.len() == 0,
    {
        RawLayout { workspaces: Vec::new() }
    }
}

/// A full state report from Triad.
#[derive(Debug, Clone)]
pub struct RawState {
    pub layout: RawLayout,
    pub keyboard_layouts: KeyboardLayouts,
    pub current_keyboard_layout_idx: Option<u32>,
}

impl Default for RawState {
    fn default() -> (s: RawState)
        ensures
            s.layout.workspaces@.len() == 0,
            s.keyboard_layouts.names@.len() == 0,
            s.keyboard_layouts.current_idx == 0,
            s.current_keyboard_layout_idx is None,
    {
        RawState {
            layout: RawLayout::default(),
            keyboard_layouts: KeyboardLayouts::default(),
            current_keyboard_layout_idx: None,
        }
    }
}

impl RawState {
    /// The position of the layout in use: the explicit index when the report has one,
    /// else the index inside the layout list.
    pub open spec fn selected_index(self) -> nat {
        match self.current_keyboard_layout_idx {
            Some(i) => i as nat,
            None => self.keyboard_layouts.current_idx as nat,
        }
    }

    /// The layout in use, if the selected position names one.
    pub open spec fn spec_keyboard_layout(self) -> Option<KeyboardLayoutUpdate> {
        let i = self.selected_index();
        if i < self.keyboard_layouts.names@.len() {
            Some(KeyboardLayoutUpdate(self.keyboard_layouts.names@[i as int]))
        } else {
            None
        }
    }

    /// The keyboard layout in use according to this report.
    pub fn keyboard_layout(&self) -> (l: Option<KeyboardLayoutUpdate>)
        ensures
            l == self.spec_keyboard_layout(),
    {
        let index = match self.current_keyboard_layout_idx {
            Some(i) => i,
            None => self.keyboard_layouts.current_idx,
        } as usize;
        if index < self.keyboard_layouts.names.len() {
            Some(KeyboardLayoutUpdate(self.keyboard_layouts.names[index].clone()))
        } else {
            None
        }
    }
}

} // verus!

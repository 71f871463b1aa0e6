//! The input event translator: consumes one raw platform input event at a
//! time, keeps the hit-test state (hovered widget, pressed widget, active
//! panel) across calls, and emits one normalized event per raw event.
//!
//! The blocking wait for the next platform event lives outside this
//! library; the host hands each event in as a plain [`RawEvent`] value.

use vstd::prelude::*;

use crate::widgets::WidgetData;
use crate::widgets::WidgetType;
use crate::Direction;
use crate::Panel;

verus! {

/// A key of the keyboard table, decoded from the platform's keycode by the
/// host; keys outside the table arrive as `Other`.
#[derive(Debug, Clone, Copy, PartialEq, Eq, Structural)]
pub enum Key {
    Backspace,
    Return,
    Tab,
    Escape,
    F12,
    Up,
    Down,
    Left,
    Right,
    Other,
}

/// A mouse button; only the left one drives widget interaction.
#[derive(Debug, Clone, Copy, PartialEq, Eq, Structural)]
pub enum MouseButton {
    Left,
    Other,
}

/// One raw platform input event, reduced to plain values.
#[derive(Debug, Clone, PartialEq)]
pub enum RawEvent {
    Quit,
    TextInput(String),
    KeyDown(Key, bool),
    MouseMotion { x: i32, y: i32 },
    MouseButtonDown { button: MouseButton, x: i32, y: i32 },
    MouseButtonUp { button: MouseButton, x: i32, y: i32 },
    Other,
}

/// One normalized input event, addressed to a widget where applicable.
#[derive(Debug, Clone, PartialEq)]
pub enum HandlerEvent {
    Quit,
    Hover(WidgetData),
    HoverDropdown(WidgetData, i32, i32),
    UnHover(WidgetData),
    Click(WidgetData),
    Drag(WidgetData, i32, i32),
    ToggleDebug,
    Escape,
    Return,
    TextInput(String),
    ArrowKey(Direction),
    PopChar,
    ClickBackround,
    Tab,
    ShiftTab,
    Nothing,
}

/// The widget identity `w` points into an existing widget of `panels`.
pub open spec fn wd_valid<T: Copy>(panels: Seq<Panel<T>>, w: WidgetData) -> bool {
    &&& w.panel < panels.len()
    &&& panels[w.panel as int].valid_entry((w.kind, w.idx))
}

/// The normalized event a key press decodes to: backspace pops a character,
/// Tab cycles focus (backwards with shift held), Return commits, Escape
/// cancels (or quits, when so configured), arrows move, F12 toggles debug
/// state, and any other key is ignored.
pub open spec fn spec_parse_key(quit_on_escape: bool, key: Key, shift: bool) -> HandlerEvent {
    match key {
        Key::Backspace => HandlerEvent::PopChar,
        Key::Return => HandlerEvent::Return,
        Key::F12 => HandlerEvent::ToggleDebug,
        Key::Right => HandlerEvent::ArrowKey(Direction::Right),
        Key::Left => HandlerEvent::ArrowKey(Direction::Left),
        Key::Up => HandlerEvent::ArrowKey(Direction::Up),
        Key::Down => HandlerEvent::ArrowKey(Direction::Down),
        Key::Tab => if shift {
            HandlerEvent::ShiftTab
        } else {
            HandlerEvent::Tab
        },
        Key::Escape => if quit_on_escape {
            HandlerEvent::Quit
        } else {
            HandlerEvent::Escape
        },
        Key::Other => HandlerEvent::Nothing,
    }
}

/// The first panel, in registration order, that is visible and whose bounds
/// contain `(x, y)`, looking at indices `k` and up.
pub open spec fn first_visible_panel<T: Copy>(
    panels: Seq<Panel<T>>,
    visible: Seq<usize>,
    x: int,
    y: int,
    k: int,
) -> Option<usize>
    decreases panels.len() - k,
{
    if k < 0 || k >= panels.len() {
        None
    } else if panels[k].bounds.spec_contains(x, y) && visible.contains(k as usize) {
        Some(k as usize)
    } else {
        first_visible_panel(panels, visible, x, y, k + 1)
    }
}

/// A panel found by `first_visible_panel` is an index into the sequence.
proof fn lemma_first_visible_panel_in_range<T: Copy>(
    panels: Seq<Panel<T>>,
    visible: Seq<usize>,
    x: int,
    y: int,
    k: int,
)
    requires
        panels.len() <= usize::MAX,
    ensures
        first_visible_panel(panels, visible, x, y, k) matches Some(i) ==> k <= i < panels.len(),
    decreases panels.len() - k,
{
    if 0 <= k < panels.len() && !(panels[k].bounds.spec_contains(x, y) && visible.contains(
        k as usize,
    )) {
        lemma_first_visible_panel_in_range(panels, visible, x, y, k + 1);
    }
}

/// Whether `v` holds the index `x`.
pub(crate) fn contains_idx(v: &Vec<usize>, x: usize) -> (r: bool)
    ensures
        r == v@.contains(x),
{
    let mut i: usize = 0;
    while i < v.len()
        invariant
            i <= v@.len(),
            forall|j: int| 0 <= j < i ==> v@[j] != x,
        decreases v@.len() - i,
    {
        if v[i] == x {
            return true;
        }
        i = i + 1;
    }
    proof {
        assert(forall|j: int| 0 <= j < v@.len() ==> v@[j] != x);
    }
    false
}

/// The first visible panel under `(x, y)`, by a linear scan in registration
/// order.
fn find_visible_panel<T: Copy>(panels: &Vec<Panel<T>>, visible: &Vec<usize>, x: i32, y: i32) -> (r:
    Option<usize>)
    requires
        forall|i: int| 0 <= i < panels@.len() ==> (#[trigger] panels@[i]).wf(),
    ensures
        r == first_visible_panel(panels@, visible@, x as int, y as int, 0),
        r matches Some(i) ==> i < panels@.len(),
{
    let n: usize = panels.len();
    proof {
        assert(panels@.len() == n);
        lemma_first_visible_panel_in_range(panels@, visible@, x as int, y as int, 0);
    }
    let mut i: usize = 0;
    while i < panels.len()
        invariant
            i <= panels@.len(),
            forall|i0: int| 0 <= i0 < panels@.len() ==> (#[trigger] panels@[i0]).wf(),
            first_visible_panel(panels@, visible@, x as int, y as int, 0) == first_visible_panel(
                panels@,
                visible@,
                x as int,
                y as int,
                i as int,
            ),
        decreases panels@.len() - i,
    {
        if panels[i].bounds.contains(x, y) && contains_idx(visible, i) {
            return Some(i);
        }
        i = i + 1;
    }
    None
}

/// The translator's persistent hit-test state: which panel the pointer is
/// over, which widget the left button went down on, and which widget is
/// currently hovered.
#[derive(Debug, Clone, PartialEq)]
pub struct EventHandler {
    pub active_panel: Option<usize>,
    pub lmb_pressed_on: Option<WidgetData>,
    pub hovered: Option<WidgetData>,
    pub quit_on_escape: bool,
}

impl EventHandler {
    /// The translator's state is consistent with the panels it hit-tests.
    pub open spec fn wf<T: Copy>(self, panels: Seq<Panel<T>>) -> bool {
        &&& (self.active_panel matches Some(a) ==> a < panels.len())
        &&& (self.lmb_pressed_on matches Some(w) ==> wd_valid(panels, w))
        &&& (self.hovered matches Some(w) ==> wd_valid(panels, w))
    }

    /// A fresh translator: nothing hovered, nothing pressed, no panel under
    /// the pointer. `quit_on_escape` makes the Escape key mean Quit instead
    /// of cancel.
    pub fn new(quit_on_escape: bool) -> (h: EventHandler)
        ensures
            h == (EventHandler {
                active_panel: None,
                lmb_pressed_on: None,
                hovered: None,
                quit_on_escape,
            }),
    {
        EventHandler { active_panel: None, lmb_pressed_on: None, hovered: None, quit_on_escape }
    }

    /// Decodes a key press; see [`spec_parse_key`].
    pub fn parse_keycode(&self, key: Key, shift: bool) -> (e: HandlerEvent)
        ensures
            e == spec_parse_key(self.quit_on_escape, key, shift),
    {
        match key {
            Key::Backspace => HandlerEvent::PopChar,
            Key::Return => HandlerEvent::Return,
            Key::F12 => HandlerEvent::ToggleDebug,
            Key::Right => HandlerEvent::ArrowKey(Direction::Right),
            Key::Left => HandlerEvent::ArrowKey(Direction::Left),
            Key::Up => HandlerEvent::ArrowKey(Direction::Up),
            Key::Down => HandlerEvent::ArrowKey(Direction::Down),
            Key::Tab => {
                if shift {
                    HandlerEvent::ShiftTab
                } else {
                    HandlerEvent::Tab
                }
            },
            Key::Escape => {
                if self.quit_on_escape {
                    HandlerEvent::Quit
                } else {
                    HandlerEvent::Escape
                }
            },
            Key::Other => HandlerEvent::Nothing,
        }
    }

    /// Translates one raw event into one normalized event, updating the
    /// hit-test state. Dragging takes precedence over hover changes; a move
    /// from one hovered widget straight to another emits only the `Hover` of
    /// the new widget, never an `UnHover` first, so consumers must treat
    /// "currently hovered" as a replaced reference, not a stack.
    pub fn handle<T: Copy>(
        &mut self,
        event: RawEvent,
        panels: &Vec<Panel<T>>,
        visible_panels: &Vec<usize>,
    ) -> (r: HandlerEvent)
        requires
            forall|i: int| 0 <= i < panels@.len() ==> (#[trigger] panels@[i]).wf(),
            old(self).wf(panels@),
        ensures
            final(self).wf(panels@),
            final(self).quit_on_escape == old(self).quit_on_escape,
            match event {
                RawEvent::Quit => r == HandlerEvent::Quit && *final(self) == *old(self),
                RawEvent::TextInput(s) => r == HandlerEvent::TextInput(s) && *final(self) == *old(
                    self,
                ),
                RawEvent::KeyDown(key, shift) => r == spec_parse_key(
                    old(self).quit_on_escape,
                    key,
                    shift,
                ) && *final(self) == *old(self),
                RawEvent::MouseMotion { x, y } => match old(self).lmb_pressed_on {
                    Some(w) => r == HandlerEvent::Drag(w, x, y) && *final(self) == *old(self),
                    None => {
                        let ap = first_visible_panel(
                            panels@,
                            visible_panels@,
                            x as int,
                            y as int,
                            0,
                        );
                        &&& final(self).active_panel == ap
                        &&& final(self).lmb_pressed_on is None
                        &&& match ap {
                            None => final(self).hovered is None && r == (match old(self).hovered {
                                Some(h) => HandlerEvent::UnHover(h),
                                None => HandlerEvent::Nothing,
                            }),
                            Some(api) => match panels@[api as int].spec_hit(x as int, y as int) {
                                Some(e) => {
                                    let wd = WidgetData { panel: api, kind: e.0, idx: e.1 };
                                    if e.0 == WidgetType::DropdownButton {
                                        &&& final(self).hovered == Some(wd)
                                        &&& r == HandlerEvent::HoverDropdown(wd, x, y)
                                    } else if old(self).hovered != Some(wd) {
                                        &&& final(self).hovered == Some(wd)
                                        &&& r == HandlerEvent::Hover(wd)
                                    } else {
                                        &&& final(self).hovered == old(self).hovered
                                        &&& r == HandlerEvent::Nothing
                                    }
                                },
                                None => match old(self).hovered {
                                    Some(h) => final(self).hovered is None && r
                                        == HandlerEvent::UnHover(h),
                                    None => final(self).hovered is None && r
                                        == HandlerEvent::Nothing,
                                },
                            },
                        }
                    },
                },
                RawEvent::MouseButtonDown { button, x, y } => match button {
                    MouseButton::Other => r == HandlerEvent::Nothing && *final(self) == *old(self),
                    MouseButton::Left => match old(self).active_panel {
                        None => r == HandlerEvent::Nothing && *final(self) == *old(self),
                        Some(api) => {
                            &&& final(self).active_panel == old(self).active_panel
                            &&& final(self).hovered == old(self).hovered
                            &&& final(self).lmb_pressed_on == (match panels@[api as int].spec_hit(
                                x as int,
                                y as int,
                            ) {
                                Some(e) => Some(WidgetData { panel: api, kind: e.0, idx: e.1 }),
                                None => None::<WidgetData>,
                            })
                            &&& r == HandlerEvent::Nothing
                        },
                    },
                },
                RawEvent::MouseButtonUp { button, x, y } => match button {
                    MouseButton::Other => r == HandlerEvent::Nothing && *final(self) == *old(self),
                    MouseButton::Left => match (old(self).active_panel, old(self).lmb_pressed_on) {
                        (Some(api), Some(pressed)) => {
                            &&& final(self).active_panel == old(self).active_panel
                            &&& final(self).hovered == old(self).hovered
                            &&& final(self).lmb_pressed_on is None
                            &&& r == (match panels@[api as int].spec_hit(x as int, y as int) {
                                Some(e) => if (WidgetData { panel: api, kind: e.0, idx: e.1 })
                                    == pressed {
                                    HandlerEvent::Click(pressed)
                                } else {
                                    HandlerEvent::UnHover(pressed)
                                },
                                None => HandlerEvent::UnHover(pressed),
                            })
                        },
                        _ => r == HandlerEvent::ClickBackround && *final(self) == *old(self),
                    },
                },
                RawEvent::Other => r == HandlerEvent::Nothing && *final(self) == *old(self),
            },
            r matches HandlerEvent::Hover(w) ==> wd_valid(panels@, w),
            r matches HandlerEvent::HoverDropdown(w, hx, hy) ==> wd_valid(panels@, w) && w.kind
                == WidgetType::DropdownButton,
            r matches HandlerEvent::UnHover(w) ==> wd_valid(panels@, w),
            r matches HandlerEvent::Click(w) ==> wd_valid(panels@, w),
            r matches HandlerEvent::Drag(w, dx, dy) ==> wd_valid(panels@, w),
    {
        match event {
            RawEvent::Quit => HandlerEvent::Quit,
            RawEvent::TextInput(s) => HandlerEvent::TextInput(s),
            RawEvent::KeyDown(key, shift) => self.parse_keycode(key, shift),
            RawEvent::MouseMotion { x, y } => {
                if let Some(widget_data) = self.lmb_pressed_on {
                    return HandlerEvent::Drag(widget_data, x, y);
                }
                self.active_panel = find_visible_panel(panels, visible_panels, x, y);
                let api: usize = match self.active_panel {
                    None => {
                        if let Some(hovered) = self.hovered {
                            self.hovered = None;
                            return HandlerEvent::UnHover(hovered);
                        }
                        return HandlerEvent::Nothing;
                    },
                    Some(api) => api,
                };
                match panels[api].get_widget_data(x, y) {
                    Some(e) => {
                        let wd = WidgetData { panel: api, kind: e.0, idx: e.1 };
                        match e.0 {
                            WidgetType::DropdownButton => {
                                self.hovered = Some(wd);
                                HandlerEvent::HoverDropdown(wd, x, y)
                            },
                            _ => {
                                let same: bool = match self.hovered {
                                    Some(h) => h == wd,
                                    None => false,
                                };
                                if !same {
                                    self.hovered = Some(wd);
                                    HandlerEvent::Hover(wd)
                                } else {
                                    HandlerEvent::Nothing
                                }
                            },
                        }
                    },
                    None => {
                        if let Some(hovered) = self.hovered {
                            self.hovered = None;
                            return HandlerEvent::UnHover(hovered);
                        }
                        HandlerEvent::Nothing
                    },
                }
            },
            RawEvent::MouseButtonDown { button, x, y } => {
                match button {
                    MouseButton::Other => HandlerEvent::Nothing,
                    MouseButton::Left => {
                        let api: usize = match self.active_panel {
                            None => {
                                return HandlerEvent::Nothing;
                            },
                            Some(api) => api,
                        };
                        self.lmb_pressed_on = match panels[api].get_widget_data(x, y) {
                            Some(e) => Some(WidgetData { panel: api, kind: e.0, idx: e.1 }),
                            None => None,
                        };
                        HandlerEvent::Nothing
                    },
                }
            },
            RawEvent::MouseButtonUp { button, x, y } => {
                match button {
                    MouseButton::Other => HandlerEvent::Nothing,
                    MouseButton::Left => {
                        let api: usize = match self.active_panel {
                            None => {
                                return HandlerEvent::ClickBackround;
                            },
                            Some(api) => api,
                        };
                        let pressed: WidgetData = match self.lmb_pressed_on {
                            None => {
                                return HandlerEvent::ClickBackround;
                            },
                            Some(p) => p,
                        };
                        self.lmb_pressed_on = None;
                        match panels[api].get_widget_data(x, y) {
                            Some(e) => {
                                let wd = WidgetData { panel: api, kind: e.0, idx: e.1 };
                                if wd == pressed {
                                    HandlerEvent::Click(pressed)
                                } else {
                                    HandlerEvent::UnHover(pressed)
                                }
                            },
                            None => HandlerEvent::UnHover(pressed),
                        }
                    },
                }
            },
            RawEvent::Other => HandlerEvent::Nothing,
        }
    }
}

} // verus!

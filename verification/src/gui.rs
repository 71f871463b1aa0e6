//! The GUI controller: owns all panels, the input translator's state and
//! the global focus, maps normalized input events to widget mutations, and
//! returns the small set of typed events the host consumes.

use vstd::prelude::*;

use crate::handler::contains_idx;
use crate::handler::wd_valid;
use crate::handler::EventHandler;
use crate::handler::HandlerEvent;
use crate::panel::dds_deselect;
use crate::panel::dds_select;
use crate::panel::tfs_deselect;
use crate::panel::tfs_select;
use crate::panel::OrderEntry;
use crate::widgets::Button;
use crate::widgets::Color;
use crate::widgets::DropdownButton;
use crate::widgets::Fader;
use crate::widgets::Rational;
use crate::widgets::TextField;
use crate::widgets::WidgetData;
use crate::widgets::WidgetType;
use crate::GuiEvent;
use crate::Panel;

verus! {

/// `q` is `p` after deactivating the widget `(kind, idx)` and clearing the
/// panel's active index.
pub open spec fn deselect_effect<T: Copy>(
    p: Panel<T>,
    q: Panel<T>,
    kind: WidgetType,
    idx: usize,
) -> bool {
    &&& p.same_shape(q)
    &&& q.active is None
    &&& q.buttons@ == p.buttons@
    &&& q.faders@ == p.faders@
    &&& q.textfields@ == tfs_deselect(p.textfields@, (kind, idx))
    &&& q.dropdownbuttons@ == dds_deselect(p.dropdownbuttons@, (kind, idx))
}

/// `q` is `p` after setting the hovered flag of widget `(kind, idx)` to
/// `b`; only buttons and faders have one.
pub open spec fn hover_effect<T: Copy>(
    p: Panel<T>,
    q: Panel<T>,
    kind: WidgetType,
    idx: usize,
    b: bool,
) -> bool {
    &&& p.same_shape(q)
    &&& q.active == p.active
    &&& q.textfields@ == p.textfields@
    &&& q.dropdownbuttons@ == p.dropdownbuttons@
    &&& q.buttons@ == if kind == WidgetType::Button {
        p.buttons@.update(idx as int, (Button { is_hovered: b, ..p.buttons@[idx as int] }))
    } else {
        p.buttons@
    }
    &&& q.faders@ == if kind == WidgetType::Fader {
        p.faders@.update(idx as int, (Fader { is_hovered: b, ..p.faders@[idx as int] }))
    } else {
        p.faders@
    }
}

/// `q` is `p` after clearing the hovered state of widget `(kind, idx)`.
pub open spec fn unhover_effect<T: Copy>(
    p: Panel<T>,
    q: Panel<T>,
    kind: WidgetType,
    idx: usize,
) -> bool {
    &&& p.same_shape(q)
    &&& q.active == p.active
    &&& q.textfields@ == p.textfields@
    &&& q.buttons@ == if kind == WidgetType::Button {
        p.buttons@.update(idx as int, (Button { is_hovered: false, ..p.buttons@[idx as int] }))
    } else {
        p.buttons@
    }
    &&& q.faders@ == if kind == WidgetType::Fader {
        p.faders@.update(idx as int, (Fader { is_hovered: false, ..p.faders@[idx as int] }))
    } else {
        p.faders@
    }
    &&& q.dropdownbuttons@ == if kind == WidgetType::DropdownButton {
        p.dropdownbuttons@.update(
            idx as int,
            (DropdownButton { hovered: None, ..p.dropdownbuttons@[idx as int] }),
        )
    } else {
        p.dropdownbuttons@
    }
}

/// `q` is `p` after the dropdown at `idx` recomputed its hovered row from
/// the pointer height `y`.
pub open spec fn dropdown_hover_effect<T: Copy>(p: Panel<T>, q: Panel<T>, idx: usize, y: int) -> bool {
    &&& p.same_shape(q)
    &&& q.active == p.active
    &&& q.buttons@ == p.buttons@
    &&& q.faders@ == p.faders@
    &&& q.textfields@ == p.textfields@
    &&& q.dropdownbuttons@ == p.dropdownbuttons@.update(
        idx as int,
        p.dropdownbuttons@[idx as int].spec_hover(y),
    )
}

/// `q` is `p` after a drag to `(x, y)` addressed to widget `(kind, idx)`;
/// only a fader reacts.
pub open spec fn drag_effect<T: Copy>(
    p: Panel<T>,
    q: Panel<T>,
    kind: WidgetType,
    idx: usize,
    x: int,
    y: int,
) -> bool {
    &&& p.same_shape(q)
    &&& q.active == p.active
    &&& q.buttons@ == p.buttons@
    &&& q.textfields@ == p.textfields@
    &&& q.dropdownbuttons@ == p.dropdownbuttons@
    &&& q.faders@ == if kind == WidgetType::Fader {
        p.faders@.update(idx as int, p.faders@[idx as int].spec_drag(x, y))
    } else {
        p.faders@
    }
}

/// The value a drag addressed to widget `(kind, idx)` reports: the dragged
/// fader's new value, or nothing for any other kind.
pub open spec fn spec_drag_result<T: Copy>(
    p: Panel<T>,
    kind: WidgetType,
    idx: usize,
    x: int,
    y: int,
) -> Option<Rational> {
    if kind == WidgetType::Fader {
        let f2 = p.faders@[idx as int].spec_drag(x, y);
        Some(Rational { num: f2.value_numerator() as i64, den: f2.denom() as i64 })
    } else {
        None
    }
}

/// `q` is `p` after an arrow key addressed to widget `(kind, idx)`: only a
/// fader reacts, stepping up for Up and Right, down for Down and Left.
pub open spec fn arrow_effect<T: Copy>(
    p: Panel<T>,
    q: Panel<T>,
    kind: WidgetType,
    idx: usize,
    dir: crate::Direction,
) -> bool {
    &&& p.same_shape(q)
    &&& q.active == p.active
    &&& q.buttons@ == p.buttons@
    &&& q.textfields@ == p.textfields@
    &&& q.dropdownbuttons@ == p.dropdownbuttons@
    &&& q.faders@ == if kind == WidgetType::Fader {
        p.faders@.update(
            idx as int,
            match dir {
                crate::Direction::Up | crate::Direction::Right => p.faders@[idx as int].spec_increment(),
                crate::Direction::Down | crate::Direction::Left => p.faders@[idx as int].spec_decrement(),
            },
        )
    } else {
        p.faders@
    }
}

/// The event an arrow key addressed to widget `(kind, idx)` produces: the
/// stepped fader's new value, or nothing for any other kind.
pub open spec fn spec_arrow_result<T: Copy>(
    p: Panel<T>,
    kind: WidgetType,
    idx: usize,
    dir: crate::Direction,
) -> Option<GuiEvent<T>> {
    if kind == WidgetType::Fader {
        let f2 = match dir {
            crate::Direction::Up | crate::Direction::Right => p.faders@[idx as int].spec_increment(),
            crate::Direction::Down | crate::Direction::Left => p.faders@[idx as int].spec_decrement(),
        };
        Some(
            GuiEvent::FaderUpdate(
                p.name,
                idx,
                Rational { num: f2.value_numerator() as i64, den: f2.denom() as i64 },
            ),
        )
    } else {
        None
    }
}

/// `q` is `p` with `s` appended to every focused text field.
pub open spec fn pushed_active_effect<T: Copy>(p: Panel<T>, q: Panel<T>, s: Seq<char>) -> bool {
    &&& p.same_shape(q)
    &&& q.active == p.active
    &&& q.buttons@ == p.buttons@
    &&& q.faders@ == p.faders@
    &&& q.dropdownbuttons@ == p.dropdownbuttons@
    &&& q.textfields@.len() == p.textfields@.len()
    &&& forall|j: int|
        0 <= j < p.textfields@.len() && p.textfields@[j].is_active ==> {
            &&& #[trigger] q.textfields@[j] == (TextField {
                content: q.textfields@[j].content,
                ..p.textfields@[j]
            })
            &&& q.textfields@[j].content@ == p.textfields@[j].content@ + s
        }
    &&& forall|j: int|
        0 <= j < p.textfields@.len() && !p.textfields@[j].is_active ==> #[trigger] q.textfields@[j]
            == p.textfields@[j]
}

/// `q` is `p` with the last character removed from every focused text
/// field; focused fields that were empty stay empty.
pub open spec fn popped_active_effect<T: Copy>(p: Panel<T>, q: Panel<T>) -> bool {
    &&& p.same_shape(q)
    &&& q.active == p.active
    &&& q.buttons@ == p.buttons@
    &&& q.faders@ == p.faders@
    &&& q.dropdownbuttons@ == p.dropdownbuttons@
    &&& q.textfields@.len() == p.textfields@.len()
    &&& forall|j: int|
        0 <= j < p.textfields@.len() && p.textfields@[j].is_active ==> {
            &&& #[trigger] q.textfields@[j] == (TextField {
                content: q.textfields@[j].content,
                ..p.textfields@[j]
            })
            &&& q.textfields@[j].content@ == if p.textfields@[j].content@.len() > 0 {
                p.textfields@[j].content@.drop_last()
            } else {
                p.textfields@[j].content@
            }
        }
    &&& forall|j: int|
        0 <= j < p.textfields@.len() && !p.textfields@[j].is_active ==> #[trigger] q.textfields@[j]
            == p.textfields@[j]
}

/// The tab-order entry that becomes active when focus advances in `p`: the
/// first entry when nothing was active, else the next one, wrapping.
pub open spec fn spec_next_entry<T: Copy>(p: Panel<T>) -> OrderEntry {
    match p.active {
        None => p.widget_order@[0],
        Some(a) => p.widget_order@[crate::panel::advance_focus(a as int, p.widget_order@.len() as int)],
    }
}

/// `q` is `p` after focus advanced to the next tab-order entry.
pub open spec fn next_effect<T: Copy>(p: Panel<T>, q: Panel<T>) -> bool {
    &&& p.same_shape(q)
    &&& q.buttons@ == p.buttons@
    &&& q.faders@ == p.faders@
    &&& match p.active {
        None => {
            &&& q.active == Some(0usize)
            &&& q.textfields@ == tfs_select(p.textfields@, spec_next_entry(p))
            &&& q.dropdownbuttons@ == dds_select(p.dropdownbuttons@, spec_next_entry(p))
        },
        Some(a) => {
            let n = crate::panel::advance_focus(a as int, p.widget_order@.len() as int);
            let olde = p.widget_order@[a as int];
            &&& (q.active matches Some(na) && na == n)
            &&& q.textfields@ == tfs_select(tfs_deselect(p.textfields@, olde), spec_next_entry(p))
            &&& q.dropdownbuttons@ == dds_select(
                dds_deselect(p.dropdownbuttons@, olde),
                spec_next_entry(p),
            )
        },
    }
}

/// The tab-order entry that becomes active when focus retreats in `p`:
/// nothing when nothing was active, else the previous entry, wrapping from
/// the first to the last.
pub open spec fn spec_prev_entry<T: Copy>(p: Panel<T>) -> Option<OrderEntry> {
    match p.active {
        None => None,
        Some(a) => {
            let n = if a == 0 {
                (p.widget_order@.len() - 1) as int
            } else {
                a - 1
            };
            Some(p.widget_order@[n])
        },
    }
}

/// `q` is `p` after focus retreated to the previous tab-order entry.
pub open spec fn prev_effect<T: Copy>(p: Panel<T>, q: Panel<T>) -> bool {
    &&& p.same_shape(q)
    &&& q.buttons@ == p.buttons@
    &&& q.faders@ == p.faders@
    &&& match p.active {
        None => q == p,
        Some(a) => {
            let n = if a == 0 {
                (p.widget_order@.len() - 1) as int
            } else {
                a - 1
            };
            let olde = p.widget_order@[a as int];
            let newe = p.widget_order@[n];
            &&& (q.active matches Some(na) && na == n)
            &&& q.textfields@ == tfs_select(tfs_deselect(p.textfields@, olde), newe)
            &&& q.dropdownbuttons@ == dds_select(dds_deselect(p.dropdownbuttons@, olde), newe)
        },
    }
}

/// `q` is `p` after a click on `widget`: the previously active widget is
/// deactivated (unless the target is that same dropdown), the target
/// becomes the active widget, and the target reacts by kind.
pub open spec fn click_effect<T: Copy>(p: Panel<T>, q: Panel<T>, widget: OrderEntry) -> bool {
    &&& p.same_shape(q)
    &&& q.buttons@ == p.buttons@
    &&& q.faders@ == p.faders@
    &&& q.active matches Some(m) && p.widget_order@[m as int] == widget
    &&& (widget.0 == WidgetType::Button || widget.0 == WidgetType::Fader) ==> {
        &&& q.textfields@ == p.mid_click_tfs(widget)
        &&& q.dropdownbuttons@ == p.mid_click_dds(widget)
    }
    &&& widget.0 == WidgetType::TextField ==> {
        &&& q.textfields@ == tfs_select(p.mid_click_tfs(widget), widget)
        &&& q.dropdownbuttons@ == p.mid_click_dds(widget)
    }
    &&& widget.0 == WidgetType::DropdownButton ==> {
        &&& q.textfields@ == p.mid_click_tfs(widget)
        &&& q.dropdownbuttons@ == p.mid_click_dds(widget).update(
            widget.1 as int,
            p.mid_click_dds(widget)[widget.1 as int].spec_click().0,
        )
    }
}

/// The host event a click on `widget` in `p` produces: a button's payload,
/// a dropdown's committed option, nothing otherwise.
pub open spec fn spec_click_result<T: Copy>(p: Panel<T>, widget: OrderEntry) -> Option<GuiEvent<T>> {
    match widget.0 {
        WidgetType::Button => Some(
            GuiEvent::Callback(p.name, p.buttons@[widget.1 as int].callback),
        ),
        WidgetType::TextField => None,
        WidgetType::Fader => None,
        WidgetType::DropdownButton => match p.mid_click_dds(widget)[widget.1 as int].spec_click().1 {
            Some(s) => Some(GuiEvent::DropdownUpdate(p.name, widget.1, s)),
            None => None,
        },
    }
}

/// The GUI controller: all panels in registration order, the indices of the
/// visible ones, the translator state, the single globally active widget,
/// and the window configuration a rendering host needs.
#[derive(Debug, PartialEq)]
pub struct GUI<T: Copy> {
    pub backround_color: Color,
    pub window_title: String,
    pub window_size: (u32, u32),
    pub handler: EventHandler,
    pub panels: Vec<Panel<T>>,
    pub active_panels: Vec<usize>,
    pub active_widget: Option<WidgetData>,
    pub debug: bool,
}

impl<T: Copy> GUI<T> {
    /// The controller invariant: every panel is well-formed, panel names are
    /// unique, the visible list and the translator state point into the
    /// panels, and so does the active widget.
    pub open spec fn wf(self) -> bool {
        &&& forall|i: int| 0 <= i < self.panels@.len() ==> (#[trigger] self.panels@[i]).wf()
        &&& forall|i: int, j: int|
            0 <= i < j < self.panels@.len() ==> self.panels@[i].name@ != self.panels@[j].name@
        &&& self.handler.wf(self.panels@)
        &&& (self.active_widget matches Some(w) ==> wd_valid(self.panels@, w))
        &&& forall|k: int|
            0 <= k < self.active_panels@.len() ==> (#[trigger] self.active_panels@[k])
                < self.panels@.len()
    }

    /// Maps one normalized input event to widget mutations and the typed
    /// event handed back to the host.
    #[verifier::rlimit(100)]
    #[verifier::spinoff_prover]
    pub fn dispatch(&mut self, event: HandlerEvent) -> (r: GuiEvent<T>)
        requires
            old(self).wf(),
            event matches HandlerEvent::Hover(w) ==> wd_valid(old(self).panels@, w),
            event matches HandlerEvent::UnHover(w) ==> wd_valid(old(self).panels@, w),
            event matches HandlerEvent::Click(w) ==> wd_valid(old(self).panels@, w),
            event matches HandlerEvent::Drag(w, x, y) ==> wd_valid(old(self).panels@, w),
            event matches HandlerEvent::HoverDropdown(w, x, y) ==> wd_valid(old(self).panels@, w)
                && w.kind == WidgetType::DropdownButton,
            event == HandlerEvent::Tab && old(self).active_widget is None ==> old(self).panels@.len() > 0 && old(self).panels@[0].widget_order@.len() > 0,
        ensures
            final(self).wf(),
            final(self).backround_color == old(self).backround_color,
            final(self).window_title == old(self).window_title,
            final(self).window_size == old(self).window_size,
            final(self).handler == old(self).handler,
            final(self).active_panels@ == old(self).active_panels@,
            final(self).panels@.len() == old(self).panels@.len(),
            event matches HandlerEvent::Nothing ==> (r == GuiEvent::<T>::Nothing && *final(self) == *old(self)),
            event matches HandlerEvent::Quit ==> (r == GuiEvent::<T>::Quit && *final(self) == *old(self)),
            event matches HandlerEvent::ToggleDebug ==> (r == GuiEvent::<T>::Nothing && *final(self) == (GUI {
                    debug: !old(self).debug,
                    ..*old(self)
                })),
            event matches HandlerEvent::Escape ==> {
                    &&& r == GuiEvent::<T>::Nothing
                    &&& final(self).debug == old(self).debug
                    &&& final(self).active_widget is None
                    &&& match old(self).active_widget {
                        None => final(self).panels@ == old(self).panels@,
                        Some(w) => {
                            &&& forall|j: int|
                                0 <= j < old(self).panels@.len() && j != w.panel
                                    ==> #[trigger] final(self).panels@[j] == old(self).panels@[j]
                            &&& deselect_effect(
                                old(self).panels@[w.panel as int],
                                final(self).panels@[w.panel as int],
                                w.kind,
                                w.idx,
                            )
                        },
                    }
                },
            event matches HandlerEvent::ClickBackround ==> {
                    &&& r == GuiEvent::<T>::Nothing
                    &&& final(self).debug == old(self).debug
                    &&& final(self).active_widget is None
                    &&& match old(self).active_widget {
                        None => final(self).panels@ == old(self).panels@,
                        Some(w) => {
                            &&& forall|j: int|
                                0 <= j < old(self).panels@.len() && j != w.panel
                                    ==> #[trigger] final(self).panels@[j] == old(self).panels@[j]
                            &&& deselect_effect(
                                old(self).panels@[w.panel as int],
                                final(self).panels@[w.panel as int],
                                w.kind,
                                w.idx,
                            )
                        },
                    }
                },
            event matches HandlerEvent::TextInput(s) ==> {
                    &&& r == GuiEvent::<T>::Nothing
                    &&& final(self).debug == old(self).debug
                    &&& final(self).active_widget == old(self).active_widget
                    &&& forall|k: int|
                        0 <= k < old(self).panels@.len() ==> pushed_active_effect(
                            #[trigger] old(self).panels@[k],
                            final(self).panels@[k],
                            s@,
                        )
                },
            event matches HandlerEvent::PopChar ==> {
                    &&& r == GuiEvent::<T>::Nothing
                    &&& final(self).debug == old(self).debug
                    &&& final(self).active_widget == old(self).active_widget
                    &&& forall|k: int|
                        0 <= k < old(self).panels@.len() ==> popped_active_effect(
                            #[trigger] old(self).panels@[k],
                            final(self).panels@[k],
                        )
                },
            event matches HandlerEvent::Hover(w) ==> {
                    &&& r == GuiEvent::<T>::Nothing
                    &&& final(self).debug == old(self).debug
                    &&& final(self).active_widget == old(self).active_widget
                    &&& forall|j: int|
                        0 <= j < old(self).panels@.len() && j != w.panel ==> #[trigger] final(self).panels@[j] == old(self).panels@[j]
                    &&& hover_effect(
                        old(self).panels@[w.panel as int],
                        final(self).panels@[w.panel as int],
                        w.kind,
                        w.idx,
                        true,
                    )
                },
            event matches HandlerEvent::HoverDropdown(w, x, y) ==> {
                    &&& r == GuiEvent::<T>::Nothing
                    &&& final(self).debug == old(self).debug
                    &&& final(self).active_widget == old(self).active_widget
                    &&& forall|j: int|
                        0 <= j < old(self).panels@.len() && j != w.panel ==> #[trigger] final(self).panels@[j] == old(self).panels@[j]
                    &&& dropdown_hover_effect(
                        old(self).panels@[w.panel as int],
                        final(self).panels@[w.panel as int],
                        w.idx,
                        y as int,
                    )
                },
            event matches HandlerEvent::UnHover(w) ==> {
                    &&& r == GuiEvent::<T>::Nothing
                    &&& final(self).debug == old(self).debug
                    &&& final(self).active_widget == old(self).active_widget
                    &&& forall|j: int|
                        0 <= j < old(self).panels@.len() && j != w.panel ==> #[trigger] final(self).panels@[j] == old(self).panels@[j]
                    &&& unhover_effect(
                        old(self).panels@[w.panel as int],
                        final(self).panels@[w.panel as int],
                        w.kind,
                        w.idx,
                    )
                },
            event matches HandlerEvent::Drag(w, x, y) ==> {
                    &&& final(self).debug == old(self).debug
                    &&& final(self).active_widget == old(self).active_widget
                    &&& forall|j: int|
                        0 <= j < old(self).panels@.len() && j != w.panel ==> #[trigger] final(self).panels@[j] == old(self).panels@[j]
                    &&& drag_effect(
                        old(self).panels@[w.panel as int],
                        final(self).panels@[w.panel as int],
                        w.kind,
                        w.idx,
                        x as int,
                        y as int,
                    )
                    &&& r == (match spec_drag_result(
                        old(self).panels@[w.panel as int],
                        w.kind,
                        w.idx,
                        x as int,
                        y as int,
                    ) {
                        Some(val) => GuiEvent::<T>::FaderUpdate(
                            old(self).panels@[w.panel as int].name,
                            w.idx,
                            val,
                        ),
                        None => GuiEvent::<T>::Nothing,
                    })
                },
            event matches HandlerEvent::Click(w) ==> {
                    &&& final(self).debug == old(self).debug
                    &&& final(self).active_widget == Some(w)
                    &&& match old(self).active_widget {
                        Some(ow) => if ow.panel != w.panel {
                            &&& forall|j: int|
                                0 <= j < old(self).panels@.len() && j != w.panel && j != ow.panel
                                    ==> #[trigger] final(self).panels@[j] == old(self).panels@[j]
                            &&& deselect_effect(
                                old(self).panels@[ow.panel as int],
                                final(self).panels@[ow.panel as int],
                                ow.kind,
                                ow.idx,
                            )
                            &&& click_effect(
                                old(self).panels@[w.panel as int],
                                final(self).panels@[w.panel as int],
                                (w.kind, w.idx),
                            )
                        } else {
                            &&& forall|j: int|
                                0 <= j < old(self).panels@.len() && j != w.panel
                                    ==> #[trigger] final(self).panels@[j] == old(self).panels@[j]
                            &&& click_effect(
                                old(self).panels@[w.panel as int],
                                final(self).panels@[w.panel as int],
                                (w.kind, w.idx),
                            )
                        },
                        None => {
                            &&& forall|j: int|
                                0 <= j < old(self).panels@.len() && j != w.panel
                                    ==> #[trigger] final(self).panels@[j] == old(self).panels@[j]
                            &&& click_effect(
                                old(self).panels@[w.panel as int],
                                final(self).panels@[w.panel as int],
                                (w.kind, w.idx),
                            )
                        },
                    }
                    &&& r == (match spec_click_result(
                        old(self).panels@[w.panel as int],
                        (w.kind, w.idx),
                    ) {
                        Some(cb) => cb,
                        None => GuiEvent::<T>::Nothing,
                    })
                },
            event matches HandlerEvent::Return ==> (match old(self).active_widget {
                    None => r == GuiEvent::<T>::Nothing && *final(self) == *old(self),
                    Some(w) => {
                        &&& final(self).debug == old(self).debug
                        &&& final(self).active_widget == old(self).active_widget
                        &&& forall|j: int|
                            0 <= j < old(self).panels@.len() && j != w.panel ==> #[trigger] final(self).panels@[j] == old(self).panels@[j]
                        &&& click_effect(
                            old(self).panels@[w.panel as int],
                            final(self).panels@[w.panel as int],
                            (w.kind, w.idx),
                        )
                        &&& r == (match spec_click_result(
                            old(self).panels@[w.panel as int],
                            (w.kind, w.idx),
                        ) {
                            Some(cb) => cb,
                            None => GuiEvent::<T>::Nothing,
                        })
                    },
                }),
            event matches HandlerEvent::Tab ==> {
                    let pi = match old(self).active_widget {
                        Some(w) => w.panel as int,
                        None => 0,
                    };
                    let e = spec_next_entry(old(self).panels@[pi]);
                    &&& r == GuiEvent::<T>::Nothing
                    &&& final(self).debug == old(self).debug
                    &&& forall|j: int|
                        0 <= j < old(self).panels@.len() && j != pi ==> #[trigger] final(self).panels@[j] == old(self).panels@[j]
                    &&& next_effect(old(self).panels@[pi], final(self).panels@[pi])
                    &&& final(self).active_widget == Some(
                        WidgetData { panel: pi as usize, kind: e.0, idx: e.1 },
                    )
                },
            event matches HandlerEvent::ShiftTab ==> (match old(self).active_widget {
                    None => r == GuiEvent::<T>::Nothing && *final(self) == *old(self),
                    Some(w) => {
                        &&& r == GuiEvent::<T>::Nothing
                        &&& final(self).debug == old(self).debug
                        &&& forall|j: int|
                            0 <= j < old(self).panels@.len() && j != w.panel ==> #[trigger] final(self).panels@[j] == old(self).panels@[j]
                        &&& prev_effect(
                            old(self).panels@[w.panel as int],
                            final(self).panels@[w.panel as int],
                        )
                        &&& final(self).active_widget == (match spec_prev_entry(
                            old(self).panels@[w.panel as int],
                        ) {
                            Some(e) => Some(WidgetData { panel: w.panel, kind: e.0, idx: e.1 }),
                            None => None::<WidgetData>,
                        })
                    },
                }),
            event matches HandlerEvent::ArrowKey(dir) ==> (match old(self).active_widget {
                    None => r == GuiEvent::<T>::Nothing && *final(self) == *old(self),
                    Some(w) => {
                        &&& final(self).debug == old(self).debug
                        &&& final(self).active_widget == old(self).active_widget
                        &&& forall|j: int|
                            0 <= j < old(self).panels@.len() && j != w.panel ==> #[trigger] final(self).panels@[j] == old(self).panels@[j]
                        &&& arrow_effect(
                            old(self).panels@[w.panel as int],
                            final(self).panels@[w.panel as int],
                            w.kind,
                            w.idx,
                            dir,
                        )
                        &&& r == (match spec_arrow_result(
                            old(self).panels@[w.panel as int],
                            w.kind,
                            w.idx,
                            dir,
                        ) {
                            Some(ev) => ev,
                            None => GuiEvent::<T>::Nothing,
                        })
                    },
                }),
    {
        match event {
            HandlerEvent::Nothing => GuiEvent::Nothing,
            HandlerEvent::Quit => GuiEvent::Quit,
            HandlerEvent::ToggleDebug => {
                self.debug = !self.debug;
                GuiEvent::Nothing
            },
            HandlerEvent::Escape => {
                self.deselect_all();
                GuiEvent::Nothing
            },
            HandlerEvent::ClickBackround => {
                self.deselect_all();
                GuiEvent::Nothing
            },
            HandlerEvent::TextInput(text) => {
                let mut k: usize = 0;
                while k < self.panels.len()
                    invariant
                        old(self).wf(),
                        k <= self.panels@.len(),
                        *self == (GUI { panels: self.panels, ..*old(self) }),
                        self.panels@.len() == old(self).panels@.len(),
                        forall|j: int| 0 <= j < self.panels@.len() ==> (#[trigger] self.panels@[j]).wf(),
                        forall|j: int|
                            0 <= j < self.panels@.len() ==> (#[trigger] self.panels@[j]).name == old(self).panels@[j].name,
                        forall|j: int|
                            0 <= j < k ==> pushed_active_effect(
                                #[trigger] old(self).panels@[j],
                                self.panels@[j],
                                text@,
                            ),
                        forall|j: int|
                            k <= j < old(self).panels@.len() ==> #[trigger] self.panels@[j] == old(self).panels@[j],
                    decreases self.panels@.len() - k,
                {
                    self.panels[k].push_to_active_textfields(text.as_str());
                    k = k + 1;
                }
                GuiEvent::Nothing
            },
            HandlerEvent::PopChar => {
                let mut k: usize = 0;
                while k < self.panels.len()
                    invariant
                        old(self).wf(),
                        k <= self.panels@.len(),
                        *self == (GUI { panels: self.panels, ..*old(self) }),
                        self.panels@.len() == old(self).panels@.len(),
                        forall|j: int| 0 <= j < self.panels@.len() ==> (#[trigger] self.panels@[j]).wf(),
                        forall|j: int|
                            0 <= j < self.panels@.len() ==> (#[trigger] self.panels@[j]).name == old(self).panels@[j].name,
                        forall|j: int|
                            0 <= j < k ==> popped_active_effect(
                                #[trigger] old(self).panels@[j],
                                self.panels@[j],
                            ),
                        forall|j: int|
                            k <= j < old(self).panels@.len() ==> #[trigger] self.panels@[j] == old(self).panels@[j],
                    decreases self.panels@.len() - k,
                {
                    self.panels[k].pop_from_active_textfields();
                    k = k + 1;
                }
                GuiEvent::Nothing
            },
            HandlerEvent::Hover(w) => {
                self.panels[w.panel].hover(w.kind, w.idx);
                proof {
                    assert forall|i: int| 0 <= i < self.panels@.len() implies #[trigger] self.panels@[i].name == old(self).panels@[i].name by {
                        if i != w.panel as int {
                            assert(self.panels@[i] == old(self).panels@[i]);
                        }
                    }
                }

                GuiEvent::Nothing
            },
            HandlerEvent::HoverDropdown(w, x, y) => {
                self.panels[w.panel].hover_dropdown(w.idx, x, y);
                proof {
                    assert forall|i: int| 0 <= i < self.panels@.len() implies #[trigger] self.panels@[i].name == old(self).panels@[i].name by {
                        if i != w.panel as int {
                            assert(self.panels@[i] == old(self).panels@[i]);
                        }
                    }
                }

                GuiEvent::Nothing
            },
            HandlerEvent::UnHover(w) => {
                self.panels[w.panel].unhover(w.kind, w.idx);
                proof {
                    assert forall|i: int| 0 <= i < self.panels@.len() implies #[trigger] self.panels@[i].name == old(self).panels@[i].name by {
                        if i != w.panel as int {
                            assert(self.panels@[i] == old(self).panels@[i]);
                        }
                    }
                }

                GuiEvent::Nothing
            },
            HandlerEvent::Drag(w, x, y) => {
                let dragged = self.panels[w.panel].drag(w.kind, w.idx, x, y);
                proof {
                    assert forall|i: int| 0 <= i < self.panels@.len() implies #[trigger] self.panels@[i].name == old(self).panels@[i].name by {
                        if i != w.panel as int {
                            assert(self.panels@[i] == old(self).panels@[i]);
                        }
                    }
                }
                match dragged {
                    Some(val) => GuiEvent::FaderUpdate(
                        self.panels[w.panel].name.clone(),
                        w.idx,
                        val,
                    ),
                    None => GuiEvent::Nothing,
                }
            },
            HandlerEvent::Click(w) => {
                if let Some(old_active) = self.active_widget {
                    if old_active.panel != w.panel {
                        self.panels[old_active.panel].deselect(old_active.kind, old_active.idx);
                    }
                }
                self.active_widget = Some(w);
                let clicked = self.panels[w.panel].click((w.kind, w.idx));
                proof {
                    assert forall|i: int| 0 <= i < self.panels@.len() implies #[trigger] self.panels@[i].name == old(self).panels@[i].name by {
                        if i != w.panel as int && (match old(self).active_widget {
                            Some(ow) => i != ow.panel as int,
                            None => true,
                        }) {
                            assert(self.panels@[i] == old(self).panels@[i]);
                        }
                    }
                }
                match clicked {
                    Some(cb) => cb,
                    None => GuiEvent::Nothing,
                }
            },
            HandlerEvent::Return => {
                let w: WidgetData = match self.active_widget {
                    Some(w) => w,
                    None => {
                        return GuiEvent::Nothing;
                    },
                };
                let clicked = self.panels[w.panel].click((w.kind, w.idx));
                proof {
                    assert forall|i: int| 0 <= i < self.panels@.len() implies #[trigger] self.panels@[i].name == old(self).panels@[i].name by {
                        if i != w.panel as int {
                            assert(self.panels@[i] == old(self).panels@[i]);
                        }
                    }
                }
                match clicked {
                    Some(cb) => cb,
                    None => GuiEvent::Nothing,
                }
            },
            HandlerEvent::Tab => {
                let pi: usize = match self.active_widget {
                    Some(w) => w.panel,
                    None => 0,
                };
                proof {
                    match self.active_widget {
                        Some(w) => lemma_valid_entry_order_nonempty(
                            self.panels@[pi as int],
                            (w.kind, w.idx),
                        ),
                        None => (),
                    }
                }
                let e: OrderEntry = self.panels[pi].next_widget();
                proof {
                    assert forall|j: int| 0 <= j < self.panels@.len() implies #[trigger] self.panels@[j].name == old(self).panels@[j].name by {
                        if j != pi as int {
                            assert(self.panels@[j] == old(self).panels@[j]);
                        }
                    }
                }
                self.active_widget = Some(WidgetData { panel: pi, kind: e.0, idx: e.1 });
                GuiEvent::Nothing
            },
            HandlerEvent::ShiftTab => {
                let w: WidgetData = match self.active_widget {
                    Some(w) => w,
                    None => {
                        return GuiEvent::Nothing;
                    },
                };
                let prev = self.panels[w.panel].previous_widget();
                proof {
                    assert forall|j: int| 0 <= j < self.panels@.len() implies #[trigger] self.panels@[j].name == old(self).panels@[j].name by {
                        if j != w.panel as int {
                            assert(self.panels@[j] == old(self).panels@[j]);
                        }
                    }
                }
                self.active_widget = match prev {
                    Some(e) => Some(WidgetData { panel: w.panel, kind: e.0, idx: e.1 }),
                    None => None,
                };
                GuiEvent::Nothing
            },
            HandlerEvent::ArrowKey(dir) => {
                let w: WidgetData = match self.active_widget {
                    Some(w) => w,
                    None => {
                        return GuiEvent::Nothing;
                    },
                };
                let stepped = self.panels[w.panel].arrow_key(w.kind, w.idx, dir);
                proof {
                    assert forall|i: int| 0 <= i < self.panels@.len() implies #[trigger] self.panels@[i].name == old(self).panels@[i].name by {
                        if i != w.panel as int {
                            assert(self.panels@[i] == old(self).panels@[i]);
                        }
                    }
                }
                match stepped {
                    Some(ev) => ev,
                    None => GuiEvent::Nothing,
                }
            },
        }
    }

    /// Deactivates the currently focused widget, if any, and clears focus.
    fn deselect_all(&mut self)
        requires
            old(self).wf(),
        ensures
            final(self).wf(),
            *final(self) == (GUI {
                panels: final(self).panels,
                active_widget: None,
                ..*old(self)
            }),
            final(self).panels@.len() == old(self).panels@.len(),
            match old(self).active_widget {
                None => final(self).panels@ == old(self).panels@,
                Some(w) => {
                    &&& forall|j: int|
                        0 <= j < old(self).panels@.len() && j != w.panel ==> #[trigger] final(self).panels@[j] == old(self).panels@[j]
                    &&& deselect_effect(
                        old(self).panels@[w.panel as int],
                        final(self).panels@[w.panel as int],
                        w.kind,
                        w.idx,
                    )
                },
            },
    {
        if let Some(w) = self.active_widget {
            self.panels[w.panel].deselect(w.kind, w.idx);
            self.active_widget = None;
        } else {
            self.active_widget = None;
        }
    }
}

/// A panel that owns the widget `e` has a non-empty tab order.
proof fn lemma_valid_entry_order_nonempty<T: Copy>(p: Panel<T>, e: OrderEntry)
    requires
        p.wf(),
        p.valid_entry(e),
    ensures
        p.widget_order@.len() > 0,
{
}

/// The index of the first panel at `k` or later whose name is `name`.
pub open spec fn first_named<T: Copy>(panels: Seq<Panel<T>>, name: Seq<char>, k: int) -> Option<
    usize,
>
    decreases panels.len() - k,
{
    if k < 0 || k >= panels.len() {
        None
    } else if panels[k].name@ == name {
        Some(k as usize)
    } else {
        first_named(panels, name, k + 1)
    }
}

/// When no panel from `k` on is named `name`, `first_named` finds nothing,
/// and a found index is in range and correctly named.
proof fn lemma_first_named<T: Copy>(panels: Seq<Panel<T>>, name: Seq<char>, k: int)
    requires
        0 <= k,
        panels.len() <= usize::MAX,
    ensures
        first_named(panels, name, k) is None ==> forall|j: int|
            0 <= j < panels.len() && k <= j ==> panels[j].name@ != name,
        first_named(panels, name, k) matches Some(i) ==> k <= i < panels.len()
            && panels[i as int].name@ == name,
    decreases panels.len() - k,
{
    if 0 <= k < panels.len() && panels[k].name@ != name {
        lemma_first_named(panels, name, k + 1);
    }
}

impl<T: Copy> GUI<T> {
    /// There is a panel named `name`.
    pub open spec fn has_panel(self, name: Seq<char>) -> bool {
        exists|i: int| 0 <= i < self.panels@.len() && self.panels@[i].name@ == name
    }

    /// Starts assembling a controller.
    pub fn new() -> (b: GuiBuilder<T>)
        ensures
            b.wf(),
            b.window_size == (800u32, 600u32),
            b.backround_color == (Color { r: 40, g: 40, b: 40 }),
            b.window_title@ == Seq::<char>::empty(),
            b.panels@.len() == 0,
            b.active_panels@.len() == 0,
            b.buttons@.len() == 0,
            b.textfields@.len() == 0,
            b.faders@.len() == 0,
    {
        GuiBuilder::new()
    }

    /// The index of the panel named `name`, scanning in registration order.
    fn panel_index(&self, name: &str) -> (r: Option<usize>)
        ensures
            r == first_named(self.panels@, name@, 0),
            r matches Some(i) ==> i < self.panels@.len() && self.panels@[i as int].name@ == name@,
            r is None ==> !self.has_panel(name@),
    {
        find_panel_index(&self.panels, name)
    }

    /// The text fields of the first panel.
    pub fn textfields(&self) -> (r: &Vec<TextField>)
        requires
            self.panels@.len() > 0,
        ensures
            r@ == self.panels@[0].textfields@,
    {
        &self.panels[0].textfields
    }

    /// The text fields of the panel named `panel`, which must exist.
    pub fn panel_textfields(&self, panel: &str) -> (r: &Vec<TextField>)
        requires
            self.has_panel(panel@),
        ensures
            first_named(self.panels@, panel@, 0) matches Some(pi) ==> r@
                == self.panels@[pi as int].textfields@,
    {
        let pi: usize = match self.panel_index(panel) {
            Some(pi) => pi,
            None => {
                proof {
                    assert(false);
                }
                0
            },
        };
        &self.panels[pi].textfields
    }

    pub fn set_backround_color(&mut self, rgb: (u8, u8, u8))
        ensures
            *final(self) == (GUI {
                backround_color: Color { r: rgb.0, g: rgb.1, b: rgb.2 },
                ..*old(self)
            }),
    {
        self.backround_color = Color { r: rgb.0, g: rgb.1, b: rgb.2 };
    }

    /// Replaces the content of text field `idx` in the panel named `panel`;
    /// the panel and the index must exist.
    pub fn panel_set_textfield_content(&mut self, panel: &str, idx: usize, content: String)
        requires
            old(self).wf(),
            old(self).has_panel(panel@),
            first_named(old(self).panels@, panel@, 0) matches Some(pi) ==> idx < old(self).panels@[pi as int].textfields@.len(),
        ensures
            final(self).wf(),
            *final(self) == (GUI { panels: final(self).panels, ..*old(self) }),
            final(self).panels@.len() == old(self).panels@.len(),
            first_named(old(self).panels@, panel@, 0) matches Some(pi) ==> {
                &&& forall|j: int|
                    0 <= j < old(self).panels@.len() && j != pi ==> #[trigger] final(self).panels@[j] == old(self).panels@[j]
                &&& set_content_effect(
                    old(self).panels@[pi as int],
                    final(self).panels@[pi as int],
                    idx,
                    content,
                )
            },
    {
        let pi: usize = match self.panel_index(panel) {
            Some(pi) => pi,
            None => {
                proof {
                    assert(false);
                }
                0
            },
        };
        self.panels[pi].set_textfield_content(idx, content);
    }

    /// Replaces the content of text field `idx` in the first panel; the
    /// index must exist.
    pub fn set_textfield_content(&mut self, idx: usize, content: String)
        requires
            old(self).wf(),
            old(self).panels@.len() > 0,
            idx < old(self).panels@[0].textfields@.len(),
        ensures
            final(self).wf(),
            *final(self) == (GUI { panels: final(self).panels, ..*old(self) }),
            final(self).panels@.len() == old(self).panels@.len(),
            forall|j: int|
                1 <= j < old(self).panels@.len() ==> #[trigger] final(self).panels@[j] == old(self).panels@[j],
            set_content_effect(old(self).panels@[0], final(self).panels@[0], idx, content),
    {
        self.panels[0].set_textfield_content(idx, content);
    }

    /// Sets fader `fader` in the panel named `panel` to exactly `value`
    /// range units; the panel and index must exist, the value must lie in
    /// the fader's range.
    pub fn panel_set_fader_value(&mut self, panel: &str, fader: usize, value: i64)
        requires
            old(self).wf(),
            old(self).has_panel(panel@),
            first_named(old(self).panels@, panel@, 0) matches Some(pi) ==> fader < old(self).panels@[pi as int].faders@.len() && old(self).panels@[pi as int].faders@[fader as int].min
                <= value <= old(self).panels@[pi as int].faders@[fader as int].max,
        ensures
            final(self).wf(),
            *final(self) == (GUI { panels: final(self).panels, ..*old(self) }),
            final(self).panels@.len() == old(self).panels@.len(),
            first_named(old(self).panels@, panel@, 0) matches Some(pi) ==> {
                &&& forall|j: int|
                    0 <= j < old(self).panels@.len() && j != pi ==> #[trigger] final(self).panels@[j] == old(self).panels@[j]
                &&& final(self).panels@[pi as int] == (Panel {
                    faders: final(self).panels@[pi as int].faders,
                    ..old(self).panels@[pi as int]
                })
                &&& final(self).panels@[pi as int].faders@ == old(self).panels@[pi as int].faders@.update(
                    fader as int,
                    old(self).panels@[pi as int].faders@[fader as int].spec_set_value(value as int),
                )
            },
    {
        let pi: usize = match self.panel_index(panel) {
            Some(pi) => pi,
            None => {
                proof {
                    assert(false);
                }
                0
            },
        };
        self.panels[pi].faders[fader].set_value(value);
    }

    /// Sets fader `fader` in the first panel to exactly `value` range units.
    pub fn set_fader_value(&mut self, fader: usize, value: i64)
        requires
            old(self).wf(),
            old(self).panels@.len() > 0,
            fader < old(self).panels@[0].faders@.len(),
            old(self).panels@[0].faders@[fader as int].min <= value <= old(self).panels@[0].faders@[fader as int].max,
        ensures
            final(self).wf(),
            *final(self) == (GUI { panels: final(self).panels, ..*old(self) }),
            final(self).panels@.len() == old(self).panels@.len(),
            forall|j: int|
                1 <= j < old(self).panels@.len() ==> #[trigger] final(self).panels@[j] == old(self).panels@[j],
            final(self).panels@[0] == (Panel {
                faders: final(self).panels@[0].faders,
                ..old(self).panels@[0]
            }),
            final(self).panels@[0].faders@ == old(self).panels@[0].faders@.update(
                fader as int,
                old(self).panels@[0].faders@[fader as int].spec_set_value(value as int),
            ),
    {
        self.panels[0].faders[fader].set_value(value);
    }

    /// Removes the last character of every focused text field, in every
    /// panel.
    pub fn pop_active_textfield(&mut self)
        requires
            old(self).wf(),
        ensures
            final(self).wf(),
            *final(self) == (GUI { panels: final(self).panels, ..*old(self) }),
            final(self).panels@.len() == old(self).panels@.len(),
            forall|k: int|
                0 <= k < old(self).panels@.len() ==> popped_active_effect(
                    #[trigger] old(self).panels@[k],
                    final(self).panels@[k],
                ),
    {
        let mut k: usize = 0;
        while k < self.panels.len()
            invariant
                old(self).wf(),
                k <= self.panels@.len(),
                *self == (GUI { panels: self.panels, ..*old(self) }),
                self.panels@.len() == old(self).panels@.len(),
                forall|j: int| 0 <= j < self.panels@.len() ==> (#[trigger] self.panels@[j]).wf(),
                forall|j: int|
                    0 <= j < self.panels@.len() ==> (#[trigger] self.panels@[j]).name == old(self).panels@[j].name,
                forall|j: int|
                    0 <= j < k ==> popped_active_effect(
                        #[trigger] old(self).panels@[j],
                        self.panels@[j],
                    ),
                forall|j: int|
                    k <= j < old(self).panels@.len() ==> #[trigger] self.panels@[j] == old(self).panels@[j],
            decreases self.panels@.len() - k,
        {
            self.panels[k].pop_from_active_textfields();
            k = k + 1;
        }
    }

    /// Appends one character to text field `idx` in the panel named
    /// `panel`; the panel and the index must exist.
    pub fn panel_push_to_textfield(&mut self, panel: &str, idx: usize, c: char)
        requires
            old(self).wf(),
            old(self).has_panel(panel@),
            first_named(old(self).panels@, panel@, 0) matches Some(pi) ==> idx < old(self).panels@[pi as int].textfields@.len(),
        ensures
            final(self).wf(),
            *final(self) == (GUI { panels: final(self).panels, ..*old(self) }),
            final(self).panels@.len() == old(self).panels@.len(),
            first_named(old(self).panels@, panel@, 0) matches Some(pi) ==> {
                &&& forall|j: int|
                    0 <= j < old(self).panels@.len() && j != pi ==> #[trigger] final(self).panels@[j] == old(self).panels@[j]
                &&& push_char_effect(
                    old(self).panels@[pi as int],
                    final(self).panels@[pi as int],
                    idx,
                    c,
                )
            },
    {
        let pi: usize = match self.panel_index(panel) {
            Some(pi) => pi,
            None => {
                proof {
                    assert(false);
                }
                0
            },
        };
        self.panels[pi].push_to_textfield(idx, c);
    }

    /// Appends one character to text field `idx` in the first panel.
    pub fn push_to_textfield(&mut self, idx: usize, c: char)
        requires
            old(self).wf(),
            old(self).panels@.len() > 0,
            idx < old(self).panels@[0].textfields@.len(),
        ensures
            final(self).wf(),
            *final(self) == (GUI { panels: final(self).panels, ..*old(self) }),
            final(self).panels@.len() == old(self).panels@.len(),
            forall|j: int|
                1 <= j < old(self).panels@.len() ==> #[trigger] final(self).panels@[j] == old(self).panels@[j],
            push_char_effect(old(self).panels@[0], final(self).panels@[0], idx, c),
    {
        self.panels[0].push_to_textfield(idx, c);
    }

    /// Makes the panel named `name` visible; showing a name that names no
    /// panel, or a panel already visible, does nothing.
    pub fn show_panel(&mut self, panel: &str)
        requires
            old(self).wf(),
        ensures
            final(self).wf(),
            *final(self) == (GUI { active_panels: final(self).active_panels, ..*old(self) }),
            match first_named(old(self).panels@, panel@, 0) {
                Some(pi) => final(self).active_panels@ == if old(self).active_panels@.contains(pi) {
                    old(self).active_panels@
                } else {
                    old(self).active_panels@.push(pi)
                },
                None => final(self).active_panels@ == old(self).active_panels@,
            },
    {
        let pi: usize = match self.panel_index(panel) {
            Some(pi) => pi,
            None => {
                return ;
            },
        };
        if !contains_idx(&self.active_panels, pi) {
            self.active_panels.push(pi);
        }
    }

    /// Hides the panel named `name`: removes its first occurrence from the
    /// visible list; unknown or hidden names do nothing.
    pub fn hide_panel(&mut self, panel: &str)
        requires
            old(self).wf(),
        ensures
            final(self).wf(),
            *final(self) == (GUI { active_panels: final(self).active_panels, ..*old(self) }),
            match first_named(old(self).panels@, panel@, 0) {
                Some(pi) => if old(self).active_panels@.contains(pi) {
                    exists|k: int|
                        {
                            &&& 0 <= k < old(self).active_panels@.len()
                            &&& old(self).active_panels@[k] == pi
                            &&& (forall|j: int|
                                0 <= j < k ==> old(self).active_panels@[j] != pi)
                            &&& final(self).active_panels@ == old(self).active_panels@.remove(k)
                        }
                } else {
                    final(self).active_panels@ == old(self).active_panels@
                },
                None => final(self).active_panels@ == old(self).active_panels@,
            },
    {
        let pi: usize = match self.panel_index(panel) {
            Some(pi) => pi,
            None => {
                return ;
            },
        };
        let mut k: usize = 0;
        while k < self.active_panels.len()
            invariant
                old(self).wf(),
                k <= self.active_panels@.len(),
                *self == *old(self),
                first_named(old(self).panels@, panel@, 0) == Some(pi),
                forall|j: int| 0 <= j < k ==> old(self).active_panels@[j] != pi,
            decreases self.active_panels@.len() - k,
        {
            if self.active_panels[k] == pi {
                proof {
                    assert(old(self).active_panels@[k as int] == pi);
                    assert(old(self).active_panels@.contains(pi));
                }
                self.active_panels.remove(k);
                proof {
                    assert(first_named(old(self).panels@, panel@, 0) == Some(pi));
                    let ghost kk = k as int;
                    assert({
                        &&& 0 <= kk < old(self).active_panels@.len()
                        &&& old(self).active_panels@[kk] == pi
                        &&& (forall|j: int| 0 <= j < kk ==> old(self).active_panels@[j] != pi)
                        &&& self.active_panels@ == old(self).active_panels@.remove(kk)
                    });
                    assert(exists|k2: int|
                        {
                            &&& 0 <= k2 < old(self).active_panels@.len()
                            &&& old(self).active_panels@[k2] == pi
                            &&& (forall|j: int|
                                0 <= j < k2 ==> old(self).active_panels@[j] != pi)
                            &&& self.active_panels@ == old(self).active_panels@.remove(k2)
                        });
                }
                return ;
            }
            k = k + 1;
        }
        proof {
            assert(forall|j: int|
                0 <= j < old(self).active_panels@.len() ==> old(self).active_panels@[j] != pi);
        }
    }

    /// Empties text field `idx` in the panel named `panel`; the panel and
    /// the index must exist.
    pub fn panel_clear_textfield(&mut self, panel: &str, idx: usize)
        requires
            old(self).wf(),
            old(self).has_panel(panel@),
            first_named(old(self).panels@, panel@, 0) matches Some(pi) ==> idx < old(self).panels@[pi as int].textfields@.len(),
        ensures
            final(self).wf(),
            *final(self) == (GUI { panels: final(self).panels, ..*old(self) }),
            final(self).panels@.len() == old(self).panels@.len(),
            first_named(old(self).panels@, panel@, 0) matches Some(pi) ==> {
                &&& forall|j: int|
                    0 <= j < old(self).panels@.len() && j != pi ==> #[trigger] final(self).panels@[j] == old(self).panels@[j]
                &&& clear_effect(old(self).panels@[pi as int], final(self).panels@[pi as int], idx)
            },
    {
        let pi: usize = match self.panel_index(panel) {
            Some(pi) => pi,
            None => {
                proof {
                    assert(false);
                }
                0
            },
        };
        self.panels[pi].clear_textfield(idx);
    }

    /// Empties text field `idx` in the first panel.
    pub fn clear_textfield(&mut self, idx: usize)
        requires
            old(self).wf(),
            old(self).panels@.len() > 0,
            idx < old(self).panels@[0].textfields@.len(),
        ensures
            final(self).wf(),
            *final(self) == (GUI { panels: final(self).panels, ..*old(self) }),
            final(self).panels@.len() == old(self).panels@.len(),
            forall|j: int|
                1 <= j < old(self).panels@.len() ==> #[trigger] final(self).panels@[j] == old(self).panels@[j],
            clear_effect(old(self).panels@[0], final(self).panels@[0], idx),
    {
        self.panels[0].clear_textfield(idx);
    }
}

/// `q` is `p` with the content of text field `idx` replaced by `content`.
pub open spec fn set_content_effect<T: Copy>(
    p: Panel<T>,
    q: Panel<T>,
    idx: usize,
    content: String,
) -> bool {
    &&& p.same_shape(q)
    &&& q.active == p.active
    &&& q.buttons@ == p.buttons@
    &&& q.faders@ == p.faders@
    &&& q.dropdownbuttons@ == p.dropdownbuttons@
    &&& q.textfields@ == p.textfields@.update(
        idx as int,
        (TextField { content, ..p.textfields@[idx as int] }),
    )
}

/// `q` is `p` with the character `c` appended to text field `idx`.
pub open spec fn push_char_effect<T: Copy>(p: Panel<T>, q: Panel<T>, idx: usize, c: char) -> bool {
    &&& p.same_shape(q)
    &&& q.active == p.active
    &&& q.buttons@ == p.buttons@
    &&& q.faders@ == p.faders@
    &&& q.dropdownbuttons@ == p.dropdownbuttons@
    &&& q.textfields@.len() == p.textfields@.len()
    &&& q.textfields@[idx as int] == (TextField {
        content: q.textfields@[idx as int].content,
        ..p.textfields@[idx as int]
    })
    &&& q.textfields@[idx as int].content@ == p.textfields@[idx as int].content@ + seq![c]
    &&& forall|j: int|
        0 <= j < p.textfields@.len() && j != idx ==> #[trigger] q.textfields@[j]
            == p.textfields@[j]
}

/// `q` is `p` with text field `idx` emptied.
pub open spec fn clear_effect<T: Copy>(p: Panel<T>, q: Panel<T>, idx: usize) -> bool {
    &&& p.same_shape(q)
    &&& q.active == p.active
    &&& q.buttons@ == p.buttons@
    &&& q.faders@ == p.faders@
    &&& q.dropdownbuttons@ == p.dropdownbuttons@
    &&& q.textfields@.len() == p.textfields@.len()
    &&& q.textfields@[idx as int] == (TextField {
        content: q.textfields@[idx as int].content,
        ..p.textfields@[idx as int]
    })
    &&& q.textfields@[idx as int].content@ == Seq::<char>::empty()
    &&& forall|j: int|
        0 <= j < p.textfields@.len() && j != idx ==> #[trigger] q.textfields@[j]
            == p.textfields@[j]
}

/// The index of the first panel in `panels` whose name is `name`.
fn find_panel_index<T: Copy>(panels: &Vec<Panel<T>>, name: &str) -> (r: Option<usize>)
    ensures
        r == first_named(panels@, name@, 0),
        r matches Some(i) ==> i < panels@.len() && panels@[i as int].name@ == name@,
        r is None ==> forall|j: int| 0 <= j < panels@.len() ==> panels@[j].name@ != name@,
{
    let n: usize = panels.len();
    proof {
        assert(panels@.len() == n);
        lemma_first_named(panels@, name@, 0);
    }
    let key: String = name.to_owned();
    let mut i: usize = 0;
    while i < n
        invariant
            i <= n,
            n == panels@.len(),
            key@ == name@,
            first_named(panels@, name@, 0) == first_named(panels@, name@, i as int),
        decreases n - i,
    {
        if panels[i].name == key {
            return Some(i);
        }
        i = i + 1;
    }
    None
}

/// The visible list an initial-panels name list denotes: for each name, in
/// the order given, the index of the panel so named; names that match no
/// panel are skipped.
pub open spec fn visible_of_names<T: Copy>(panels: Seq<Panel<T>>, names: Seq<String>) -> Seq<usize>
    decreases names.len(),
{
    if names.len() == 0 {
        Seq::empty()
    } else {
        visible_of_names(panels, names.drop_last()) + (match first_named(
            panels,
            names.last()@,
            0,
        ) {
            Some(i) => seq![i],
            None => Seq::<usize>::empty(),
        })
    }
}

/// Assembles a [`GUI`]: a window configuration, panels keyed by unique
/// names, the initially visible panels, and — when no panel is given —
/// loose widgets that become a single panel named `default`.
#[derive(Debug, PartialEq)]
pub struct GuiBuilder<T: Copy> {
    pub window_size: (u32, u32),
    pub backround_color: Color,
    pub window_title: String,
    pub panels: Vec<Panel<T>>,
    pub active_panels: Vec<String>,
    pub buttons: Vec<Button<T>>,
    pub textfields: Vec<TextField>,
    pub faders: Vec<Fader>,
}

impl<T: Copy> GuiBuilder<T> {
    /// The builder invariant: stored panels are well-formed with unique
    /// names; loose widgets are well-formed and near enough the origin to
    /// become a panel at the origin.
    pub open spec fn wf(self) -> bool {
        &&& forall|i: int| 0 <= i < self.panels@.len() ==> (#[trigger] self.panels@[i]).wf()
        &&& forall|i: int, j: int|
            0 <= i < j < self.panels@.len() ==> self.panels@[i].name@ != self.panels@[j].name@
        &&& forall|i: int|
            0 <= i < self.buttons@.len() ==> (#[trigger] self.buttons@[i]).wf()
                && -crate::COORD_INPUT_LIMIT <= self.buttons@[i].rect.x <= crate::COORD_INPUT_LIMIT
                && -crate::COORD_INPUT_LIMIT <= self.buttons@[i].rect.y <= crate::COORD_INPUT_LIMIT
        &&& forall|i: int|
            0 <= i < self.textfields@.len() ==> (#[trigger] self.textfields@[i]).wf()
                && -crate::COORD_INPUT_LIMIT <= self.textfields@[i].rect.x
                <= crate::COORD_INPUT_LIMIT && -crate::COORD_INPUT_LIMIT
                <= self.textfields@[i].rect.y <= crate::COORD_INPUT_LIMIT
        &&& forall|i: int|
            0 <= i < self.faders@.len() ==> (#[trigger] self.faders@[i]).wf()
                && -crate::COORD_INPUT_LIMIT <= self.faders@[i].x <= crate::COORD_INPUT_LIMIT
                && -crate::COORD_INPUT_LIMIT <= self.faders@[i].y <= crate::COORD_INPUT_LIMIT
    }

    /// A fresh builder: an 800 by 600 window, a dark grey background, an
    /// empty title, and nothing else.
    pub fn new() -> (b: GuiBuilder<T>)
        ensures
            b.wf(),
            b.window_size == (800u32, 600u32),
            b.backround_color == (Color { r: 40, g: 40, b: 40 }),
            b.window_title@ == Seq::<char>::empty(),
            b.panels@.len() == 0,
            b.active_panels@.len() == 0,
            b.buttons@.len() == 0,
            b.textfields@.len() == 0,
            b.faders@.len() == 0,
    {
        GuiBuilder {
            window_size: (800, 600),
            backround_color: Color { r: 40, g: 40, b: 40 },
            window_title: String::new(),
            panels: Vec::new(),
            active_panels: Vec::new(),
            buttons: Vec::new(),
            textfields: Vec::new(),
            faders: Vec::new(),
        }
    }

    pub fn color(self, rgb: (u8, u8, u8)) -> (b: GuiBuilder<T>)
        ensures
            b == (GuiBuilder { backround_color: Color { r: rgb.0, g: rgb.1, b: rgb.2 }, ..self }),
    {
        GuiBuilder { backround_color: Color { r: rgb.0, g: rgb.1, b: rgb.2 }, ..self }
    }

    pub fn title(self, s: String) -> (b: GuiBuilder<T>)
        ensures
            b == (GuiBuilder { window_title: s, ..self }),
    {
        GuiBuilder { window_title: s, ..self }
    }

    /// Loose buttons for the `default` panel; used only when no panel is
    /// registered.
    pub fn buttons(self, buttons: Vec<Button<T>>) -> (b: GuiBuilder<T>)
        requires
            forall|i: int|
                0 <= i < buttons@.len() ==> (#[trigger] buttons@[i]).wf()
                    && -crate::COORD_INPUT_LIMIT <= buttons@[i].rect.x <= crate::COORD_INPUT_LIMIT
                    && -crate::COORD_INPUT_LIMIT <= buttons@[i].rect.y <= crate::COORD_INPUT_LIMIT,
        ensures
            b == (GuiBuilder { buttons, ..self }),
    {
        GuiBuilder { buttons, ..self }
    }

    /// Loose text fields for the `default` panel.
    pub fn textfields(self, tb: Vec<TextField>) -> (b: GuiBuilder<T>)
        requires
            forall|i: int|
                0 <= i < tb@.len() ==> (#[trigger] tb@[i]).wf() && -crate::COORD_INPUT_LIMIT
                    <= tb@[i].rect.x <= crate::COORD_INPUT_LIMIT && -crate::COORD_INPUT_LIMIT
                    <= tb@[i].rect.y <= crate::COORD_INPUT_LIMIT,
        ensures
            b == (GuiBuilder { textfields: tb, ..self }),
    {
        GuiBuilder { textfields: tb, ..self }
    }

    /// Loose faders for the `default` panel.
    pub fn faders(self, faders: Vec<Fader>) -> (b: GuiBuilder<T>)
        requires
            forall|i: int|
                0 <= i < faders@.len() ==> (#[trigger] faders@[i]).wf()
                    && -crate::COORD_INPUT_LIMIT <= faders@[i].x <= crate::COORD_INPUT_LIMIT
                    && -crate::COORD_INPUT_LIMIT <= faders@[i].y <= crate::COORD_INPUT_LIMIT,
        ensures
            b == (GuiBuilder { faders, ..self }),
    {
        GuiBuilder { faders, ..self }
    }

    pub fn size(self, w: u32, h: u32) -> (b: GuiBuilder<T>)
        ensures
            b == (GuiBuilder { window_size: (w, h), ..self }),
    {
        GuiBuilder { window_size: (w, h), ..self }
    }

    /// Registers panels, keyed by name: a panel whose name is already
    /// registered replaces the old one, anything else is appended.
    pub fn panels(self, panels: Vec<Panel<T>>) -> (b: GuiBuilder<T>)
        requires
            self.wf(),
            forall|i: int| 0 <= i < panels@.len() ==> (#[trigger] panels@[i]).wf(),
        ensures
            b.wf(),
            b == (GuiBuilder { panels: b.panels, ..self }),
            forall|k: int|
                0 <= k < panels@.len() ==> exists|j: int|
                    0 <= j < b.panels@.len() && (#[trigger] panels@[k]).name@
                        == b.panels@[j].name@,
    {
        let mut stored = self.panels;
        let mut incoming = panels;
        let total: usize = incoming.len();
        let ghost given = incoming@;
        let mut done: usize = 0;
        while incoming.len() > 0
            invariant
                forall|i: int| 0 <= i < stored@.len() ==> (#[trigger] stored@[i]).wf(),
                forall|i: int, j: int|
                    0 <= i < j < stored@.len() ==> stored@[i].name@ != stored@[j].name@,
                forall|i: int| 0 <= i < incoming@.len() ==> (#[trigger] incoming@[i]).wf(),
                done + incoming@.len() == total,
                given.len() == total,
                incoming@ == given.skip(done as int),
                forall|k: int|
                    0 <= k < done ==> exists|j: int|
                        0 <= j < stored@.len() && (#[trigger] given[k]).name@
                            == stored@[j].name@,
            decreases incoming@.len(),
        {
            let p: Panel<T> = incoming.remove(0);
            proof {
                assert(p == given[done as int]);
                assert(incoming@ =~= given.skip(done as int + 1));
            }
            let ghost before = stored@;
            match find_panel_index(&stored, p.name.as_str()) {
                Some(i) => {
                    stored.set(i, p);
                    proof {
                        assert forall|k: int|
                            0 <= k < done + 1 implies exists|j: int|
                                0 <= j < stored@.len() && (#[trigger] given[k]).name@
                                    == stored@[j].name@ by {
                            if k < done {
                                let j0 = choose|j0: int|
                                    0 <= j0 < before.len() && given[k].name@ == before[j0].name@;
                                assert(stored@[j0].name@ == given[k].name@);
                            } else {
                                assert(stored@[i as int].name@ == given[k].name@);
                            }
                        }
                    }
                },
                None => {
                    stored.push(p);
                    proof {
                        assert forall|k: int|
                            0 <= k < done + 1 implies exists|j: int|
                                0 <= j < stored@.len() && (#[trigger] given[k]).name@
                                    == stored@[j].name@ by {
                            if k < done {
                                let j0 = choose|j0: int|
                                    0 <= j0 < before.len() && given[k].name@ == before[j0].name@;
                                assert(stored@[j0].name@ == given[k].name@);
                            } else {
                                assert(stored@[before.len() as int].name@ == given[k].name@);
                            }
                        }
                    }
                },
            }
            done = done + 1;
        }
        proof {
            assert(given.skip(given.len() as int) =~= Seq::<Panel<T>>::empty());
        }
        GuiBuilder { panels: stored, ..self }
    }

    /// Names of the panels that start out visible; all panels are visible
    /// when none is named.
    pub fn initial_panels(self, active: Vec<String>) -> (b: GuiBuilder<T>)
        ensures
            b == (GuiBuilder { active_panels: b.active_panels, ..self }),
            b.active_panels@ == self.active_panels@ + active@,
    {
        let mut b = self;
        let mut active = active;
        b.active_panels.append(&mut active);
        b
    }

    /// Assembles the controller. When no panel was registered, the loose
    /// widgets become a single panel named `default` at the origin; when no
    /// initial panel was named, every panel starts out visible. Names in
    /// the initial list that match no panel are ignored.
    pub fn build(self) -> (r: Result<GUI<T>, String>)
        requires
            self.wf(),
        ensures
            r is Ok,
            r matches Ok(g) ==> {
                &&& g.wf()
                &&& g.backround_color == self.backround_color
                &&& g.window_title == self.window_title
                &&& g.window_size == self.window_size
                &&& g.handler == (EventHandler {
                    active_panel: None,
                    lmb_pressed_on: None,
                    hovered: None,
                    quit_on_escape: false,
                })
                &&& g.active_widget is None
                &&& !g.debug
                &&& self.panels@.len() > 0 ==> g.panels@ == self.panels@
                &&& self.panels@.len() == 0 ==> {
                    &&& g.panels@.len() == 1
                    &&& g.panels@[0].name@ == "default"@
                    &&& g.panels@[0].active is None
                    &&& g.panels@[0].buttons@ == self.buttons@
                    &&& g.panels@[0].textfields@ == self.textfields@
                    &&& g.panels@[0].faders@ == self.faders@
                    &&& g.panels@[0].dropdownbuttons@.len() == 0
                }
                &&& self.active_panels@.len() == 0 ==> g.active_panels@.len() == g.panels@.len()
                    && (forall|k: int|
                    0 <= k < g.panels@.len() ==> #[trigger] g.active_panels@[k] == k)
                &&& self.active_panels@.len() > 0 ==> g.active_panels@ == visible_of_names(
                    g.panels@,
                    self.active_panels@,
                )
            },
    {
        let ghost gb = self.buttons@;
        let ghost gt = self.textfields@;
        let ghost gf = self.faders@;
        let mut panels = self.panels;
        if panels.len() == 0 {
            let p = Panel::new(
                String::from_str("default"),
                (0, 0),
                self.buttons,
                self.textfields,
                self.faders,
                Vec::new(),
            );
            proof {
                assert(p.buttons@ =~= gb);
                assert(p.textfields@ =~= gt);
                assert(p.faders@ =~= gf);
            }
            panels.push(p);
        }
        let mut visible: Vec<usize> = Vec::new();
        if self.active_panels.len() == 0 {
            let mut i: usize = 0;
            while i < panels.len()
                invariant
                    i <= panels@.len(),
                    visible@.len() == i,
                    forall|k: int| 0 <= k < i ==> #[trigger] visible@[k] == k,
                decreases panels@.len() - i,
            {
                visible.push(i);
                i = i + 1;
            }
        } else {
            let ghost names = self.active_panels@;
            let mut k: usize = 0;
            while k < self.active_panels.len()
                invariant
                    k <= self.active_panels@.len(),
                    names == self.active_panels@,
                    forall|m: int|
                        0 <= m < visible@.len() ==> (#[trigger] visible@[m]) < panels@.len(),
                    visible@ == visible_of_names(panels@, names.take(k as int)),
                decreases self.active_panels@.len() - k,
            {
                let ghost before = visible@;
                match find_panel_index(&panels, self.active_panels[k].as_str()) {
                    Some(i) => visible.push(i),
                    None => {},
                }
                proof {
                    assert(names.take(k as int + 1).drop_last() =~= names.take(k as int));
                    assert(names.take(k as int + 1).last() == names[k as int]);
                    match first_named(panels@, names[k as int]@, 0) {
                        Some(i) => assert(visible@ =~= before + seq![i]),
                        None => assert(visible@ =~= before + Seq::<usize>::empty()),
                    }
                }
                k = k + 1;
            }
            proof {
                assert(names.take(names.len() as int) =~= names);
            }
        }
        Ok(
            GUI {
                backround_color: self.backround_color,
                window_title: self.window_title,
                window_size: self.window_size,
                handler: EventHandler::new(false),
                panels,
                active_panels: visible,
                active_widget: None,
                debug: false,
            },
        )
    }
}

/// Repeated focus advancement: where the active tab-order index lands after
/// `k` steps of `advance_focus`.
pub open spec fn advance_focus_n(a: int, len: int, k: nat) -> int
    decreases k,
{
    if k == 0 {
        a
    } else {
        crate::panel::advance_focus(advance_focus_n(a, len, (k - 1) as nat), len)
    }
}

/// After `k` steps, focus sits `k` places further along, modulo the number
/// of widgets.
proof fn lemma_advance_focus_n_mod(a: int, len: int, k: nat)
    requires
        0 <= a < len,
    ensures
        advance_focus_n(a, len, k) == (a + k) % len,
    decreases k,
{
    if k == 0 {
        vstd::arithmetic::div_mod::lemma_small_mod(a as nat, len as nat);
    } else {
        lemma_advance_focus_n_mod(a, len, (k - 1) as nat);
        let x = a + k - 1;
        let prev = x % len;
        vstd::arithmetic::div_mod::lemma_add_mod_noop(x, 1, len);
        if len == 1 {
            vstd::arithmetic::div_mod::lemma_mod_multiples_basic(prev + 1, 1);
            vstd::arithmetic::div_mod::lemma_mod_multiples_basic(x + 1, 1);
        } else {
            vstd::arithmetic::div_mod::lemma_small_mod(1nat, len as nat);
        }
    }
}

/// Focus cycling wraps: a widget's panel advances its active tab-order
/// index by `advance_focus` on every `next_widget` (see its contract), and
/// advancing as many times as the tab order has entries returns to the
/// index it started from.
pub proof fn lemma_focus_cycle_wraps(a: int, len: int)
    requires
        0 <= a < len,
    ensures
        advance_focus_n(a, len, len as nat) == a,
{
    lemma_advance_focus_n_mod(a, len, len as nat);
    vstd::arithmetic::div_mod::lemma_mod_add_multiples_vanish(a, len);
    vstd::arithmetic::div_mod::lemma_small_mod(a as nat, len as nat);
}

/// Retreating once from the first tab-order entry wraps to the last: with
/// the first entry active, `previous_widget` (see `spec_prev_entry`) lands
/// on the last entry.
pub proof fn lemma_previous_from_first_wraps<T: Copy>(p: Panel<T>)
    requires
        p.wf(),
        p.active == Some(0usize),
        p.widget_order@.len() > 0,
    ensures
        spec_prev_entry(p) == Some(p.widget_order@[p.widget_order@.len() - 1]),
{
}

} // verus!

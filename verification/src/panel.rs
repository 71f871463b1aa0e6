//! A named, positioned group of widgets with a derived tab order and
//! routing of hover, click, drag and keyboard-focus events to the right
//! widget.

use vstd::prelude::*;
use vstd::seq_lib::group_seq_properties;

use crate::widgets::Button;
use crate::widgets::Color;
use crate::widgets::DropdownButton;
use crate::widgets::Fader;
use crate::widgets::Rational;
use crate::widgets::TextField;
use crate::widgets::WidgetType;
use crate::bounding_box;
use crate::Direction;
use crate::GuiEvent;
use crate::Rect;
use crate::COORD_INPUT_LIMIT;

verus! {

/// One entry of a panel's tab order: a widget kind and the widget's index
/// within that kind.
pub type OrderEntry = (WidgetType, usize);

/// Where the active tab-order index moves when focus advances: one step
/// forward, wrapping at the end.
pub open spec fn advance_focus(a: int, len: int) -> int {
    (a + 1) % len
}

/// One row of the scratch table the tab order is computed from: a widget's
/// kind, its index within its kind, and the x and y of its visual origin.
type OrderRow = (WidgetType, usize, i32, i32);

/// The scratch row for widget number `k` of the panel, counting buttons
/// first, then text fields, then faders, then dropdown buttons.
pub open spec fn order_row_of<T: Copy>(
    buttons: Seq<Button<T>>,
    textfields: Seq<TextField>,
    faders: Seq<Fader>,
    dropdownbuttons: Seq<DropdownButton>,
    k: int,
) -> OrderRow {
    let nb = buttons.len() as int;
    let nt = textfields.len() as int;
    let nf = faders.len() as int;
    if k < nb {
        let r = buttons[k].spec_visual_bounds();
        (WidgetType::Button, k as usize, r.x, r.y)
    } else if k < nb + nt {
        let r = textfields[k - nb].spec_visual_bounds();
        (WidgetType::TextField, (k - nb) as usize, r.x, r.y)
    } else if k < nb + nt + nf {
        let r = faders[k - nb - nt].spec_visual_bounds();
        (WidgetType::Fader, (k - nb - nt) as usize, r.x, r.y)
    } else {
        let r = dropdownbuttons[k - nb - nt - nf].spec_visual_bounds();
        (WidgetType::DropdownButton, (k - nb - nt - nf) as usize, r.x, r.y)
    }
}

/// Reading order on scratch rows: primarily by y, secondarily by x.
pub open spec fn row_le(a: OrderRow, b: OrderRow) -> bool {
    a.3 < b.3 || (a.3 == b.3 && a.2 <= b.2)
}

/// Whether `a` strictly precedes `b` in reading order.
fn row_lt(a: &OrderRow, b: &OrderRow) -> (r: bool)
    ensures
        r == !row_le(*b, *a),
{
    a.3 < b.3 || (a.3 == b.3 && a.2 < b.2)
}

/// Sorts the scratch table into reading order, keeping its contents.
fn sort_rows(rows: &mut Vec<OrderRow>)
    ensures
        final(rows)@.len() == old(rows)@.len(),
        final(rows)@.to_multiset() == old(rows)@.to_multiset(),
        forall|m1: int, m2: int|
            0 <= m1 < m2 < final(rows)@.len() ==> row_le(final(rows)@[m1], final(rows)@[m2]),
{
    broadcast use group_seq_properties;

    let n: usize = rows.len();
    let mut i: usize = 1;
    while i < n
        invariant
            n == rows@.len(),
            1 <= i,
            i <= n || n <= 1,
            rows@.to_multiset() == old(rows)@.to_multiset(),
            forall|m1: int, m2: int| 0 <= m1 < m2 < i ==> row_le(rows@[m1], rows@[m2]),
        decreases n - i,
    {
        let mut j: usize = i;
        while j > 0 && row_lt(&rows[j], &rows[j - 1])
            invariant
                n == rows@.len(),
                0 <= j <= i < n,
                rows@.to_multiset() == old(rows)@.to_multiset(),
                forall|m1: int, m2: int|
                    0 <= m1 < m2 <= i && m2 != j ==> row_le(rows@[m1], rows@[m2]),
            decreases j,
        {
            let a: OrderRow = rows[j];
            let b: OrderRow = rows[j - 1];
            let ghost before = rows@;
            rows.set(j, b);
            rows.set(j - 1, a);
            proof {
                assert(rows@ =~= before.update(j as int - 1, before[j as int]).update(
                    j as int,
                    before[j as int - 1],
                ));
                lemma_swap_multiset(before, rows@, j as int - 1, j as int);
            }
            j = j - 1;
        }
        proof {
            assert forall|m1: int, m2: int| 0 <= m1 < m2 <= i implies row_le(
                rows@[m1],
                rows@[m2],
            ) by {
                if m2 == j && j > 0 && m1 < j - 1 {
                    assert(row_le(rows@[m1], rows@[j - 1]));
                }
            }
        }
        i = i + 1;
    }
}

/// Whether `e` names an existing widget, given how many widgets of each
/// kind the panel owns.
pub open spec fn entry_valid(nb: int, nt: int, nf: int, nd: int, e: (WidgetType, usize)) -> bool {
    match e.0 {
        WidgetType::Button => e.1 < nb,
        WidgetType::TextField => e.1 < nt,
        WidgetType::Fader => e.1 < nf,
        WidgetType::DropdownButton => e.1 < nd,
    }
}

/// The scratch row that belongs to tab-order entry `e`: the entry plus the
/// x and y of the named widget's visual origin.
pub open spec fn entry_row<T: Copy>(
    buttons: Seq<Button<T>>,
    textfields: Seq<TextField>,
    faders: Seq<Fader>,
    dropdownbuttons: Seq<DropdownButton>,
    e: (WidgetType, usize),
) -> OrderRow {
    match e.0 {
        WidgetType::Button => {
            let r = buttons[e.1 as int].spec_visual_bounds();
            (e.0, e.1, r.x, r.y)
        },
        WidgetType::TextField => {
            let r = textfields[e.1 as int].spec_visual_bounds();
            (e.0, e.1, r.x, r.y)
        },
        WidgetType::Fader => {
            let r = faders[e.1 as int].spec_visual_bounds();
            (e.0, e.1, r.x, r.y)
        },
        WidgetType::DropdownButton => {
            let r = dropdownbuttons[e.1 as int].spec_visual_bounds();
            (e.0, e.1, r.x, r.y)
        },
    }
}

/// Where widget `e` sits in the unsorted scratch table.
pub open spec fn entry_index(nb: int, nt: int, nf: int, e: (WidgetType, usize)) -> int {
    match e.0 {
        WidgetType::Button => e.1 as int,
        WidgetType::TextField => nb + e.1,
        WidgetType::Fader => nb + nt + e.1,
        WidgetType::DropdownButton => nb + nt + nf + e.1,
    }
}

/// The derived tab order of a panel's widgets: every widget appears exactly
/// once, as a `(kind, index within kind)` pair, sorted by reading order
/// (primarily y, secondarily x, of each widget's visual origin).
pub fn widget_order<T: Copy>(
    buttons: &Vec<Button<T>>,
    textfields: &Vec<TextField>,
    faders: &Vec<Fader>,
    dropdownbuttons: &Vec<DropdownButton>,
) -> (r: Vec<(WidgetType, usize)>)
    requires
        forall|i: int| 0 <= i < buttons@.len() ==> #[trigger] buttons@[i].wf(),
        forall|i: int| 0 <= i < textfields@.len() ==> #[trigger] textfields@[i].wf(),
        forall|i: int| 0 <= i < faders@.len() ==> #[trigger] faders@[i].wf(),
        forall|i: int| 0 <= i < dropdownbuttons@.len() ==> #[trigger] dropdownbuttons@[i].wf(),
    ensures
        r@.len() == buttons@.len() + textfields@.len() + faders@.len() + dropdownbuttons@.len(),
        forall|m: int|
            0 <= m < r@.len() ==> entry_valid(
                buttons@.len() as int,
                textfields@.len() as int,
                faders@.len() as int,
                dropdownbuttons@.len() as int,
                #[trigger] r@[m],
            ),
        forall|m1: int, m2: int| 0 <= m1 < m2 < r@.len() ==> r@[m1] != r@[m2],
        forall|e: (WidgetType, usize)|
            entry_valid(
                buttons@.len() as int,
                textfields@.len() as int,
                faders@.len() as int,
                dropdownbuttons@.len() as int,
                e,
            ) ==> #[trigger] r@.contains(e),
        forall|m1: int, m2: int|
            0 <= m1 < m2 < r@.len() ==> row_le(
                entry_row(buttons@, textfields@, faders@, dropdownbuttons@, #[trigger] r@[m1]),
                entry_row(buttons@, textfields@, faders@, dropdownbuttons@, #[trigger] r@[m2]),
            ),
{
    broadcast use vstd::seq_lib::group_to_multiset_ensures;

    let nb: usize = buttons.len();
    let nt: usize = textfields.len();
    let nf: usize = faders.len();
    let nd: usize = dropdownbuttons.len();
    let mut rows: Vec<OrderRow> = Vec::new();
    let mut i: usize = 0;
    while i < nb
        invariant
            i <= nb,
            nb == buttons@.len(),
            rows@.len() == i,
            forall|i0: int| 0 <= i0 < buttons@.len() ==> #[trigger] buttons@[i0].wf(),
            forall|k: int|
                0 <= k < i ==> #[trigger] rows@[k] == order_row_of(
                    buttons@,
                    textfields@,
                    faders@,
                    dropdownbuttons@,
                    k,
                ),
        decreases nb - i,
    {
        let vb = buttons[i].visual_bounds();
        rows.push((WidgetType::Button, i, vb.x, vb.y));
        i = i + 1;
    }
    let mut i: usize = 0;
    while i < nt
        invariant
            i <= nt,
            nb == buttons@.len(),
            nt == textfields@.len(),
            rows@.len() == nb + i,
            forall|i0: int| 0 <= i0 < textfields@.len() ==> #[trigger] textfields@[i0].wf(),
            forall|k: int|
                0 <= k < nb + i ==> #[trigger] rows@[k] == order_row_of(
                    buttons@,
                    textfields@,
                    faders@,
                    dropdownbuttons@,
                    k,
                ),
        decreases nt - i,
    {
        let vb = textfields[i].visual_bounds();
        rows.push((WidgetType::TextField, i, vb.x, vb.y));
        i = i + 1;
    }
    let mut i: usize = 0;
    while i < nf
        invariant
            i <= nf,
            nb == buttons@.len(),
            nt == textfields@.len(),
            nf == faders@.len(),
            rows@.len() == nb + nt + i,
            forall|i0: int| 0 <= i0 < faders@.len() ==> #[trigger] faders@[i0].wf(),
            forall|k: int|
                0 <= k < nb + nt + i ==> #[trigger] rows@[k] == order_row_of(
                    buttons@,
                    textfields@,
                    faders@,
                    dropdownbuttons@,
                    k,
                ),
        decreases nf - i,
    {
        let vb = faders[i].visual_bounds();
        rows.push((WidgetType::Fader, i, vb.x, vb.y));
        i = i + 1;
    }
    let mut i: usize = 0;
    while i < nd
        invariant
            i <= nd,
            nb == buttons@.len(),
            nt == textfields@.len(),
            nf == faders@.len(),
            nd == dropdownbuttons@.len(),
            rows@.len() == nb + nt + nf + i,
            forall|i0: int| 0 <= i0 < dropdownbuttons@.len() ==> #[trigger] dropdownbuttons@[i0].wf(),
            forall|k: int|
                0 <= k < nb + nt + nf + i ==> #[trigger] rows@[k] == order_row_of(
                    buttons@,
                    textfields@,
                    faders@,
                    dropdownbuttons@,
                    k,
                ),
        decreases nd - i,
    {
        let vb = dropdownbuttons[i].visual_bounds();
        rows.push((WidgetType::DropdownButton, i, vb.x, vb.y));
        i = i + 1;
    }
    let total: usize = rows.len();
    let ghost unsorted = rows@;
    let ghost n = unsorted.len() as int;
    proof {
        assert(unsorted.len() == total);
        lemma_order_rows_distinct(buttons@, textfields@, faders@, dropdownbuttons@, unsorted);
        unsorted.lemma_multiset_has_no_duplicates();
    }
    sort_rows(&mut rows);
    proof {
        assert forall|x: OrderRow| rows@.to_multiset().contains(x) implies rows@.to_multiset()
            .count(x) == 1 by {
            assert(unsorted.to_multiset().contains(x));
        }
        rows@.lemma_multiset_has_no_duplicates_conv();
        assert forall|m: int| 0 <= m < n implies unsorted.contains(#[trigger] rows@[m]) by {
            assert(rows@.contains(rows@[m]));
            assert(rows@.to_multiset().contains(rows@[m]));
            assert(unsorted.to_multiset().contains(rows@[m]));
        }
    }
    let mut r: Vec<(WidgetType, usize)> = Vec::new();
    let mut m: usize = 0;
    while m < rows.len()
        invariant
            m <= rows@.len(),
            r@.len() == m,
            forall|k: int| 0 <= k < m ==> #[trigger] r@[k] == (rows@[k].0, rows@[k].1),
        decreases rows@.len() - m,
    {
        let e: OrderRow = rows[m];
        r.push((e.0, e.1));
        m = m + 1;
    }
    proof {
        let bs = buttons@;
        let ts = textfields@;
        let fs = faders@;
        let ds = dropdownbuttons@;
        assert forall|k: int| 0 <= k < n implies {
            &&& entry_valid(nb as int, nt as int, nf as int, nd as int, ((#[trigger] unsorted[k]).0, unsorted[k].1))
            &&& unsorted[k] == entry_row(bs, ts, fs, ds, (unsorted[k].0, unsorted[k].1))
            &&& entry_index(nb as int, nt as int, nf as int, (unsorted[k].0, unsorted[k].1)) == k
        } by {
            assert(unsorted[k] == order_row_of(bs, ts, fs, ds, k));
        }
        assert forall|m0: int| 0 <= m0 < n implies {
            &&& entry_valid(nb as int, nt as int, nf as int, nd as int, #[trigger] r@[m0])
            &&& rows@[m0] == entry_row(bs, ts, fs, ds, r@[m0])
        } by {
            let k = choose|k: int| 0 <= k < n && unsorted[k] == rows@[m0];
            assert(r@[m0] == (rows@[m0].0, rows@[m0].1));
        }
        assert forall|m1: int, m2: int| 0 <= m1 < m2 < n implies r@[m1] != r@[m2] by {
            if r@[m1] == r@[m2] {
                assert(rows@[m1] == entry_row(bs, ts, fs, ds, r@[m1]));
                assert(rows@[m2] == entry_row(bs, ts, fs, ds, r@[m2]));
                assert(rows@[m1] == rows@[m2]);
            }
        }
        assert forall|e: (WidgetType, usize)|
            entry_valid(nb as int, nt as int, nf as int, nd as int, e) implies #[trigger] r@.contains(e) by {
            let k = entry_index(nb as int, nt as int, nf as int, e);
            assert(unsorted[k] == order_row_of(bs, ts, fs, ds, k));
            assert((unsorted[k].0, unsorted[k].1) == e);
            assert(unsorted.contains(unsorted[k]));
            assert(unsorted.to_multiset().contains(unsorted[k]));
            assert(rows@.to_multiset().contains(unsorted[k]));
            assert(rows@.contains(unsorted[k]));
            let m0 = choose|m0: int| 0 <= m0 < rows@.len() && rows@[m0] == unsorted[k];
            assert(r@[m0] == e);
            assert(r@.contains(e));
        }
    }
    r
}

/// No two rows of the freshly built scratch table are equal: rows from the
/// same kind differ in index, rows from different kinds differ in kind.
proof fn lemma_order_rows_distinct<T: Copy>(
    buttons: Seq<Button<T>>,
    textfields: Seq<TextField>,
    faders: Seq<Fader>,
    dropdownbuttons: Seq<DropdownButton>,
    rows: Seq<OrderRow>,
)
    requires
        rows.len() == buttons.len() + textfields.len() + faders.len() + dropdownbuttons.len(),
        rows.len() <= usize::MAX,
        forall|k: int|
            0 <= k < rows.len() ==> #[trigger] rows[k] == order_row_of(
                buttons,
                textfields,
                faders,
                dropdownbuttons,
                k,
            ),
    ensures
        rows.no_duplicates(),
{
    assert forall|k1: int, k2: int|
        0 <= k1 < rows.len() && 0 <= k2 < rows.len() && k1 != k2 implies rows[k1] != rows[k2] by {
        assert(rows[k1] == order_row_of(buttons, textfields, faders, dropdownbuttons, k1));
        assert(rows[k2] == order_row_of(buttons, textfields, faders, dropdownbuttons, k2));
    }
}

/// Two sequences that differ only by swapping two positions hold the same
/// multiset of elements.
proof fn lemma_swap_multiset<A>(s1: Seq<A>, s2: Seq<A>, i: int, j: int)
    requires
        0 <= i < j < s1.len(),
        s2 == s1.update(i, s1[j]).update(j, s1[i]),
    ensures
        s2.to_multiset() == s1.to_multiset(),
{
    broadcast use vstd::seq_lib::group_to_multiset_ensures;
    broadcast use vstd::multiset::group_multiset_axioms;

    let t = s1.update(i, s1[j]);
    assert(t.to_multiset() == s1.to_multiset().insert(s1[j]).remove(s1[i]));
    assert(t[j] == s1[j]);
    assert(s2.to_multiset() == t.to_multiset().insert(s1[i]).remove(t[j]));
    assert(s2.to_multiset() =~= s1.to_multiset());
}

/// Relies on char::to_string: a one-character string holding exactly `c`.
#[verifier::external_body]
fn char_to_string(c: char) -> (s: String)
    ensures
        s@ == seq![c],
{
    c.to_string()
}

/// A button after a translation by `(dx, dy)`.
pub open spec fn shifted_button<T: Copy>(b: Button<T>, dx: int, dy: int) -> Button<T> {
    Button { rect: Rect { x: (b.rect.x + dx) as i32, y: (b.rect.y + dy) as i32, ..b.rect }, ..b }
}

/// A text field after a translation by `(dx, dy)`.
pub open spec fn shifted_textfield(t: TextField, dx: int, dy: int) -> TextField {
    TextField { rect: Rect { x: (t.rect.x + dx) as i32, y: (t.rect.y + dy) as i32, ..t.rect }, ..t }
}

/// A fader after a translation by `(dx, dy)`.
pub open spec fn shifted_fader(f: Fader, dx: int, dy: int) -> Fader {
    Fader { x: (f.x + dx) as i32, y: (f.y + dy) as i32, ..f }
}

/// A dropdown button after a translation by `(dx, dy)`.
pub open spec fn shifted_dropdown(d: DropdownButton, dx: int, dy: int) -> DropdownButton {
    DropdownButton {
        rect: Rect { x: (d.rect.x + dx) as i32, y: (d.rect.y + dy) as i32, ..d.rect },
        ..d
    }
}

/// A dropdown in its deactivated state: closed, with no hovered row.
pub open spec fn closed_dd(d: DropdownButton) -> DropdownButton {
    DropdownButton { is_open: false, hovered: None, ..d }
}

/// A dropdown in its activated state: open.
pub open spec fn opened_dd(d: DropdownButton) -> DropdownButton {
    DropdownButton { is_open: true, ..d }
}

/// The text fields after deactivating tab-order entry `e`: entries of other
/// kinds leave them alone.
pub open spec fn tfs_deselect(tfs: Seq<TextField>, e: OrderEntry) -> Seq<TextField> {
    if e.0 == WidgetType::TextField {
        tfs.update(e.1 as int, tfs[e.1 as int].spec_set_active(false))
    } else {
        tfs
    }
}

/// The text fields after activating tab-order entry `e`.
pub open spec fn tfs_select(tfs: Seq<TextField>, e: OrderEntry) -> Seq<TextField> {
    if e.0 == WidgetType::TextField {
        tfs.update(e.1 as int, tfs[e.1 as int].spec_set_active(true))
    } else {
        tfs
    }
}

/// The dropdowns after deactivating tab-order entry `e`.
pub open spec fn dds_deselect(dds: Seq<DropdownButton>, e: OrderEntry) -> Seq<DropdownButton> {
    if e.0 == WidgetType::DropdownButton {
        dds.update(e.1 as int, closed_dd(dds[e.1 as int]))
    } else {
        dds
    }
}

/// The dropdowns after activating tab-order entry `e`.
pub open spec fn dds_select(dds: Seq<DropdownButton>, e: OrderEntry) -> Seq<DropdownButton> {
    if e.0 == WidgetType::DropdownButton {
        dds.update(e.1 as int, opened_dd(dds[e.1 as int]))
    } else {
        dds
    }
}

/// The first index at or after `k` whose rectangle contains `(x, y)`.
pub open spec fn first_containing(rs: Seq<Rect>, x: int, y: int, k: int) -> Option<usize>
    decreases rs.len() - k,
{
    if k < 0 || k >= rs.len() {
        None
    } else if rs[k].spec_contains(x, y) {
        Some(k as usize)
    } else {
        first_containing(rs, x, y, k + 1)
    }
}

/// The visual rectangles of a button sequence, in order.
pub open spec fn button_rects<T: Copy>(bs: Seq<Button<T>>) -> Seq<Rect> {
    Seq::new(bs.len(), |i: int| bs[i].spec_visual_bounds())
}

/// The visual rectangles of a text field sequence, in order.
pub open spec fn textfield_rects(ts: Seq<TextField>) -> Seq<Rect> {
    Seq::new(ts.len(), |i: int| ts[i].spec_visual_bounds())
}

/// The visual rectangles of a fader sequence, in order.
pub open spec fn fader_rects(fs: Seq<Fader>) -> Seq<Rect> {
    Seq::new(fs.len(), |i: int| fs[i].spec_visual_bounds())
}

/// The visual rectangles of a dropdown sequence, in order.
pub open spec fn dropdown_rects(ds: Seq<DropdownButton>) -> Seq<Rect> {
    Seq::new(ds.len(), |i: int| ds[i].spec_visual_bounds())
}

/// The first button whose visual rectangle contains `(x, y)`.
fn hit_buttons<T: Copy>(buttons: &Vec<Button<T>>, x: i32, y: i32) -> (r: Option<usize>)
    requires
        forall|i: int| 0 <= i < buttons@.len() ==> #[trigger] buttons@[i].wf(),
    ensures
        r == first_containing(button_rects(buttons@), x as int, y as int, 0),
{
    let ghost rs = button_rects(buttons@);
    let mut i: usize = 0;
    while i < buttons.len()
        invariant
            i <= buttons@.len(),
            rs == button_rects(buttons@),
            forall|i0: int| 0 <= i0 < buttons@.len() ==> #[trigger] buttons@[i0].wf(),
            first_containing(rs, x as int, y as int, 0) == first_containing(
                rs,
                x as int,
                y as int,
                i as int,
            ),
        decreases buttons@.len() - i,
    {
        let vb = buttons[i].visual_bounds();
        if vb.contains(x, y) {
            return Some(i);
        }
        i = i + 1;
    }
    None
}

/// The first text field whose visual rectangle contains `(x, y)`.
fn hit_textfields(textfields: &Vec<TextField>, x: i32, y: i32) -> (r: Option<usize>)
    requires
        forall|i: int| 0 <= i < textfields@.len() ==> #[trigger] textfields@[i].wf(),
    ensures
        r == first_containing(textfield_rects(textfields@), x as int, y as int, 0),
{
    let ghost rs = textfield_rects(textfields@);
    let mut i: usize = 0;
    while i < textfields.len()
        invariant
            i <= textfields@.len(),
            rs == textfield_rects(textfields@),
            forall|i0: int| 0 <= i0 < textfields@.len() ==> #[trigger] textfields@[i0].wf(),
            first_containing(rs, x as int, y as int, 0) == first_containing(
                rs,
                x as int,
                y as int,
                i as int,
            ),
        decreases textfields@.len() - i,
    {
        let vb = textfields[i].visual_bounds();
        if vb.contains(x, y) {
            return Some(i);
        }
        i = i + 1;
    }
    None
}

/// The first fader whose visual rectangle contains `(x, y)`.
fn hit_faders(faders: &Vec<Fader>, x: i32, y: i32) -> (r: Option<usize>)
    requires
        forall|i: int| 0 <= i < faders@.len() ==> #[trigger] faders@[i].wf(),
    ensures
        r == first_containing(fader_rects(faders@), x as int, y as int, 0),
{
    let ghost rs = fader_rects(faders@);
    let mut i: usize = 0;
    while i < faders.len()
        invariant
            i <= faders@.len(),
            rs == fader_rects(faders@),
            forall|i0: int| 0 <= i0 < faders@.len() ==> #[trigger] faders@[i0].wf(),
            first_containing(rs, x as int, y as int, 0) == first_containing(
                rs,
                x as int,
                y as int,
                i as int,
            ),
        decreases faders@.len() - i,
    {
        let vb = faders[i].visual_bounds();
        if vb.contains(x, y) {
            return Some(i);
        }
        i = i + 1;
    }
    None
}

/// The first dropdown whose visual rectangle contains `(x, y)`.
fn hit_dropdowns(dropdownbuttons: &Vec<DropdownButton>, x: i32, y: i32) -> (r: Option<usize>)
    requires
        forall|i: int| 0 <= i < dropdownbuttons@.len() ==> #[trigger] dropdownbuttons@[i].wf(),
    ensures
        r == first_containing(dropdown_rects(dropdownbuttons@), x as int, y as int, 0),
{
    let ghost rs = dropdown_rects(dropdownbuttons@);
    let mut i: usize = 0;
    while i < dropdownbuttons.len()
        invariant
            i <= dropdownbuttons@.len(),
            rs == dropdown_rects(dropdownbuttons@),
            forall|i0: int| 0 <= i0 < dropdownbuttons@.len() ==> #[trigger] dropdownbuttons@[i0].wf(),
            first_containing(rs, x as int, y as int, 0) == first_containing(
                rs,
                x as int,
                y as int,
                i as int,
            ),
        decreases dropdownbuttons@.len() - i,
    {
        let vb = dropdownbuttons[i].visual_bounds();
        if vb.contains(x, y) {
            return Some(i);
        }
        i = i + 1;
    }
    None
}

/// The rectangles a panel's bounds are computed from: every child widget's
/// visual rectangle, buttons first, then text fields, faders and dropdown
/// buttons.
pub open spec fn panel_rects<T: Copy>(
    buttons: Seq<Button<T>>,
    textfields: Seq<TextField>,
    faders: Seq<Fader>,
    dropdownbuttons: Seq<DropdownButton>,
) -> Seq<Rect> {
    let nb = buttons.len() as int;
    let nt = textfields.len() as int;
    let nf = faders.len() as int;
    let nd = dropdownbuttons.len() as int;
    Seq::new(
        (nb + nt + nf + nd) as nat,
        |k: int|
            if k < nb {
                buttons[k].spec_visual_bounds()
            } else if k < nb + nt {
                textfields[k - nb].spec_visual_bounds()
            } else if k < nb + nt + nf {
                faders[k - nb - nt].spec_visual_bounds()
            } else {
                dropdownbuttons[k - nb - nt - nf].spec_visual_bounds()
            },
    )
}

/// A named, positioned group of widgets: parallel vectors per widget kind, a
/// tab order derived at construction, and the currently active tab-order
/// index, if any.
#[derive(Debug, Clone, PartialEq)]
pub struct Panel<T: Copy> {
    pub name: String,
    pub bounds: Rect,
    pub buttons: Vec<Button<T>>,
    pub textfields: Vec<TextField>,
    pub faders: Vec<Fader>,
    pub dropdownbuttons: Vec<DropdownButton>,
    pub widget_order: Vec<OrderEntry>,
    pub active: Option<usize>,
}

impl<T: Copy> Panel<T> {
    /// Whether `e` names a widget this panel owns.
    pub open spec fn valid_entry(self, e: OrderEntry) -> bool {
        entry_valid(
            self.buttons@.len() as int,
            self.textfields@.len() as int,
            self.faders@.len() as int,
            self.dropdownbuttons@.len() as int,
            e,
        )
    }

    /// The panel invariant: all widgets well-formed, and the tab order is a
    /// complete, duplicate-free enumeration of them; the active index, when
    /// set, points into the tab order.
    pub open spec fn wf(self) -> bool {
        &&& forall|i: int| 0 <= i < self.buttons@.len() ==> (#[trigger] self.buttons@[i]).wf()
        &&& forall|i: int|
            0 <= i < self.textfields@.len() ==> (#[trigger] self.textfields@[i]).wf()
        &&& forall|i: int| 0 <= i < self.faders@.len() ==> (#[trigger] self.faders@[i]).wf()
        &&& forall|i: int|
            0 <= i < self.dropdownbuttons@.len() ==> (#[trigger] self.dropdownbuttons@[i]).wf()
        &&& self.bounds.wf()
        &&& self.widget_order@.len() == self.buttons@.len() + self.textfields@.len()
            + self.faders@.len() + self.dropdownbuttons@.len()
        &&& forall|m: int|
            0 <= m < self.widget_order@.len() ==> self.valid_entry(#[trigger] self.widget_order@[m])
        &&& forall|m1: int, m2: int|
            0 <= m1 < m2 < self.widget_order@.len() ==> self.widget_order@[m1]
                != self.widget_order@[m2]
        &&& forall|e: OrderEntry| self.valid_entry(e) ==> #[trigger] self.widget_order@.contains(e)
        &&& (self.active matches Some(a) ==> a < self.widget_order@.len())
    }

    /// The name, bounds and tab order of `other` are this panel's.
    pub open spec fn same_shape(self, other: Panel<T>) -> bool {
        &&& other.name == self.name
        &&& other.bounds == self.bounds
        &&& other.widget_order@ == self.widget_order@
    }

    /// The tab-order entry of the currently active widget, if any.
    pub open spec fn spec_active_entry(self) -> Option<OrderEntry> {
        match self.active {
            None => None,
            Some(a) => Some(self.widget_order@[a as int]),
        }
    }

    /// The widget under `(x, y)`, by visual bounds, testing buttons first,
    /// then text fields, then faders, then dropdown buttons — a deliberate
    /// tie-break for overlapping widgets.
    pub open spec fn spec_hit(self, x: int, y: int) -> Option<OrderEntry> {
        match first_containing(button_rects(self.buttons@), x, y, 0) {
            Some(i) => Some((WidgetType::Button, i)),
            None => match first_containing(textfield_rects(self.textfields@), x, y, 0) {
                Some(i) => Some((WidgetType::TextField, i)),
                None => match first_containing(fader_rects(self.faders@), x, y, 0) {
                    Some(i) => Some((WidgetType::Fader, i)),
                    None => match first_containing(
                        dropdown_rects(self.dropdownbuttons@),
                        x,
                        y,
                        0,
                    ) {
                        Some(i) => Some((WidgetType::DropdownButton, i)),
                        None => None,
                    },
                },
            },
        }
    }

    /// Builds a panel: translates every widget by `position`, takes the
    /// bounding box of their visual rectangles as the panel's bounds, and derives
    /// the tab order from the widgets' visual positions, in reading order.
    pub fn new(
        name: String,
        position: (i32, i32),
        buttons: Vec<Button<T>>,
        textfields: Vec<TextField>,
        faders: Vec<Fader>,
        dropdownbuttons: Vec<DropdownButton>,
    ) -> (p: Panel<T>)
        requires
            -COORD_INPUT_LIMIT <= position.0 <= COORD_INPUT_LIMIT,
            -COORD_INPUT_LIMIT <= position.1 <= COORD_INPUT_LIMIT,
            forall|i: int|
                0 <= i < buttons@.len() ==> (#[trigger] buttons@[i]).wf() && -COORD_INPUT_LIMIT
                    <= buttons@[i].rect.x <= COORD_INPUT_LIMIT && -COORD_INPUT_LIMIT
                    <= buttons@[i].rect.y <= COORD_INPUT_LIMIT,
            forall|i: int|
                0 <= i < textfields@.len() ==> (#[trigger] textfields@[i]).wf()
                    && -COORD_INPUT_LIMIT <= textfields@[i].rect.x <= COORD_INPUT_LIMIT
                    && -COORD_INPUT_LIMIT <= textfields@[i].rect.y <= COORD_INPUT_LIMIT,
            forall|i: int|
                0 <= i < faders@.len() ==> (#[trigger] faders@[i]).wf() && -COORD_INPUT_LIMIT
                    <= faders@[i].x <= COORD_INPUT_LIMIT && -COORD_INPUT_LIMIT <= faders@[i].y
                    <= COORD_INPUT_LIMIT,
            forall|i: int|
                0 <= i < dropdownbuttons@.len() ==> (#[trigger] dropdownbuttons@[i]).wf()
                    && -COORD_INPUT_LIMIT <= dropdownbuttons@[i].rect.x <= COORD_INPUT_LIMIT
                    && -COORD_INPUT_LIMIT <= dropdownbuttons@[i].rect.y <= COORD_INPUT_LIMIT,
        ensures
            p.wf(),
            p.name == name,
            p.active is None,
            p.buttons@.len() == buttons@.len(),
            forall|i: int|
                0 <= i < buttons@.len() ==> #[trigger] p.buttons@[i] == shifted_button(
                    buttons@[i],
                    position.0 as int,
                    position.1 as int,
                ),
            p.textfields@.len() == textfields@.len(),
            forall|i: int|
                0 <= i < textfields@.len() ==> #[trigger] p.textfields@[i] == shifted_textfield(
                    textfields@[i],
                    position.0 as int,
                    position.1 as int,
                ),
            p.faders@.len() == faders@.len(),
            forall|i: int|
                0 <= i < faders@.len() ==> #[trigger] p.faders@[i] == shifted_fader(
                    faders@[i],
                    position.0 as int,
                    position.1 as int,
                ),
            p.dropdownbuttons@.len() == dropdownbuttons@.len(),
            forall|i: int|
                0 <= i < dropdownbuttons@.len() ==> #[trigger] p.dropdownbuttons@[i]
                    == shifted_dropdown(
                    dropdownbuttons@[i],
                    position.0 as int,
                    position.1 as int,
                ),
            forall|m1: int, m2: int|
                0 <= m1 < m2 < p.widget_order@.len() ==> row_le(
                    entry_row(
                        p.buttons@,
                        p.textfields@,
                        p.faders@,
                        p.dropdownbuttons@,
                        #[trigger] p.widget_order@[m1],
                    ),
                    entry_row(
                        p.buttons@,
                        p.textfields@,
                        p.faders@,
                        p.dropdownbuttons@,
                        #[trigger] p.widget_order@[m2],
                    ),
                ),
            ({
                let rs = panel_rects(p.buttons@, p.textfields@, p.faders@, p.dropdownbuttons@);
                &&& rs.len() == 0 ==> p.bounds == (Rect { x: 0, y: 0, w: 0, h: 0 })
                &&& rs.len() > 0 ==> {
                    &&& forall|i: int|
                        0 <= i < rs.len() ==> {
                            &&& p.bounds.x <= (#[trigger] rs[i]).x
                            &&& p.bounds.y <= rs[i].y
                            &&& rs[i].x + rs[i].w <= p.bounds.x + p.bounds.w
                            &&& rs[i].y + rs[i].h <= p.bounds.y + p.bounds.h
                        }
                    &&& exists|i: int| 0 <= i < rs.len() && p.bounds.x == (#[trigger] rs[i]).x
                    &&& exists|i: int| 0 <= i < rs.len() && p.bounds.y == (#[trigger] rs[i]).y
                    &&& exists|i: int|
                        0 <= i < rs.len() && p.bounds.x + p.bounds.w == (#[trigger] rs[i]).x
                            + rs[i].w
                    &&& exists|i: int|
                        0 <= i < rs.len() && p.bounds.y + p.bounds.h == (#[trigger] rs[i]).y
                            + rs[i].h
                }
            }),
    {
        let mut buttons = buttons;
        let mut textfields = textfields;
        let mut faders = faders;
        let mut dropdownbuttons = dropdownbuttons;
        let px = position.0;
        let py = position.1;
        let ghost obs = buttons@;
        let mut i: usize = 0;
        while i < buttons.len()
            invariant
                i <= buttons@.len(),
                buttons@.len() == obs.len(),
                -COORD_INPUT_LIMIT <= px <= COORD_INPUT_LIMIT,
                -COORD_INPUT_LIMIT <= py <= COORD_INPUT_LIMIT,
                forall|j: int|
                    0 <= j < obs.len() ==> (#[trigger] obs[j]).wf() && -COORD_INPUT_LIMIT
                        <= obs[j].rect.x <= COORD_INPUT_LIMIT && -COORD_INPUT_LIMIT <= obs[j].rect.y
                        <= COORD_INPUT_LIMIT,
                forall|j: int|
                    0 <= j < i ==> #[trigger] buttons@[j] == shifted_button(
                        obs[j],
                        px as int,
                        py as int,
                    ),
                forall|j: int| i <= j < obs.len() ==> #[trigger] buttons@[j] == obs[j],
            decreases buttons@.len() - i,
        {
            buttons[i].shift(px, py);
            i = i + 1;
        }
        let ghost ots = textfields@;
        let mut i: usize = 0;
        while i < textfields.len()
            invariant
                i <= textfields@.len(),
                textfields@.len() == ots.len(),
                -COORD_INPUT_LIMIT <= px <= COORD_INPUT_LIMIT,
                -COORD_INPUT_LIMIT <= py <= COORD_INPUT_LIMIT,
                forall|j: int|
                    0 <= j < ots.len() ==> (#[trigger] ots[j]).wf() && -COORD_INPUT_LIMIT
                        <= ots[j].rect.x <= COORD_INPUT_LIMIT && -COORD_INPUT_LIMIT <= ots[j].rect.y
                        <= COORD_INPUT_LIMIT,
                forall|j: int|
                    0 <= j < i ==> #[trigger] textfields@[j] == shifted_textfield(
                        ots[j],
                        px as int,
                        py as int,
                    ),
                forall|j: int| i <= j < ots.len() ==> #[trigger] textfields@[j] == ots[j],
            decreases textfields@.len() - i,
        {
            textfields[i].shift(px, py);
            i = i + 1;
        }
        let ghost ofs = faders@;
        let mut i: usize = 0;
        while i < faders.len()
            invariant
                i <= faders@.len(),
                faders@.len() == ofs.len(),
                -COORD_INPUT_LIMIT <= px <= COORD_INPUT_LIMIT,
                -COORD_INPUT_LIMIT <= py <= COORD_INPUT_LIMIT,
                forall|j: int|
                    0 <= j < ofs.len() ==> (#[trigger] ofs[j]).wf() && -COORD_INPUT_LIMIT
                        <= ofs[j].x <= COORD_INPUT_LIMIT && -COORD_INPUT_LIMIT <= ofs[j].y
                        <= COORD_INPUT_LIMIT,
                forall|j: int|
                    0 <= j < i ==> #[trigger] faders@[j] == shifted_fader(
                        ofs[j],
                        px as int,
                        py as int,
                    ),
                forall|j: int| i <= j < ofs.len() ==> #[trigger] faders@[j] == ofs[j],
            decreases faders@.len() - i,
        {
            faders[i].shift(px, py);
            i = i + 1;
        }
        let ghost ods = dropdownbuttons@;
        let mut i: usize = 0;
        while i < dropdownbuttons.len()
            invariant
                i <= dropdownbuttons@.len(),
                dropdownbuttons@.len() == ods.len(),
                -COORD_INPUT_LIMIT <= px <= COORD_INPUT_LIMIT,
                -COORD_INPUT_LIMIT <= py <= COORD_INPUT_LIMIT,
                forall|j: int|
                    0 <= j < ods.len() ==> (#[trigger] ods[j]).wf() && -COORD_INPUT_LIMIT
                        <= ods[j].rect.x <= COORD_INPUT_LIMIT && -COORD_INPUT_LIMIT <= ods[j].rect.y
                        <= COORD_INPUT_LIMIT,
                forall|j: int|
                    0 <= j < i ==> #[trigger] dropdownbuttons@[j] == shifted_dropdown(
                        ods[j],
                        px as int,
                        py as int,
                    ),
                forall|j: int| i <= j < ods.len() ==> #[trigger] dropdownbuttons@[j] == ods[j],
            decreases dropdownbuttons@.len() - i,
        {
            dropdownbuttons[i].shift(px, py);
            i = i + 1;
        }
        let mut rects: Vec<Rect> = Vec::new();
        let mut i: usize = 0;
        while i < buttons.len()
            invariant
                i <= buttons@.len(),
                rects@.len() == i,
                forall|j: int| 0 <= j < buttons@.len() ==> (#[trigger] buttons@[j]).wf(),
                forall|j: int| 0 <= j < rects@.len() ==> (#[trigger] rects@[j]).wf(),
                forall|j: int|
                    0 <= j < i ==> #[trigger] rects@[j] == buttons@[j].spec_visual_bounds(),
            decreases buttons@.len() - i,
        {
            let r = buttons[i].visual_bounds();
            proof {
                assert(r.wf());
            }
            rects.push(r);
            i = i + 1;
        }
        let nb: usize = buttons.len();
        let mut i: usize = 0;
        while i < textfields.len()
            invariant
                i <= textfields@.len(),
                nb == buttons@.len(),
                rects@.len() == nb + i,
                forall|j: int| 0 <= j < textfields@.len() ==> (#[trigger] textfields@[j]).wf(),
                forall|j: int| 0 <= j < rects@.len() ==> (#[trigger] rects@[j]).wf(),
                forall|j: int|
                    0 <= j < nb ==> #[trigger] rects@[j] == buttons@[j].spec_visual_bounds(),
                forall|j: int|
                    0 <= j < i ==> #[trigger] rects@[nb + j] == textfields@[j].spec_visual_bounds(),
            decreases textfields@.len() - i,
        {
            let r = textfields[i].visual_bounds();
            rects.push(r);
            i = i + 1;
        }
        let nt: usize = textfields.len();
        let mut i: usize = 0;
        while i < faders.len()
            invariant
                i <= faders@.len(),
                nb == buttons@.len(),
                nt == textfields@.len(),
                rects@.len() == nb + nt + i,
                forall|j: int| 0 <= j < faders@.len() ==> (#[trigger] faders@[j]).wf(),
                forall|j: int| 0 <= j < rects@.len() ==> (#[trigger] rects@[j]).wf(),
                forall|j: int|
                    0 <= j < nb ==> #[trigger] rects@[j] == buttons@[j].spec_visual_bounds(),
                forall|j: int|
                    0 <= j < nt ==> #[trigger] rects@[nb + j] == textfields@[j].spec_visual_bounds(),
                forall|j: int|
                    0 <= j < i ==> #[trigger] rects@[nb + nt + j] == faders@[j].spec_visual_bounds(),
            decreases faders@.len() - i,
        {
            let r = faders[i].visual_bounds();
            rects.push(r);
            i = i + 1;
        }
        let nf: usize = faders.len();
        let mut i: usize = 0;
        while i < dropdownbuttons.len()
            invariant
                i <= dropdownbuttons@.len(),
                nb == buttons@.len(),
                nt == textfields@.len(),
                nf == faders@.len(),
                rects@.len() == nb + nt + nf + i,
                forall|j: int|
                    0 <= j < dropdownbuttons@.len() ==> (#[trigger] dropdownbuttons@[j]).wf(),
                forall|j: int| 0 <= j < rects@.len() ==> (#[trigger] rects@[j]).wf(),
                forall|j: int|
                    0 <= j < nb ==> #[trigger] rects@[j] == buttons@[j].spec_visual_bounds(),
                forall|j: int|
                    0 <= j < nt ==> #[trigger] rects@[nb + j] == textfields@[j].spec_visual_bounds(),
                forall|j: int|
                    0 <= j < nf ==> #[trigger] rects@[nb + nt + j] == faders@[j].spec_visual_bounds(),
                forall|j: int|
                    0 <= j < i ==> #[trigger] rects@[nb + nt + nf + j]
                        == dropdownbuttons@[j].spec_visual_bounds(),
            decreases dropdownbuttons@.len() - i,
        {
            let r = dropdownbuttons[i].visual_bounds();
            rects.push(r);
            i = i + 1;
        }
        proof {
            let rs = panel_rects(buttons@, textfields@, faders@, dropdownbuttons@);
            assert forall|k: int| 0 <= k < rects@.len() implies rects@[k] == rs[k] by {
                let bn = nb as int;
                let tn = nt as int;
                let fn0 = nf as int;
                if k < bn {
                    assert(rects@[k] == buttons@[k].spec_visual_bounds());
                } else if k < bn + tn {
                    let j = k - bn;
                    assert(rects@[nb + j] == textfields@[j].spec_visual_bounds());
                } else if k < bn + tn + fn0 {
                    let j = k - bn - tn;
                    assert(rects@[nb + nt + j] == faders@[j].spec_visual_bounds());
                } else {
                    let j = k - bn - tn - fn0;
                    assert(rects@[nb + nt + nf + j] == dropdownbuttons@[j].spec_visual_bounds());
                }
            }
            assert(rects@ =~= rs);
        }
        let bounds = bounding_box(&rects);
        let order = widget_order(&buttons, &textfields, &faders, &dropdownbuttons);
        Panel {
            name,
            bounds,
            buttons,
            textfields,
            faders,
            dropdownbuttons,
            widget_order: order,
            active: None,
        }
    }

    /// The content of the text field at `idx`; the index must be in range.
    pub fn get_input(&self, idx: usize) -> (r: String)
        requires
            idx < self.textfields@.len(),
        ensures
            r@ == self.textfields@[idx as int].content@,
    {
        self.textfields[idx].get_content().to_owned()
    }

    /// Routes an arrow key to the widget at `(w_type, idx)`: only faders
    /// react, stepping up for Up and Right, down for Down and Left, and
    /// reporting the new value; every other kind ignores arrow input.
    pub fn arrow_key(&mut self, w_type: WidgetType, idx: usize, dir: Direction) -> (r: Option<
        GuiEvent<T>,
    >)
        requires
            old(self).wf(),
            w_type == WidgetType::Fader ==> idx < old(self).faders@.len(),
        ensures
            final(self).wf(),
            old(self).same_shape(*final(self)),
            final(self).active == old(self).active,
            final(self).buttons@ == old(self).buttons@,
            final(self).textfields@ == old(self).textfields@,
            final(self).dropdownbuttons@ == old(self).dropdownbuttons@,
            w_type != WidgetType::Fader ==> final(self).faders@ == old(self).faders@ && r is None,
            w_type == WidgetType::Fader ==> {
                let f2 = match dir {
                    Direction::Up | Direction::Right => old(self).faders@[idx as int].spec_increment(),
                    Direction::Down | Direction::Left => old(self).faders@[idx as int].spec_decrement(),
                };
                &&& final(self).faders@ == old(self).faders@.update(idx as int, f2)
                &&& r == Some(GuiEvent::<T>::FaderUpdate(old(self).name, idx, Rational {
                    num: f2.value_numerator() as i64,
                    den: f2.denom() as i64,
                }))
            },
    {
        match w_type {
            WidgetType::Fader => {
                match dir {
                    Direction::Up | Direction::Right => self.faders[idx].increment(),
                    Direction::Down | Direction::Left => self.faders[idx].decrement(),
                }
                Some(GuiEvent::FaderUpdate(self.name.clone(), idx, self.faders[idx].value()))
            },
            _ => None,
        }
    }

    /// Deactivates the widget at `(w_type, idx)` by its type-specific rule
    /// (text fields lose focus, dropdowns close; buttons and faders have no
    /// deactivated state) and clears the panel's active index.
    pub fn deselect(&mut self, w_type: WidgetType, idx: usize)
        requires
            old(self).wf(),
            w_type == WidgetType::TextField ==> idx < old(self).textfields@.len(),
            w_type == WidgetType::DropdownButton ==> idx < old(self).dropdownbuttons@.len(),
        ensures
            final(self).wf(),
            old(self).same_shape(*final(self)),
            final(self).active is None,
            final(self).buttons@ == old(self).buttons@,
            final(self).faders@ == old(self).faders@,
            final(self).textfields@ == tfs_deselect(old(self).textfields@, (w_type, idx)),
            final(self).dropdownbuttons@ == dds_deselect(old(self).dropdownbuttons@, (w_type, idx)),
    {
        match w_type {
            WidgetType::TextField => self.textfields[idx].set_active(false),
            WidgetType::DropdownButton => self.dropdownbuttons[idx].close(),
            _ => {},
        }
        self.active = None;
    }

    /// Deactivates the currently active widget, leaving the active index.
    fn deselect_active(&mut self)
        requires
            old(self).wf(),
        ensures
            final(self).wf(),
            old(self).same_shape(*final(self)),
            final(self).active == old(self).active,
            final(self).buttons@ == old(self).buttons@,
            final(self).faders@ == old(self).faders@,
            match old(self).spec_active_entry() {
                None => final(self).textfields@ == old(self).textfields@ && final(self).dropdownbuttons@ == old(self).dropdownbuttons@,
                Some(e) => final(self).textfields@ == tfs_deselect(old(self).textfields@, e)
                    && final(self).dropdownbuttons@ == dds_deselect(old(self).dropdownbuttons@, e),
            },
    {
        if let Some(active) = self.active {
            let entry: OrderEntry = self.widget_order[active];
            match entry.0 {
                WidgetType::TextField => self.textfields[entry.1].set_active(false),
                WidgetType::DropdownButton => self.dropdownbuttons[entry.1].close(),
                WidgetType::Fader => {},
                WidgetType::Button => {},
            }
        }
    }

    /// Activates the currently active widget by its type-specific rule:
    /// a text field gains focus (if clickable), a dropdown opens.
    fn select_active(&mut self)
        requires
            old(self).wf(),
        ensures
            final(self).wf(),
            old(self).same_shape(*final(self)),
            final(self).active == old(self).active,
            final(self).buttons@ == old(self).buttons@,
            final(self).faders@ == old(self).faders@,
            match old(self).spec_active_entry() {
                None => final(self).textfields@ == old(self).textfields@ && final(self).dropdownbuttons@ == old(self).dropdownbuttons@,
                Some(e) => final(self).textfields@ == tfs_select(old(self).textfields@, e) && final(self).dropdownbuttons@ == dds_select(old(self).dropdownbuttons@, e),
            },
    {
        if let Some(active) = self.active {
            let entry: OrderEntry = self.widget_order[active];
            match entry.0 {
                WidgetType::TextField => self.textfields[entry.1].set_active(true),
                WidgetType::DropdownButton => self.dropdownbuttons[entry.1].open(),
                WidgetType::Fader => {},
                WidgetType::Button => {},
            }
        }
    }

    /// Advances the active widget cyclically through the tab order,
    /// deactivating the old one and activating the new one; when nothing was
    /// active, selects the first entry. Returns the new active entry.
    pub fn next_widget(&mut self) -> (r: OrderEntry)
        requires
            old(self).wf(),
            old(self).widget_order@.len() > 0,
        ensures
            final(self).wf(),
            old(self).same_shape(*final(self)),
            final(self).buttons@ == old(self).buttons@,
            final(self).faders@ == old(self).faders@,
            match old(self).active {
                None => {
                    &&& final(self).active == Some(0usize)
                    &&& r == old(self).widget_order@[0]
                    &&& final(self).textfields@ == tfs_select(old(self).textfields@, r)
                    &&& final(self).dropdownbuttons@ == dds_select(old(self).dropdownbuttons@, r)
                },
                Some(a) => {
                    let n = advance_focus(a as int, old(self).widget_order@.len() as int);
                    let olde = old(self).widget_order@[a as int];
                    &&& (final(self).active matches Some(na) && na == n)
                    &&& r == old(self).widget_order@[n]
                    &&& final(self).textfields@ == tfs_select(
                        tfs_deselect(old(self).textfields@, olde),
                        r,
                    )
                    &&& final(self).dropdownbuttons@ == dds_select(
                        dds_deselect(old(self).dropdownbuttons@, olde),
                        r,
                    )
                },
            },
    {
        if self.active.is_none() {
            self.active = Some(0);
            self.select_active();
            let e: OrderEntry = self.widget_order[0];
            return e;
        }
        let a: usize = match self.active {
            Some(a) => a,
            None => 0,
        };
        let len: usize = self.widget_order.len();
        let new: usize = (a + 1) % len;
        self.deselect_active();
        self.active = Some(new);
        self.select_active();
        self.widget_order[new]
    }

    /// Retreats the active widget cyclically through the tab order, wrapping
    /// from the first entry to the last; does nothing when nothing is
    /// active. Returns the new active entry, if any.
    pub fn previous_widget(&mut self) -> (r: Option<OrderEntry>)
        requires
            old(self).wf(),
        ensures
            final(self).wf(),
            old(self).same_shape(*final(self)),
            final(self).buttons@ == old(self).buttons@,
            final(self).faders@ == old(self).faders@,
            match old(self).active {
                None => r is None && *final(self) == *old(self),
                Some(a) => {
                    let n = if a == 0 {
                        old(self).widget_order@.len() - 1
                    } else {
                        a - 1
                    };
                    let olde = old(self).widget_order@[a as int];
                    let newe = old(self).widget_order@[n];
                    &&& (final(self).active matches Some(na) && na == n)
                    &&& r == Some(newe)
                    &&& final(self).textfields@ == tfs_select(
                        tfs_deselect(old(self).textfields@, olde),
                        newe,
                    )
                    &&& final(self).dropdownbuttons@ == dds_select(
                        dds_deselect(old(self).dropdownbuttons@, olde),
                        newe,
                    )
                },
            },
    {
        let new: usize = match self.active {
            Some(a) => {
                if a == 0 {
                    self.widget_order.len() - 1
                } else {
                    a - 1
                }
            },
            None => {
                return None;
            },
        };
        self.deselect_active();
        self.active = Some(new);
        self.select_active();
        Some(self.widget_order[new])
    }

    /// Replaces the content of the text field at `idx`; the index must be
    /// in range.
    pub fn set_textfield_content(&mut self, idx: usize, content: String)
        requires
            old(self).wf(),
            idx < old(self).textfields@.len(),
        ensures
            final(self).wf(),
            old(self).same_shape(*final(self)),
            final(self).active == old(self).active,
            final(self).buttons@ == old(self).buttons@,
            final(self).faders@ == old(self).faders@,
            final(self).dropdownbuttons@ == old(self).dropdownbuttons@,
            final(self).textfields@ == old(self).textfields@.update(
                idx as int,
                (TextField { content, ..old(self).textfields@[idx as int] }),
            ),
    {
        self.textfields[idx].set_content(content);
    }

    /// Appends one character to the text field at `idx`; the index must be
    /// in range.
    pub fn push_to_textfield(&mut self, idx: usize, c: char)
        requires
            old(self).wf(),
            idx < old(self).textfields@.len(),
        ensures
            final(self).wf(),
            old(self).same_shape(*final(self)),
            final(self).active == old(self).active,
            final(self).buttons@ == old(self).buttons@,
            final(self).faders@ == old(self).faders@,
            final(self).dropdownbuttons@ == old(self).dropdownbuttons@,
            final(self).textfields@.len() == old(self).textfields@.len(),
            final(self).textfields@[idx as int] == (TextField {
                content: final(self).textfields@[idx as int].content,
                ..old(self).textfields@[idx as int]
            }),
            final(self).textfields@[idx as int].content@ == old(self).textfields@[idx as int].content@ + seq![c],
            forall|j: int|
                0 <= j < old(self).textfields@.len() && j != idx ==> final(self).textfields@[j]
                    == old(self).textfields@[j],
    {
        self.textfields[idx].push(char_to_string(c));
    }

    /// Appends `s` to every text field that is currently focused.
    pub fn push_to_active_textfields(&mut self, s: &str)
        requires
            old(self).wf(),
        ensures
            final(self).wf(),
            old(self).same_shape(*final(self)),
            final(self).active == old(self).active,
            final(self).buttons@ == old(self).buttons@,
            final(self).faders@ == old(self).faders@,
            final(self).dropdownbuttons@ == old(self).dropdownbuttons@,
            final(self).textfields@.len() == old(self).textfields@.len(),
            forall|j: int|
                0 <= j < old(self).textfields@.len() && old(self).textfields@[j].is_active ==> {
                    &&& #[trigger] final(self).textfields@[j] == (TextField {
                        content: final(self).textfields@[j].content,
                        ..old(self).textfields@[j]
                    })
                    &&& final(self).textfields@[j].content@ == old(self).textfields@[j].content@
                        + s@
                },
            forall|j: int|
                0 <= j < old(self).textfields@.len() && !old(self).textfields@[j].is_active
                    ==> #[trigger] final(self).textfields@[j] == old(self).textfields@[j],
    {
        let mut i: usize = 0;
        while i < self.textfields.len()
            invariant
                old(self).wf(),
                i <= self.textfields@.len(),
                *self == (Panel { textfields: self.textfields, ..*old(self) }),
                self.textfields@.len() == old(self).textfields@.len(),
                forall|j: int|
                    0 <= j < i && old(self).textfields@[j].is_active ==> {
                        &&& #[trigger] self.textfields@[j] == (TextField {
                            content: self.textfields@[j].content,
                            ..old(self).textfields@[j]
                        })
                        &&& self.textfields@[j].content@ == old(self).textfields@[j].content@ + s@
                    },
                forall|j: int|
                    0 <= j < i && !old(self).textfields@[j].is_active
                        ==> #[trigger] self.textfields@[j] == old(self).textfields@[j],
                forall|j: int|
                    i <= j < old(self).textfields@.len() ==> #[trigger] self.textfields@[j] == old(self).textfields@[j],
            decreases self.textfields@.len() - i,
        {
            if self.textfields[i].is_active() {
                let owned: String = s.to_owned();
                self.textfields[i].push(owned);
            }
            i = i + 1;
        }
    }

    /// Removes the last character of every text field that is currently
    /// focused; focused fields with empty content stay empty.
    pub fn pop_from_active_textfields(&mut self)
        requires
            old(self).wf(),
        ensures
            final(self).wf(),
            old(self).same_shape(*final(self)),
            final(self).active == old(self).active,
            final(self).buttons@ == old(self).buttons@,
            final(self).faders@ == old(self).faders@,
            final(self).dropdownbuttons@ == old(self).dropdownbuttons@,
            final(self).textfields@.len() == old(self).textfields@.len(),
            forall|j: int|
                0 <= j < old(self).textfields@.len() && old(self).textfields@[j].is_active ==> {
                    &&& #[trigger] final(self).textfields@[j] == (TextField {
                        content: final(self).textfields@[j].content,
                        ..old(self).textfields@[j]
                    })
                    &&& final(self).textfields@[j].content@ == if old(
                        self,
                    ).textfields@[j].content@.len() > 0 {
                        old(self).textfields@[j].content@.drop_last()
                    } else {
                        old(self).textfields@[j].content@
                    }
                },
            forall|j: int|
                0 <= j < old(self).textfields@.len() && !old(self).textfields@[j].is_active
                    ==> #[trigger] final(self).textfields@[j] == old(self).textfields@[j],
    {
        let mut i: usize = 0;
        while i < self.textfields.len()
            invariant
                old(self).wf(),
                i <= self.textfields@.len(),
                *self == (Panel { textfields: self.textfields, ..*old(self) }),
                self.textfields@.len() == old(self).textfields@.len(),
                forall|j: int|
                    0 <= j < i && old(self).textfields@[j].is_active ==> {
                        &&& #[trigger] self.textfields@[j] == (TextField {
                            content: self.textfields@[j].content,
                            ..old(self).textfields@[j]
                        })
                        &&& self.textfields@[j].content@ == if old(
                            self,
                        ).textfields@[j].content@.len() > 0 {
                            old(self).textfields@[j].content@.drop_last()
                        } else {
                            old(self).textfields@[j].content@
                        }
                    },
                forall|j: int|
                    0 <= j < i && !old(self).textfields@[j].is_active
                        ==> #[trigger] self.textfields@[j] == old(self).textfields@[j],
                forall|j: int|
                    i <= j < old(self).textfields@.len() ==> #[trigger] self.textfields@[j] == old(
                        self,
                    ).textfields@[j],
            decreases self.textfields@.len() - i,
        {
            if self.textfields[i].is_active() {
                let _popped = self.textfields[i].pop_char();
            }
            i = i + 1;
        }
    }

    /// Removes and returns the last character of the text field at `idx`;
    /// the index must be in range.
    pub fn pop_from_textfield(&mut self, idx: usize) -> (r: Option<char>)
        requires
            old(self).wf(),
            idx < old(self).textfields@.len(),
        ensures
            final(self).wf(),
            old(self).same_shape(*final(self)),
            final(self).active == old(self).active,
            final(self).buttons@ == old(self).buttons@,
            final(self).faders@ == old(self).faders@,
            final(self).dropdownbuttons@ == old(self).dropdownbuttons@,
            final(self).textfields@.len() == old(self).textfields@.len(),
            final(self).textfields@[idx as int] == (TextField {
                content: final(self).textfields@[idx as int].content,
                ..old(self).textfields@[idx as int]
            }),
            old(self).textfields@[idx as int].content@.len() == 0 ==> r is None && final(self).textfields@[idx as int].content@ == old(self).textfields@[idx as int].content@,
            old(self).textfields@[idx as int].content@.len() > 0 ==> r == Some(
                old(self).textfields@[idx as int].content@.last(),
            ) && final(self).textfields@[idx as int].content@ == old(self).textfields@[idx as int].content@.drop_last(),
            forall|j: int|
                0 <= j < old(self).textfields@.len() && j != idx ==> final(self).textfields@[j]
                    == old(self).textfields@[j],
    {
        self.textfields[idx].pop_char()
    }

    /// Empties the text field at `idx`; the index must be in range.
    pub fn clear_textfield(&mut self, idx: usize)
        requires
            old(self).wf(),
            idx < old(self).textfields@.len(),
        ensures
            final(self).wf(),
            old(self).same_shape(*final(self)),
            final(self).active == old(self).active,
            final(self).buttons@ == old(self).buttons@,
            final(self).faders@ == old(self).faders@,
            final(self).dropdownbuttons@ == old(self).dropdownbuttons@,
            final(self).textfields@.len() == old(self).textfields@.len(),
            final(self).textfields@[idx as int] == (TextField {
                content: final(self).textfields@[idx as int].content,
                ..old(self).textfields@[idx as int]
            }),
            final(self).textfields@[idx as int].content@ == Seq::<char>::empty(),
            forall|j: int|
                0 <= j < old(self).textfields@.len() && j != idx ==> final(self).textfields@[j]
                    == old(self).textfields@[j],
    {
        self.textfields[idx].clear();
    }

    /// Clears the hovered state of the widget at `(w_type, idx)`.
    pub fn unhover(&mut self, w_type: WidgetType, idx: usize)
        requires
            old(self).wf(),
            w_type == WidgetType::Button ==> idx < old(self).buttons@.len(),
            w_type == WidgetType::Fader ==> idx < old(self).faders@.len(),
            w_type == WidgetType::DropdownButton ==> idx < old(self).dropdownbuttons@.len(),
        ensures
            final(self).wf(),
            old(self).same_shape(*final(self)),
            final(self).active == old(self).active,
            final(self).textfields@ == old(self).textfields@,
            final(self).buttons@ == if w_type == WidgetType::Button {
                old(self).buttons@.update(
                    idx as int,
                    (Button { is_hovered: false, ..old(self).buttons@[idx as int] }),
                )
            } else {
                old(self).buttons@
            },
            final(self).faders@ == if w_type == WidgetType::Fader {
                old(self).faders@.update(
                    idx as int,
                    (Fader { is_hovered: false, ..old(self).faders@[idx as int] }),
                )
            } else {
                old(self).faders@
            },
            final(self).dropdownbuttons@ == if w_type == WidgetType::DropdownButton {
                old(self).dropdownbuttons@.update(
                    idx as int,
                    (DropdownButton { hovered: None, ..old(self).dropdownbuttons@[idx as int] }),
                )
            } else {
                old(self).dropdownbuttons@
            },
    {
        match w_type {
            WidgetType::Button => self.buttons[idx].is_hovered(false),
            WidgetType::Fader => self.faders[idx].is_hovered(false),
            WidgetType::DropdownButton => self.dropdownbuttons[idx].unhover(),
            _ => {},
        }
    }

    /// Sets the hovered flag of the widget at `(w_type, idx)`; only buttons
    /// and faders have one.
    pub fn hover(&mut self, w_type: WidgetType, idx: usize)
        requires
            old(self).wf(),
            w_type == WidgetType::Button ==> idx < old(self).buttons@.len(),
            w_type == WidgetType::Fader ==> idx < old(self).faders@.len(),
        ensures
            final(self).wf(),
            old(self).same_shape(*final(self)),
            final(self).active == old(self).active,
            final(self).textfields@ == old(self).textfields@,
            final(self).dropdownbuttons@ == old(self).dropdownbuttons@,
            final(self).buttons@ == if w_type == WidgetType::Button {
                old(self).buttons@.update(
                    idx as int,
                    (Button { is_hovered: true, ..old(self).buttons@[idx as int] }),
                )
            } else {
                old(self).buttons@
            },
            final(self).faders@ == if w_type == WidgetType::Fader {
                old(self).faders@.update(
                    idx as int,
                    (Fader { is_hovered: true, ..old(self).faders@[idx as int] }),
                )
            } else {
                old(self).faders@
            },
    {
        match w_type {
            WidgetType::Button => self.buttons[idx].is_hovered(true),
            WidgetType::Fader => self.faders[idx].is_hovered(true),
            _ => {},
        }
    }

    /// Hit-tests the panel's widgets at `(x, y)` by visual bounds, in the
    /// fixed priority order buttons, text fields, faders, dropdown buttons.
    pub fn get_widget_data(&self, x: i32, y: i32) -> (r: Option<OrderEntry>)
        requires
            self.wf(),
        ensures
            r == self.spec_hit(x as int, y as int),
            r matches Some(e) ==> self.valid_entry(e),
    {
        let nb: usize = self.buttons.len();
        let nt: usize = self.textfields.len();
        let nf: usize = self.faders.len();
        let nd: usize = self.dropdownbuttons.len();
        if let Some(i) = hit_buttons(&self.buttons, x, y) {
            proof {
                lemma_first_containing_in_range(
                    button_rects(self.buttons@),
                    x as int,
                    y as int,
                    0,
                );
            }
            return Some((WidgetType::Button, i));
        }
        if let Some(i) = hit_textfields(&self.textfields, x, y) {
            proof {
                lemma_first_containing_in_range(
                    textfield_rects(self.textfields@),
                    x as int,
                    y as int,
                    0,
                );
            }
            return Some((WidgetType::TextField, i));
        }
        if let Some(i) = hit_faders(&self.faders, x, y) {
            proof {
                lemma_first_containing_in_range(fader_rects(self.faders@), x as int, y as int, 0);
            }
            return Some((WidgetType::Fader, i));
        }
        if let Some(i) = hit_dropdowns(&self.dropdownbuttons, x, y) {
            proof {
                lemma_first_containing_in_range(
                    dropdown_rects(self.dropdownbuttons@),
                    x as int,
                    y as int,
                    0,
                );
            }
            return Some((WidgetType::DropdownButton, i));
        }
        None
    }

    /// Routes a drag to the widget at `(w_type, idx)`: only faders react,
    /// moving their knob to the pointer and reporting the new value.
    pub fn drag(&mut self, w_type: WidgetType, idx: usize, x: i32, y: i32) -> (r: Option<Rational>)
        requires
            old(self).wf(),
            w_type == WidgetType::Fader ==> idx < old(self).faders@.len(),
        ensures
            final(self).wf(),
            old(self).same_shape(*final(self)),
            final(self).active == old(self).active,
            final(self).buttons@ == old(self).buttons@,
            final(self).textfields@ == old(self).textfields@,
            final(self).dropdownbuttons@ == old(self).dropdownbuttons@,
            w_type != WidgetType::Fader ==> final(self).faders@ == old(self).faders@ && r is None,
            w_type == WidgetType::Fader ==> {
                let f2 = old(self).faders@[idx as int].spec_drag(x as int, y as int);
                &&& final(self).faders@ == old(self).faders@.update(idx as int, f2)
                &&& r == Some(Rational {
                    num: f2.value_numerator() as i64,
                    den: f2.denom() as i64,
                })
            },
    {
        match w_type {
            WidgetType::Fader => {
                self.faders[idx].drag(x, y);
                Some(self.faders[idx].value())
            },
            _ => None,
        }
    }

    /// The index of `e` in the tab order; the invariant guarantees that
    /// every valid entry is there.
    fn find_order_index(&self, e: OrderEntry) -> (m: usize)
        requires
            self.wf(),
            self.valid_entry(e),
        ensures
            m < self.widget_order@.len(),
            self.widget_order@[m as int] == e,
    {
        let mut m: usize = 0;
        while m < self.widget_order.len()
            invariant
                m <= self.widget_order@.len(),
                forall|j: int| 0 <= j < m ==> #[trigger] self.widget_order@[j] != e,
            decreases self.widget_order@.len() - m,
        {
            let cur: OrderEntry = self.widget_order[m];
            if cur.0 == e.0 && cur.1 == e.1 {
                return m;
            }
            m = m + 1;
        }
        proof {
            assert(self.widget_order@.contains(e));
            let j = choose|j: int| 0 <= j < self.widget_order@.len() && self.widget_order@[j] == e;
            assert(false);
        }
        0
    }

    /// Whether clicking `widget` deactivates the previously active widget:
    /// it does, unless the clicked widget is the same dropdown that is
    /// already active (a dropdown interacting with itself while open must
    /// not be closed first).
    pub open spec fn click_deselects(self, widget: OrderEntry) -> bool {
        !(self.spec_active_entry() == Some(widget) && widget.0 == WidgetType::DropdownButton)
    }

    /// The panel's text fields right after the click's conditional
    /// deactivation, before the clicked widget reacts.
    pub open spec fn mid_click_tfs(self, widget: OrderEntry) -> Seq<TextField> {
        if self.click_deselects(widget) {
            match self.spec_active_entry() {
                None => self.textfields@,
                Some(e) => tfs_deselect(self.textfields@, e),
            }
        } else {
            self.textfields@
        }
    }

    /// The panel's dropdowns right after the click's conditional
    /// deactivation, before the clicked widget reacts.
    pub open spec fn mid_click_dds(self, widget: OrderEntry) -> Seq<DropdownButton> {
        if self.click_deselects(widget) {
            match self.spec_active_entry() {
                None => self.dropdownbuttons@,
                Some(e) => dds_deselect(self.dropdownbuttons@, e),
            }
        } else {
            self.dropdownbuttons@
        }
    }

    /// Clicks the widget at `widget`: deactivates the previously active
    /// widget (unless the target is that same dropdown), makes the
    /// target the panel's active widget, and lets it react — a button yields
    /// its payload, a text field takes focus, a dropdown runs its click
    /// state machine and may yield a committed option.
    pub fn click(&mut self, widget: OrderEntry) -> (r: Option<GuiEvent<T>>)
        requires
            old(self).wf(),
            old(self).valid_entry(widget),
        ensures
            final(self).wf(),
            old(self).same_shape(*final(self)),
            final(self).buttons@ == old(self).buttons@,
            final(self).faders@ == old(self).faders@,
            final(self).active matches Some(m) && old(self).widget_order@[m as int] == widget,
            widget.0 == WidgetType::Button ==> {
                &&& final(self).textfields@ == old(self).mid_click_tfs(widget)
                &&& final(self).dropdownbuttons@ == old(self).mid_click_dds(widget)
                &&& r == Some(GuiEvent::<T>::Callback(
                    old(self).name,
                    old(self).buttons@[widget.1 as int].callback,
                ))
            },
            widget.0 == WidgetType::TextField ==> {
                &&& final(self).textfields@ == tfs_select(old(self).mid_click_tfs(widget), widget)
                &&& final(self).dropdownbuttons@ == old(self).mid_click_dds(widget)
                &&& r is None
            },
            widget.0 == WidgetType::Fader ==> {
                &&& final(self).textfields@ == old(self).mid_click_tfs(widget)
                &&& final(self).dropdownbuttons@ == old(self).mid_click_dds(widget)
                &&& r is None
            },
            widget.0 == WidgetType::DropdownButton ==> {
                let mid = old(self).mid_click_dds(widget);
                let step = mid[widget.1 as int].spec_click();
                &&& final(self).textfields@ == old(self).mid_click_tfs(widget)
                &&& final(self).dropdownbuttons@ == mid.update(widget.1 as int, step.0)
                &&& r == match step.1 {
                    Some(s) => Some(GuiEvent::<T>::DropdownUpdate(old(self).name, widget.1, s)),
                    None => None,
                }
            },
    {
        let deselect: bool = match self.active {
            Some(a) => {
                let e: OrderEntry = self.widget_order[a];
                let same_dropdown: bool = match (e.0, widget.0) {
                    (WidgetType::DropdownButton, WidgetType::DropdownButton) => e.1 == widget.1,
                    _ => false,
                };
                !same_dropdown
            },
            None => true,
        };
        if deselect {
            self.deselect_active();
        }
        let m: usize = self.find_order_index(widget);
        self.active = Some(m);
        match widget.0 {
            WidgetType::Button => Some(
                GuiEvent::Callback(self.name.clone(), self.buttons[widget.1].click()),
            ),
            WidgetType::TextField => {
                if self.textfields[widget.1].is_clickable() {
                    self.textfields[widget.1].set_active(true);
                }
                proof {
                    assert(self.textfields@ =~= tfs_select(
                        old(self).mid_click_tfs(widget),
                        widget,
                    ));
                }
                None
            },
            WidgetType::DropdownButton => {
                if let Some(s) = self.dropdownbuttons[widget.1].click() {
                    return Some(GuiEvent::DropdownUpdate(self.name.clone(), widget.1, s));
                }
                None
            },
            WidgetType::Fader => None,
        }
    }

    /// Forwards a pointer position to the dropdown at `idx` so it can
    /// recompute its hovered row; the index must be in range.
    pub fn hover_dropdown(&mut self, idx: usize, x: i32, y: i32)
        requires
            old(self).wf(),
            idx < old(self).dropdownbuttons@.len(),
        ensures
            final(self).wf(),
            old(self).same_shape(*final(self)),
            final(self).active == old(self).active,
            final(self).buttons@ == old(self).buttons@,
            final(self).textfields@ == old(self).textfields@,
            final(self).faders@ == old(self).faders@,
            final(self).dropdownbuttons@ == old(self).dropdownbuttons@.update(
                idx as int,
                old(self).dropdownbuttons@[idx as int].spec_hover(y as int),
            ),
    {
        self.dropdownbuttons[idx].hover(x, y);
    }
}

/// One paintable region handed to the rendering collaborator: a rectangle
/// and the colour to fill it with.
pub type PaintRegion = (Rect, Color);

/// Ordering of paint regions by colour, so that the renderer can batch
/// fills of the same colour.
pub open spec fn color_le(a: Color, b: Color) -> bool {
    ||| a.r < b.r
    ||| (a.r == b.r && a.g < b.g)
    ||| (a.r == b.r && a.g == b.g && a.b <= b.b)
}

/// Whether `a`'s colour strictly precedes `b`'s.
fn region_lt(a: &PaintRegion, b: &PaintRegion) -> (r: bool)
    ensures
        r == !color_le(b.1, a.1),
{
    a.1.r < b.1.r || (a.1.r == b.1.r && a.1.g < b.1.g) || (a.1.r == b.1.r && a.1.g == b.1.g
        && a.1.b < b.1.b)
}

/// Sorts paint regions by colour, keeping their contents.
fn sort_regions(rows: &mut Vec<PaintRegion>)
    ensures
        final(rows)@.len() == old(rows)@.len(),
        final(rows)@.to_multiset() == old(rows)@.to_multiset(),
        forall|m1: int, m2: int|
            0 <= m1 < m2 < final(rows)@.len() ==> color_le(final(rows)@[m1].1, final(rows)@[m2].1),
{
    broadcast use group_seq_properties;

    let n: usize = rows.len();
    let mut i: usize = 1;
    while i < n
        invariant
            n == rows@.len(),
            1 <= i,
            i <= n || n <= 1,
            rows@.to_multiset() == old(rows)@.to_multiset(),
            forall|m1: int, m2: int| 0 <= m1 < m2 < i ==> color_le(rows@[m1].1, rows@[m2].1),
        decreases n - i,
    {
        let mut j: usize = i;
        while j > 0 && region_lt(&rows[j], &rows[j - 1])
            invariant
                n == rows@.len(),
                0 <= j <= i < n,
                rows@.to_multiset() == old(rows)@.to_multiset(),
                forall|m1: int, m2: int|
                    0 <= m1 < m2 <= i && m2 != j ==> color_le(rows@[m1].1, rows@[m2].1),
            decreases j,
        {
            let a: PaintRegion = rows[j];
            let b: PaintRegion = rows[j - 1];
            let ghost before = rows@;
            rows.set(j, b);
            rows.set(j - 1, a);
            proof {
                assert(rows@ =~= before.update(j as int - 1, before[j as int]).update(
                    j as int,
                    before[j as int - 1],
                ));
                lemma_swap_multiset(before, rows@, j as int - 1, j as int);
            }
            j = j - 1;
        }
        proof {
            assert forall|m1: int, m2: int| 0 <= m1 < m2 <= i implies color_le(
                rows@[m1].1,
                rows@[m2].1,
            ) by {
                if m2 == j && j > 0 && m1 < j - 1 {
                    assert(color_le(rows@[m1].1, rows@[j - 1].1));
                }
            }
        }
        i = i + 1;
    }
}

impl<T: Copy> Panel<T> {
    /// The regions a renderer paints for this panel: every button's visual
    /// rectangle in its colour, then every fader's travel envelope in white.
    pub open spec fn spec_paint_regions(self) -> Seq<PaintRegion> {
        Seq::new(
            self.buttons@.len() + self.faders@.len(),
            |k: int|
                if k < self.buttons@.len() {
                    (self.buttons@[k].spec_visual_bounds(), self.buttons@[k].color)
                } else {
                    (
                        self.faders@[k - self.buttons@.len()].spec_visual_bounds(),
                        Color { r: 255, g: 255, b: 255 },
                    )
                },
        )
    }

    /// The panel's paintable regions, grouped by colour: exactly the regions
    /// of `spec_paint_regions`, sorted so equal colours are adjacent.
    pub fn rects_and_colors(&self) -> (r: Vec<PaintRegion>)
        requires
            self.wf(),
        ensures
            r@.to_multiset() == self.spec_paint_regions().to_multiset(),
            r@.len() == self.buttons@.len() + self.faders@.len(),
            forall|m1: int, m2: int| 0 <= m1 < m2 < r@.len() ==> color_le(r@[m1].1, r@[m2].1),
    {
        let mut output: Vec<PaintRegion> = Vec::new();
        let mut i: usize = 0;
        while i < self.buttons.len()
            invariant
                self.wf(),
                i <= self.buttons@.len(),
                output@.len() == i,
                forall|k: int|
                    0 <= k < i ==> #[trigger] output@[k] == self.spec_paint_regions()[k],
            decreases self.buttons@.len() - i,
        {
            let vb = self.buttons[i].visual_bounds();
            let c = self.buttons[i].color;
            output.push((vb, c));
            i = i + 1;
        }
        let nb: usize = self.buttons.len();
        let mut i: usize = 0;
        while i < self.faders.len()
            invariant
                self.wf(),
                nb == self.buttons@.len(),
                i <= self.faders@.len(),
                output@.len() == nb + i,
                forall|k: int|
                    0 <= k < nb + i ==> #[trigger] output@[k] == self.spec_paint_regions()[k],
            decreases self.faders@.len() - i,
        {
            let vb = self.faders[i].visual_bounds();
            output.push((vb, Color { r: 255, g: 255, b: 255 }));
            i = i + 1;
        }
        proof {
            assert(output@ =~= self.spec_paint_regions());
        }
        sort_regions(&mut output);
        output
    }
}

/// A hit found by `first_containing` is an index into the sequence.
proof fn lemma_first_containing_in_range(rs: Seq<Rect>, x: int, y: int, k: int)
    requires
        rs.len() <= usize::MAX,
    ensures
        first_containing(rs, x, y, k) matches Some(i) ==> k <= i < rs.len(),
    decreases rs.len() - k,
{
    if k < 0 || k >= rs.len() {
        assert(first_containing(rs, x, y, k) is None);
    } else if rs[k].spec_contains(x, y) {
        assert(first_containing(rs, x, y, k) == Some(k as usize));
    } else {
        lemma_first_containing_in_range(rs, x, y, k + 1);
        assert(first_containing(rs, x, y, k) == first_containing(rs, x, y, k + 1));
    }
}

} // verus!

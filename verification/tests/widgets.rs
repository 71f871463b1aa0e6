use guilibrs::widgets::Button;
use guilibrs::widgets::ButtonBuilder;
use guilibrs::widgets::DropdownButton;
use guilibrs::widgets::Fader;
use guilibrs::widgets::TextField;
use guilibrs::Rect;

#[test]
fn fader_round_trip_is_exact_at_the_midpoint() {
    let f = Fader::new(0, 0, 100).range(10, 20).initial(15);
    assert!(f.value().equals_int(15));
}

#[test]
fn fader_drag_to_the_ends_yields_exactly_min_and_max() {
    let mut f = Fader::new(50, 0, 100).range(10, 20);
    f.drag(1000, 0);
    assert!(f.value().equals_int(20));
    f.drag(-1000, 0);
    assert!(f.value().equals_int(10));
    f.drag(150, 0);
    assert!(f.value().equals_int(20));
    f.drag(50, 0);
    assert!(f.value().equals_int(10));
}

#[test]
fn vertical_fader_drag_is_inverted() {
    let mut f = Fader::new(0, 100, 100).range(0, 10).vertical();
    f.drag(0, 100);
    assert!(f.value().equals_int(0));
    f.drag(0, 0);
    assert!(f.value().equals_int(10));
}

#[test]
fn fader_increment_steps_by_ten_and_refuses_to_overflow() {
    let mut f = Fader::new(0, 0, 100).range(0, 30).initial(0);
    f.increment();
    assert!(f.value().equals_int(10));
    f.increment();
    f.increment();
    assert!(f.value().equals_int(30));
    f.increment();
    assert!(f.value().equals_int(30));
}

#[test]
fn fader_decrement_refuses_to_underflow() {
    let mut f = Fader::new(0, 0, 100).range(0, 30).initial(10);
    f.decrement();
    assert!(f.value().equals_int(0));
    f.decrement();
    assert!(f.value().equals_int(0));
}

#[test]
fn default_fader_range_makes_stepping_a_no_op() {
    let mut f = Fader::new(0, 0, 100);
    f.increment();
    assert!(f.value().equals_int(0));
}

#[test]
fn dropdown_click_state_machine() {
    let mut d = DropdownButton::new(0, 0).options(vec![
        String::from("red"),
        String::from("green"),
        String::from("blue"),
    ]);
    // Starting closed: the first click opens and yields nothing.
    assert_eq!(d.click(), None);
    assert!(d.is_open);
    // Hover option row 2 (1-indexed): rows span [y + i*h, y + (i+1)*h).
    d.hover(0, 50);
    assert_eq!(d.hovered, Some(2));
    // The second click closes and commits the 2nd user-facing row.
    assert_eq!(d.click(), Some(String::from("green")));
    assert!(!d.is_open);
    assert_eq!(d.hovered, None);
    // A click while open with no hovered row closes without committing.
    assert_eq!(d.click(), None);
    assert!(d.is_open);
    assert_eq!(d.click(), None);
    assert!(!d.is_open);
}

#[test]
fn dropdown_hover_outside_the_rows_changes_nothing() {
    let mut d = DropdownButton::new(0, 0).options(vec![String::from("a"), String::from("b")]);
    d.open();
    d.hover(0, 10);
    assert_eq!(d.hovered, None);
    d.hover(0, 30);
    assert_eq!(d.hovered, Some(1));
    d.hover(0, 500);
    assert_eq!(d.hovered, Some(1));
}

#[test]
fn dropdown_row_bands_include_their_lower_edge() {
    // Rows of a dropdown at (0, 0) with 20-pixel rows: row 1 is [20, 40),
    // row 2 is [40, 60).
    let mut d = DropdownButton::new(0, 0).options(vec![String::from("a"), String::from("b")]);
    d.open();
    d.hover(0, 20);
    assert_eq!(d.hovered, Some(1));
    d.hover(0, 40);
    assert_eq!(d.hovered, Some(2));
    d.unhover();
    d.hover(0, 60);
    assert_eq!(d.hovered, None);
}

#[test]
fn textfield_focus_guard() {
    let mut plain = TextField::new(0, 0, 100, 20);
    plain.set_active(true);
    assert!(!plain.is_active());

    let mut clickable = TextField::new(0, 0, 100, 20).clickable();
    clickable.set_active(true);
    assert!(clickable.is_active());
    clickable.set_active(false);
    assert!(!clickable.is_active());
}

#[test]
fn textfield_push_and_pop_work_on_characters() {
    let mut t = TextField::new(0, 0, 100, 20).content("ab");
    t.push(String::from("cd"));
    assert_eq!(t.get_content(), "abcd");
    assert_eq!(t.pop_char(), Some('d'));
    assert_eq!(t.get_content(), "abc");
    t.clear();
    assert_eq!(t.get_content(), "");
    assert_eq!(t.pop_char(), None);
}

#[test]
fn textfield_pop_removes_one_unicode_scalar() {
    let mut t = TextField::new(0, 0, 100, 20).content("pâté");
    assert_eq!(t.pop_char(), Some('é'));
    assert_eq!(t.get_content(), "pât");
}

#[test]
fn textfield_visual_bounds_cover_the_label() {
    let labelled = TextField::new(10, 50, 100, 20).label(String::from("name"));
    assert_eq!(labelled.visual_bounds(), Rect::new(10, 37, 100, 33));
    let plain = TextField::new(10, 50, 100, 20);
    assert_eq!(plain.visual_bounds(), Rect::new(10, 50, 100, 20));
}

#[test]
fn button_click_returns_the_payload_verbatim() {
    let b: Button<u32> = Button::new(0, 0, 10, 10).callback(7);
    assert_eq!(b.click(), 7);
    assert_eq!(b.click(), 7);
}

#[test]
fn button_builder_requires_rect_and_callback() {
    let missing_rect: Result<Button<u32>, String> = ButtonBuilder::new().callback(1).build();
    assert_eq!(missing_rect.unwrap_err(), "Button.rect must be set");

    let missing_callback: Result<Button<u32>, String> =
        ButtonBuilder::new().rect(0, 0, 10, 10).build();
    assert_eq!(missing_callback.unwrap_err(), "Button.callback must be set");

    let built: Button<u32> = ButtonBuilder::new()
        .rect(1, 2, 3, 4)
        .callback(9)
        .label(String::from("go"))
        .build()
        .unwrap();
    assert_eq!(built.rect, Rect::new(1, 2, 3, 4));
    assert_eq!(built.click(), 9);
    assert_eq!(built.label, "go");
}

#[test]
fn fader_bounds_track_the_knob() {
    let f = Fader::new(100, 100, 100).range(0, 10).initial(5);
    // The knob sits halfway along the track.
    assert_eq!(f.bounds(), Rect::new(145, 90, 10, 20));
    assert_eq!(f.visual_bounds(), Rect::new(100, 90, 100, 20));
}

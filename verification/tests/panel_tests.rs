use guilibrs::widgets::Button;
use guilibrs::widgets::DropdownButton;
use guilibrs::widgets::Fader;
use guilibrs::widgets::TextField;
use guilibrs::widgets::WidgetType;
use guilibrs::Direction;
use guilibrs::GuiEvent;
use guilibrs::Panel;

fn three_buttons() -> Panel<u32> {
    // Declared out of reading order on purpose: y positions 90, 20, 160.
    let buttons: Vec<Button<u32>> = vec![
        Button::new(0, 90, 10, 10).callback(0),
        Button::new(0, 20, 10, 10).callback(1),
        Button::new(0, 160, 10, 10).callback(2),
    ];
    Panel::new(String::from("main"), (0, 0), buttons, Vec::new(), Vec::new(), Vec::new())
}

#[test]
fn tab_order_is_ascending_y_regardless_of_declaration_order() {
    let p = three_buttons();
    assert_eq!(
        p.widget_order,
        vec![(WidgetType::Button, 1), (WidgetType::Button, 0), (WidgetType::Button, 2)]
    );
}

#[test]
fn next_widget_cycles_and_wraps() {
    let mut p = three_buttons();
    assert_eq!(p.next_widget(), (WidgetType::Button, 1));
    assert_eq!(p.next_widget(), (WidgetType::Button, 0));
    assert_eq!(p.next_widget(), (WidgetType::Button, 2));
    assert_eq!(p.next_widget(), (WidgetType::Button, 1));
}

#[test]
fn previous_widget_from_the_first_lands_on_the_last() {
    let mut p = three_buttons();
    assert_eq!(p.previous_widget(), None);
    p.next_widget();
    assert_eq!(p.previous_widget(), Some((WidgetType::Button, 2)));
}

#[test]
fn hit_test_prefers_buttons_then_fields_then_faders_then_dropdowns() {
    let buttons: Vec<Button<u32>> = vec![Button::new(0, 0, 50, 50).callback(1)];
    let textfields = vec![TextField::new(0, 0, 50, 50)];
    let faders = vec![Fader::new(0, 25, 50)];
    let dropdowns = vec![DropdownButton::new(0, 0)];
    let p = Panel::new(String::from("overlap"), (0, 0), buttons, textfields, faders, dropdowns);
    assert_eq!(p.get_widget_data(5, 5), Some((WidgetType::Button, 0)));
    assert_eq!(p.get_widget_data(500, 500), None);
}

#[test]
fn panel_offset_shifts_every_widget_once() {
    let buttons: Vec<Button<u32>> = vec![Button::new(10, 10, 10, 10).callback(1)];
    let p = Panel::new(String::from("shifted"), (100, 200), buttons, Vec::new(), Vec::new(), Vec::new());
    assert_eq!(p.get_widget_data(115, 215), Some((WidgetType::Button, 0)));
    assert_eq!(p.get_widget_data(15, 15), None);
}

#[test]
fn panel_bounds_are_the_bounding_box_of_its_widgets() {
    let p = three_buttons();
    // Buttons at y 20, 90 and 160, each 10 by 10, all at x 0.
    assert_eq!(p.bounds.x, 0);
    assert_eq!(p.bounds.y, 20);
    assert_eq!(p.bounds.x + p.bounds.w, 10);
    assert_eq!(p.bounds.y + p.bounds.h, 170);
}

#[test]
fn panel_bounds_use_the_fader_travel_envelope() {
    let faders = vec![Fader::new(100, 100, 100)];
    let p: Panel<u32> = Panel::new(
        String::from("knobs"),
        (0, 0),
        Vec::new(),
        Vec::new(),
        faders,
        Vec::new(),
    );
    // The whole track counts, not the knob's resting box.
    assert_eq!(p.bounds.x, 100);
    assert_eq!(p.bounds.y, 90);
    assert_eq!(p.bounds.w, 100);
    assert_eq!(p.bounds.h, 20);
}

#[test]
fn clicking_another_dropdown_closes_the_open_one() {
    let dropdowns = vec![
        DropdownButton::new(0, 0).options(vec![String::from("a")]),
        DropdownButton::new(0, 100).options(vec![String::from("b")]),
    ];
    let mut p: Panel<u32> = Panel::new(
        String::from("menus"),
        (0, 0),
        Vec::new(),
        Vec::new(),
        Vec::new(),
        dropdowns,
    );
    assert_eq!(p.click((WidgetType::DropdownButton, 0)), None);
    assert!(p.dropdownbuttons[0].is_open);
    // A click on a different dropdown deactivates the first one.
    assert_eq!(p.click((WidgetType::DropdownButton, 1)), None);
    assert!(!p.dropdownbuttons[0].is_open);
    assert!(p.dropdownbuttons[1].is_open);
}

#[test]
fn click_on_a_button_yields_its_callback() {
    let mut p = three_buttons();
    let out = p.click((WidgetType::Button, 2));
    assert_eq!(out, Some(GuiEvent::Callback(String::from("main"), 2)));
}

#[test]
fn click_moves_focus_between_textfields() {
    let tfs = vec![
        TextField::new(0, 0, 10, 10).clickable(),
        TextField::new(0, 20, 10, 10).clickable(),
    ];
    let mut p: Panel<u32> = Panel::new(
        String::from("fields"),
        (0, 0),
        Vec::new(),
        tfs,
        Vec::new(),
        Vec::new(),
    );
    assert_eq!(p.click((WidgetType::TextField, 0)), None);
    assert!(p.textfields[0].is_active());
    assert_eq!(p.click((WidgetType::TextField, 1)), None);
    assert!(!p.textfields[0].is_active());
    assert!(p.textfields[1].is_active());
}

#[test]
fn arrow_keys_step_only_faders() {
    let faders = vec![Fader::new(0, 0, 100).range(0, 30).initial(10)];
    let mut p: Panel<u32> = Panel::new(
        String::from("knobs"),
        (0, 0),
        Vec::new(),
        Vec::new(),
        faders,
        Vec::new(),
    );
    let up = p.arrow_key(WidgetType::Fader, 0, Direction::Up);
    match up {
        Some(GuiEvent::FaderUpdate(name, idx, val)) => {
            assert_eq!(name, "knobs");
            assert_eq!(idx, 0);
            assert!(val.equals_int(20));
        },
        other => panic!("unexpected event: {:?}", other),
    }
    assert_eq!(p.arrow_key(WidgetType::Fader, 0, Direction::Down).is_some(), true);
    assert!(p.faders[0].value().equals_int(10));
}

#[test]
fn push_to_active_textfields_skips_unfocused_ones() {
    let tfs = vec![
        TextField::new(0, 0, 10, 10).clickable(),
        TextField::new(0, 20, 10, 10),
    ];
    let mut p: Panel<u32> = Panel::new(
        String::from("fields"),
        (0, 0),
        Vec::new(),
        tfs,
        Vec::new(),
        Vec::new(),
    );
    p.click((WidgetType::TextField, 0));
    p.push_to_active_textfields("hi");
    assert_eq!(p.textfields[0].get_content(), "hi");
    assert_eq!(p.textfields[1].get_content(), "");
}

#[test]
fn textfield_mutators_by_index() {
    let tfs = vec![TextField::new(0, 0, 10, 10)];
    let mut p: Panel<u32> = Panel::new(
        String::from("fields"),
        (0, 0),
        Vec::new(),
        tfs,
        Vec::new(),
        Vec::new(),
    );
    p.set_textfield_content(0, String::from("abc"));
    assert_eq!(p.get_input(0), "abc");
    p.push_to_textfield(0, 'd');
    assert_eq!(p.get_input(0), "abcd");
    assert_eq!(p.pop_from_textfield(0), Some('d'));
    p.clear_textfield(0);
    assert_eq!(p.get_input(0), "");
}

#[test]
fn rects_and_colors_are_grouped_by_color() {
    let buttons: Vec<Button<u32>> = vec![
        Button::new(0, 0, 10, 10).callback(0).color_rgb(200, 0, 0),
        Button::new(0, 20, 10, 10).callback(1).color_rgb(10, 0, 0),
        Button::new(0, 40, 10, 10).callback(2).color_rgb(200, 0, 0),
    ];
    let p = Panel::new(String::from("paint"), (0, 0), buttons, Vec::new(), Vec::new(), Vec::new());
    let regions = p.rects_and_colors();
    assert_eq!(regions.len(), 3);
    assert_eq!(regions[0].1.r, 10);
    assert_eq!(regions[1].1.r, 200);
    assert_eq!(regions[2].1.r, 200);
}

#[test]
fn dropdown_click_through_the_panel_commits_the_hovered_row() {
    let dropdowns = vec![DropdownButton::new(0, 0).options(vec![
        String::from("one"),
        String::from("two"),
    ])];
    let mut p: Panel<u32> = Panel::new(
        String::from("menu"),
        (0, 0),
        Vec::new(),
        Vec::new(),
        Vec::new(),
        dropdowns,
    );
    assert_eq!(p.click((WidgetType::DropdownButton, 0)), None);
    assert!(p.dropdownbuttons[0].is_open);
    p.hover_dropdown(0, 5, 30);
    let out = p.click((WidgetType::DropdownButton, 0));
    assert_eq!(
        out,
        Some(GuiEvent::DropdownUpdate(String::from("menu"), 0, String::from("one")))
    );
    assert!(!p.dropdownbuttons[0].is_open);
}

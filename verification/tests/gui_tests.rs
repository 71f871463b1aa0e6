use guilibrs::widgets::Button;
use guilibrs::widgets::TextField;
use guilibrs::widgets::WidgetData;
use guilibrs::widgets::WidgetType;
use guilibrs::GuiBuilder;
use guilibrs::GuiEvent;
use guilibrs::HandlerEvent;
use guilibrs::Key;
use guilibrs::MouseButton;
use guilibrs::Panel;
use guilibrs::RawEvent;
use guilibrs::GUI;

fn one_button_gui() -> GUI<u32> {
    let buttons: Vec<Button<u32>> = vec![Button::new(20, 20, 60, 30).callback(7)];
    let panel = Panel::new(String::from("main"), (0, 0), buttons, Vec::new(), Vec::new(), Vec::new());
    GuiBuilder::new().panels(vec![panel]).build().unwrap()
}

fn feed(gui: &mut GUI<u32>, raw: RawEvent) -> GuiEvent<u32> {
    let event = gui.handler.handle(raw, &gui.panels, &gui.active_panels);
    gui.dispatch(event)
}

#[test]
fn click_inside_the_button_emits_its_callback_exactly_once() {
    let mut gui = one_button_gui();
    let mut callbacks: Vec<u32> = Vec::new();
    let script = vec![
        RawEvent::MouseMotion { x: 40, y: 35 },
        RawEvent::MouseButtonDown { button: MouseButton::Left, x: 40, y: 35 },
        RawEvent::MouseButtonUp { button: MouseButton::Left, x: 40, y: 35 },
    ];
    for raw in script {
        if let GuiEvent::Callback(panel, cb) = feed(&mut gui, raw) {
            assert_eq!(panel, "main");
            callbacks.push(cb);
        }
    }
    assert_eq!(callbacks, vec![7]);
}

#[test]
fn releasing_off_the_button_emits_no_callback() {
    let mut gui = one_button_gui();
    let script = vec![
        RawEvent::MouseMotion { x: 40, y: 35 },
        RawEvent::MouseButtonDown { button: MouseButton::Left, x: 40, y: 35 },
        RawEvent::MouseButtonUp { button: MouseButton::Left, x: 500, y: 500 },
    ];
    for raw in script {
        let out = feed(&mut gui, raw);
        assert!(!matches!(out, GuiEvent::Callback(_, _)));
    }
}

#[test]
fn quit_is_passed_straight_through() {
    let mut gui = one_button_gui();
    assert_eq!(feed(&mut gui, RawEvent::Quit), GuiEvent::Quit);
}

#[test]
fn moving_from_one_widget_to_another_emits_only_the_new_hover() {
    let buttons: Vec<Button<u32>> = vec![
        Button::new(0, 0, 10, 10).callback(0),
        Button::new(30, 0, 10, 10).callback(1),
    ];
    let panel = Panel::new(String::from("main"), (0, 0), buttons, Vec::new(), Vec::new(), Vec::new());
    let mut gui: GUI<u32> = GuiBuilder::new().panels(vec![panel]).build().unwrap();

    let first = gui.handler.handle(
        RawEvent::MouseMotion { x: 5, y: 5 },
        &gui.panels,
        &gui.active_panels,
    );
    assert_eq!(
        first,
        HandlerEvent::Hover(WidgetData { panel: 0, kind: WidgetType::Button, idx: 0 })
    );
    let second = gui.handler.handle(
        RawEvent::MouseMotion { x: 35, y: 5 },
        &gui.panels,
        &gui.active_panels,
    );
    assert_eq!(
        second,
        HandlerEvent::Hover(WidgetData { panel: 0, kind: WidgetType::Button, idx: 1 })
    );
}

#[test]
fn leaving_the_panel_unhovers_the_last_widget() {
    let mut gui = one_button_gui();
    feed(&mut gui, RawEvent::MouseMotion { x: 40, y: 35 });
    assert!(gui.panels[0].buttons[0].is_hovered);
    let ev = gui.handler.handle(
        RawEvent::MouseMotion { x: 900, y: 900 },
        &gui.panels,
        &gui.active_panels,
    );
    assert_eq!(
        ev,
        HandlerEvent::UnHover(WidgetData { panel: 0, kind: WidgetType::Button, idx: 0 })
    );
    assert_eq!(gui.dispatch(ev), GuiEvent::Nothing);
    assert!(!gui.panels[0].buttons[0].is_hovered);
}

#[test]
fn unmapped_keys_produce_no_event() {
    let mut gui = one_button_gui();
    assert_eq!(feed(&mut gui, RawEvent::KeyDown(Key::Other, false)), GuiEvent::Nothing);
    assert_eq!(feed(&mut gui, RawEvent::Other), GuiEvent::Nothing);
}

#[test]
fn escape_clears_focus_from_a_textfield() {
    let tfs = vec![TextField::new(0, 0, 50, 20).clickable()];
    let panel: Panel<u32> = Panel::new(String::from("form"), (0, 0), Vec::new(), tfs, Vec::new(), Vec::new());
    let mut gui: GUI<u32> = GuiBuilder::new().panels(vec![panel]).build().unwrap();

    let click = HandlerEvent::Click(WidgetData { panel: 0, kind: WidgetType::TextField, idx: 0 });
    assert_eq!(gui.dispatch(click), GuiEvent::Nothing);
    assert!(gui.panels[0].textfields[0].is_active());

    assert_eq!(gui.dispatch(HandlerEvent::Escape), GuiEvent::Nothing);
    assert!(!gui.panels[0].textfields[0].is_active());
    assert_eq!(gui.active_widget, None);
}

#[test]
fn text_input_reaches_only_focused_fields() {
    let tfs = vec![
        TextField::new(0, 0, 50, 20).clickable(),
        TextField::new(0, 30, 50, 20).clickable(),
    ];
    let panel: Panel<u32> = Panel::new(String::from("form"), (0, 0), Vec::new(), tfs, Vec::new(), Vec::new());
    let mut gui: GUI<u32> = GuiBuilder::new().panels(vec![panel]).build().unwrap();

    gui.dispatch(HandlerEvent::Click(WidgetData { panel: 0, kind: WidgetType::TextField, idx: 1 }));
    gui.dispatch(HandlerEvent::TextInput(String::from("abc")));
    gui.dispatch(HandlerEvent::PopChar);
    assert_eq!(gui.panels[0].textfields[0].get_content(), "");
    assert_eq!(gui.panels[0].textfields[1].get_content(), "ab");
}

#[test]
fn tab_from_no_focus_selects_the_first_widget() {
    let mut gui = one_button_gui();
    assert_eq!(feed(&mut gui, RawEvent::KeyDown(Key::Tab, false)), GuiEvent::Nothing);
    assert_eq!(
        gui.active_widget,
        Some(WidgetData { panel: 0, kind: WidgetType::Button, idx: 0 })
    );
}

#[test]
fn return_clicks_the_focused_widget() {
    let mut gui = one_button_gui();
    feed(&mut gui, RawEvent::KeyDown(Key::Tab, false));
    let out = feed(&mut gui, RawEvent::KeyDown(Key::Return, false));
    assert_eq!(out, GuiEvent::Callback(String::from("main"), 7));
}

#[test]
fn show_and_hide_panel_toggle_visibility() {
    let buttons: Vec<Button<u32>> = vec![Button::new(0, 0, 10, 10).callback(1)];
    let panel = Panel::new(String::from("main"), (0, 0), buttons, Vec::new(), Vec::new(), Vec::new());
    let mut gui: GUI<u32> = GuiBuilder::new().panels(vec![panel]).build().unwrap();
    assert_eq!(gui.active_panels, vec![0]);
    gui.hide_panel("main");
    assert_eq!(gui.active_panels, Vec::<usize>::new());
    // A hidden panel is no longer hit-tested.
    let ev = gui.handler.handle(
        RawEvent::MouseMotion { x: 5, y: 5 },
        &gui.panels,
        &gui.active_panels,
    );
    assert_eq!(ev, HandlerEvent::Nothing);
    gui.show_panel("main");
    assert_eq!(gui.active_panels, vec![0]);
    gui.show_panel("main");
    assert_eq!(gui.active_panels, vec![0]);
    gui.hide_panel("unknown");
    assert_eq!(gui.active_panels, vec![0]);
}

#[test]
fn builder_defaults_and_overrides() {
    let gui: GUI<u32> = GuiBuilder::new()
        .title(String::from("demo"))
        .size(320, 200)
        .color((1, 2, 3))
        .build()
        .unwrap();
    assert_eq!(gui.window_title, "demo");
    assert_eq!(gui.window_size, (320, 200));
    assert_eq!(gui.backround_color.r, 1);
    assert_eq!(gui.backround_color.g, 2);
    assert_eq!(gui.backround_color.b, 3);
    // With no panels registered, the loose widgets form one default panel.
    assert_eq!(gui.panels.len(), 1);
    assert_eq!(gui.panels[0].name, "default");
    assert_eq!(gui.active_panels, vec![0]);
}

#[test]
fn quit_on_escape_is_a_translator_option() {
    let mut gui = one_button_gui();
    assert_eq!(feed(&mut gui, RawEvent::KeyDown(Key::Escape, false)), GuiEvent::Nothing);
    gui.handler.quit_on_escape = true;
    assert_eq!(feed(&mut gui, RawEvent::KeyDown(Key::Escape, false)), GuiEvent::Quit);
}

#[test]
fn dragging_takes_precedence_over_hover() {
    let mut gui = one_button_gui();
    feed(&mut gui, RawEvent::MouseMotion { x: 40, y: 35 });
    feed(&mut gui, RawEvent::MouseButtonDown { button: MouseButton::Left, x: 40, y: 35 });
    let ev = gui.handler.handle(
        RawEvent::MouseMotion { x: 45, y: 35 },
        &gui.panels,
        &gui.active_panels,
    );
    assert_eq!(
        ev,
        HandlerEvent::Drag(WidgetData { panel: 0, kind: WidgetType::Button, idx: 0 }, 45, 35)
    );
}

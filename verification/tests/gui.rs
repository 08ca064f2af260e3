use workbench::gui::{Button, Component, SelectBox, Window};

fn select_box() -> SelectBox {
    SelectBox {
        pos: (40, 40),
        width: 75,
        height: 10,
        options: vec![String::from("Yes"), String::from("Maybe"), String::from("No")],
    }
}

fn button() -> Button {
    Button { pos: (20, 20), width: 50, height: 10, clicked: false, label: String::from("OK") }
}

#[test]
fn button_draws_one_line() {
    assert_eq!(button().draw(), vec!["Button drawn!"]);
}

#[test]
fn select_box_draws_its_options() {
    assert_eq!(select_box().draw(), vec!["Drawn SelectBox!", "Yes", "Maybe", "No"]);
    let empty = SelectBox { pos: (0, 0), width: 0, height: 0, options: Vec::new() };
    assert_eq!(empty.draw(), vec!["Drawn SelectBox!"]);
}

#[test]
fn bounding_box_spans_width_and_height() {
    assert_eq!(button().bounding_box(), ((20, 20), (70, 30)));
    assert_eq!(select_box().bounding_box(), ((40, 40), (115, 50)));
    let wide = Button {
        pos: (u32::MAX - 1, 0),
        width: 1,
        height: u32::MAX,
        clicked: true,
        label: String::new(),
    };
    assert_eq!(wide.bounding_box(), ((u32::MAX - 1, 0), (u32::MAX, u32::MAX)));
}

#[test]
fn window_draws_components_in_order() {
    let win = Window { components: vec![Box::new(select_box()), Box::new(button())] };
    assert_eq!(
        win.run(),
        vec!["Hello Window!", "Drawn SelectBox!", "Yes", "Maybe", "No", "Button drawn!"]
    );
    let empty = Window { components: Vec::new() };
    assert_eq!(empty.run(), vec!["Hello Window!"]);
}

use bandex::display::{decimal_string, menu_text};
use bandex::types::{Menu, MenuType, Weekday};

#[test]
fn test_menu_type_to_string() {
    assert_eq!(MenuType::Lunch.to_string(), "Almoço");
    assert_eq!(MenuType::Dinner.to_string(), "Jantar");
}

#[test]
fn duplicate_keeps_every_field() {
    let menu = Menu {
        content: "Arroz".to_string(),
        menu_type: MenuType::Dinner,
        weekday: Weekday::Fri,
        calorific_value: Some(700),
        observation: "Nota".to_string(),
    };
    let copy = menu.duplicate();
    assert_eq!(copy.content, "Arroz");
    assert_eq!(copy.menu_type, MenuType::Dinner);
    assert_eq!(copy.weekday, Weekday::Fri);
    assert_eq!(copy.calorific_value, Some(700));
    assert_eq!(copy.observation, "Nota");
}

#[test]
fn menu_text_of_open_and_closed_slots() {
    let open = Menu {
        content: "Arroz, feijão\nSalada".to_string(),
        menu_type: MenuType::Lunch,
        weekday: Weekday::Mon,
        calorific_value: Some(1030),
        observation: "Nota".to_string(),
    };
    assert_eq!(
        menu_text(&open),
        "\n   ➤  Arroz, feijão\n   ➤  Salada\n\n     Valor energético: 1030 kcal\n\n### Observação: Nota ###\n\n"
    );
    let no_energy = Menu {
        calorific_value: None,
        ..open.clone()
    };
    assert_eq!(
        menu_text(&no_energy),
        "\n   ➤  Arroz, feijão\n   ➤  Salada\n\n### Observação: Nota ###\n\n"
    );
    let closed = Menu {
        content: "Fechado".to_string(),
        ..open.clone()
    };
    assert!(closed.is_closed());
    assert!(!open.is_closed());
    assert_eq!(menu_text(&closed), "   ✘ Fechado\n\n");
    assert_eq!(decimal_string(0), vec!['0']);
    assert_eq!(decimal_string(907), vec!['9', '0', '7']);
}

#[test]
fn weekday_numbers_from_monday() {
    assert_eq!(Weekday::Mon.num_days_from_monday(), 0);
    assert_eq!(Weekday::Sun.num_days_from_monday(), 6);
}

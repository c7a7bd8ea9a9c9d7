use bandex::cache::{Lookup, MenusCache};
use bandex::types::{Menu, MenuType, Weekday};

fn menu(content: &str, menu_type: MenuType, weekday: Weekday) -> Menu {
    Menu {
        content: content.to_string(),
        menu_type,
        weekday,
        calorific_value: None,
        observation: String::new(),
    }
}

#[test]
fn first_lookup_asks_for_a_fetch() {
    let cache = MenusCache::new();
    assert!(matches!(cache.lookup(6, MenuType::Lunch, Weekday::Mon), Lookup::Fetch));
    assert!(!cache.contains(6));
}

#[test]
fn lookups_after_a_search_come_from_memory() {
    let mut cache = MenusCache::new();
    let menus = vec![
        menu("Arroz", MenuType::Lunch, Weekday::Mon),
        menu("Sopa", MenuType::Dinner, Weekday::Mon),
        menu("Outro arroz", MenuType::Lunch, Weekday::Mon),
    ];
    cache.record_search(6, Some(menus), Some("Restaurante Central".to_string()));
    assert!(cache.contains(6));
    match cache.lookup(6, MenuType::Lunch, Weekday::Mon) {
        Lookup::Ready(Some((name, menu))) => {
            assert_eq!(name, "Restaurante Central");
            assert_eq!(menu.content, "Arroz");
            assert!(menu.weekday == Weekday::Mon);
            assert!(menu.menu_type == MenuType::Lunch);
        }
        _ => panic!("expected a cached answer"),
    }
    match cache.lookup(6, MenuType::Dinner, Weekday::Mon) {
        Lookup::Ready(Some((_, menu))) => assert_eq!(menu.content, "Sopa"),
        _ => panic!("expected a cached answer"),
    }
    assert!(matches!(
        cache.lookup(6, MenuType::Dinner, Weekday::Sun),
        Lookup::Ready(None)
    ));
    assert!(matches!(cache.lookup(7, MenuType::Lunch, Weekday::Mon), Lookup::Fetch));
}

#[test]
fn failed_search_is_not_cached() {
    let mut cache = MenusCache::new();
    cache.record_search(6, None, Some("Restaurante Central".to_string()));
    assert!(matches!(cache.lookup(6, MenuType::Lunch, Weekday::Mon), Lookup::Fetch));
    cache.record_search(6, Some(vec![]), None);
    assert!(matches!(cache.lookup(6, MenuType::Lunch, Weekday::Mon), Lookup::Fetch));
    cache.record_search(6, Some(vec![]), Some("Central".to_string()));
    assert!(matches!(
        cache.lookup(6, MenuType::Lunch, Weekday::Mon),
        Lookup::Ready(None)
    ));
}

//! The values the menu logic works on: meal types, weekdays and menus.

use vstd::prelude::*;

verus! {

/// Identifier of a restaurant upstream.
pub type RestaurantID = usize;

/// A meal slot of the day.
#[derive(Debug, Clone, Copy, PartialEq, Eq, Structural)]
pub enum MenuType {
    /// Lunch
    Lunch,
    /// Dinner
    Dinner,
}

/// The display label of a meal slot.
pub open spec fn menu_type_label(t: MenuType) -> Seq<char> {
    match t {
        MenuType::Lunch => seq!['A', 'l', 'm', 'o', '\u{e7}', 'o'],
        MenuType::Dinner => seq!['J', 'a', 'n', 't', 'a', 'r'],
    }
}

impl MenuType {
    /// The label shown above the menus of this slot.
    pub fn to_string(&self) -> (r: String)
        ensures
            r@ == menu_type_label(*self),
    {
        let s = match self {
            MenuType::Dinner => "Jantar",
            MenuType::Lunch => "Almo\u{e7}o",
        };
        proof {
            reveal_strlit("Jantar");
            reveal_strlit("Almo\u{e7}o");
        }
        let r = s.to_owned();
        assert(r@ =~= menu_type_label(*self));
        r
    }
}

/// A day of the week.
#[derive(Debug, Clone, Copy, PartialEq, Eq, Structural)]
pub enum Weekday {
    Mon,
    Tue,
    Wed,
    Thu,
    Fri,
    Sat,
    Sun,
}

/// The weekday `n` days after Monday, for `n` in `0..7`.
pub open spec fn weekday_from_monday(n: int) -> Weekday {
    if n == 0 {
        Weekday::Mon
    } else if n == 1 {
        Weekday::Tue
    } else if n == 2 {
        Weekday::Wed
    } else if n == 3 {
        Weekday::Thu
    } else if n == 4 {
        Weekday::Fri
    } else if n == 5 {
        Weekday::Sat
    } else {
        Weekday::Sun
    }
}

/// The number of days from Monday to `w`.
pub open spec fn days_from_monday(w: Weekday) -> nat {
    match w {
        Weekday::Mon => 0,
        Weekday::Tue => 1,
        Weekday::Wed => 2,
        Weekday::Thu => 3,
        Weekday::Fri => 4,
        Weekday::Sat => 5,
        Weekday::Sun => 6,
    }
}

impl Weekday {
    /// The number of days from Monday to this day.
    pub fn num_days_from_monday(&self) -> (r: u32)
        ensures
            r == days_from_monday(*self),
    {
        match self {
            Weekday::Mon => 0,
            Weekday::Tue => 1,
            Weekday::Wed => 2,
            Weekday::Thu => 3,
            Weekday::Fri => 4,
            Weekday::Sat => 5,
            Weekday::Sun => 6,
        }
    }
}

/// The content upstream gives a meal slot where nothing is served.
pub open spec fn closed_marker() -> Seq<char> {
    seq!['F', 'e', 'c', 'h', 'a', 'd', 'o']
}

/// One meal as published upstream.
#[derive(Debug, Clone)]
pub struct Menu {
    /// What is served; the closed marker where nothing is.
    pub content: String,
    /// Lunch or dinner.
    pub menu_type: MenuType,
    /// The day it is served.
    pub weekday: Weekday,
    /// Energy in kcal, where upstream knows it.
    pub calorific_value: Option<usize>,
    /// The note for the week.
    pub observation: String,
}

/// A menu as plain values.
pub struct MenuView {
    pub content: Seq<char>,
    pub menu_type: MenuType,
    pub weekday: Weekday,
    pub calorific_value: Option<usize>,
    pub observation: Seq<char>,
}

impl View for Menu {
    type V = MenuView;

    open spec fn view(&self) -> MenuView {
        MenuView {
            content: self.content@,
            menu_type: self.menu_type,
            weekday: self.weekday,
            calorific_value: self.calorific_value,
            observation: self.observation@,
        }
    }
}

impl Menu {
    /// Whether the restaurant is closed for this meal.
    pub fn is_closed(&self) -> (r: bool)
        ensures
            r == (self.content@ == closed_marker()),
    {
        let marker = "Fechado".to_owned();
        proof {
            reveal_strlit("Fechado");
        }
        assert(marker@ =~= closed_marker());
        self.content == marker
    }

    /// A copy of this menu.
    pub fn duplicate(&self) -> (r: Menu)
        ensures
            r@ == self@,
    {
        Menu {
            content: self.content.clone(),
            menu_type: self.menu_type,
            weekday: self.weekday,
            calorific_value: self.calorific_value,
            observation: self.observation.clone(),
        }
    }
}

} // verus!

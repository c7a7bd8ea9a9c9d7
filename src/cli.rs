//! The choices behind the command line: which weekday a `-w` argument
//! names, which meal the time of day suggests, and what to show.

use vstd::prelude::*;
use crate::text::chars_of;
use crate::types::{weekday_from_monday, MenuType, Weekday};

verus! {

/// A time of day: whole seconds since midnight and the nanoseconds past them.
#[derive(Debug, Clone, Copy, PartialEq, Eq, Structural)]
pub struct TimeOfDay {
    pub seconds: u32,
    pub nanos: u32,
}

/// `a` comes before `b`: by whole seconds, then by the nanoseconds past them
/// (a leap second counts its nanoseconds past 1e9 within its second).
pub open spec fn time_before(a: TimeOfDay, b: TimeOfDay) -> bool {
    a.seconds < b.seconds || (a.seconds == b.seconds && a.nanos < b.nanos)
}

/// The full hour `h`.
pub open spec fn full_hour(h: u32) -> TimeOfDay {
    TimeOfDay { seconds: (h * 3600) as u32, nanos: 0 }
}

/// The meal that the time of day suggests: lunch after 6:00 and before
/// 14:00, dinner from 14:00 and before 20:00, none otherwise.
pub open spec fn meal_at(t: TimeOfDay) -> Option<MenuType> {
    if time_before(full_hour(6), t) && time_before(t, full_hour(14)) {
        Some(MenuType::Lunch)
    } else if !time_before(t, full_hour(14)) && time_before(t, full_hour(20)) {
        Some(MenuType::Dinner)
    } else {
        None
    }
}

impl TimeOfDay {
    /// The time `hour:min:sec`, where each is in range.
    pub fn from_hms(hour: u32, min: u32, sec: u32) -> (r: Option<TimeOfDay>)
        ensures
            r is Some <==> hour < 24 && min < 60 && sec < 60,
            r matches Some(t) ==> t.seconds == hour * 3600 + min * 60 + sec && t.nanos == 0,
    {
        if hour >= 24 || min >= 60 || sec >= 60 {
            return None;
        }
        Some(TimeOfDay { seconds: hour * 3600 + min * 60 + sec, nanos: 0 })
    }
}

/// The meal that the time of day suggests.
pub fn get_menu_type_by_datetime(time: TimeOfDay) -> (r: Option<MenuType>)
    ensures
        r == meal_at(time),
{
    let lunch_start: u32 = 6 * 3600;
    let lunch_end_and_dinner_start: u32 = 14 * 3600;
    let dinner_end: u32 = 20 * 3600;
    let after_lunch_start = time.seconds > lunch_start || (time.seconds == lunch_start
        && time.nanos > 0);
    if after_lunch_start && time.seconds < lunch_end_and_dinner_start {
        Some(MenuType::Lunch)
    } else if lunch_end_and_dinner_start <= time.seconds && time.seconds < dinner_end {
        Some(MenuType::Dinner)
    } else {
        None
    }
}

/// The weekday named by a `-w` argument: `1` is Monday through `7`, Sunday.
pub open spec fn weekday_argument(s: Seq<char>) -> Option<Weekday> {
    if s.len() == 1 && '1' <= s[0] && s[0] <= '7' {
        Some(weekday_from_monday(s[0] as int - '1' as int))
    } else {
        None
    }
}

/// The message for a `-w` argument that names no weekday.
pub open spec fn weekday_argument_error() -> Seq<char> {
    "O dia de semada \u{e9} um inteiro entre 1 e 7"@
}

/// Reads the weekday of a `-w` argument (Monday is 1, Sunday is 7).
pub fn parse_weekday(s: &str) -> (r: Result<Weekday, String>)
    ensures
        r matches Ok(w) ==> weekday_argument(s@) == Some(w),
        r matches Err(e) ==> weekday_argument(s@) is None && e@ == weekday_argument_error(),
{
    let v = chars_of(s);
    if v.len() == 1 {
        let c = v[0];
        if c == '1' {
            return Ok(Weekday::Mon);
        } else if c == '2' {
            return Ok(Weekday::Tue);
        } else if c == '3' {
            return Ok(Weekday::Wed);
        } else if c == '4' {
            return Ok(Weekday::Thu);
        } else if c == '5' {
            return Ok(Weekday::Fri);
        } else if c == '6' {
            return Ok(Weekday::Sat);
        } else if c == '7' {
            return Ok(Weekday::Sun);
        }
    }
    Err("O dia de semada \u{e9} um inteiro entre 1 e 7".to_owned())
}

/// The message for asking for one day and for the whole week at once.
pub open spec fn selection_error() -> Seq<char> {
    "Escolha mostrar um dia especifico (-w <WEEKDAY>) ou todos os dias (-E)"@
}

/// What to show, from the flags: the meal (`None` for both) and the day
/// (`None` for the whole week).
pub open spec fn selection(
    lunch: bool,
    dinner: bool,
    everything: bool,
    weekday: Option<Weekday>,
    now: TimeOfDay,
    today: Weekday,
) -> (Option<MenuType>, Option<Weekday>) {
    let menu_type = if lunch && !dinner {
        Some(MenuType::Lunch)
    } else if dinner && !lunch {
        Some(MenuType::Dinner)
    } else if !everything && !lunch && !dinner {
        meal_at(now)
    } else {
        None
    };
    let day = if everything {
        None
    } else {
        match weekday {
            Some(w) => Some(w),
            None => Some(today),
        }
    };
    (menu_type, day)
}

/// Decides what to show from the flags `-a` (lunch), `-j` (dinner), `-e`
/// (the whole week) and `-w` (a day), the time now and today's weekday.
/// Asking for a day together with the whole week is an error.
pub fn select_menus(
    lunch: bool,
    dinner: bool,
    everything: bool,
    weekday: Option<Weekday>,
    now: TimeOfDay,
    today: Weekday,
) -> (r: Result<(Option<MenuType>, Option<Weekday>), String>)
    ensures
        r is Err <==> weekday is Some && everything,
        r matches Ok(s) ==> s == selection(lunch, dinner, everything, weekday, now, today),
        r matches Err(e) ==> e@ == selection_error(),
{
    if weekday.is_some() && everything {
        let e = "Escolha mostrar um dia especifico (-w <WEEKDAY>) ou todos os dias (-E)".to_owned();
        return Err(e);
    }
    let menu_type = if lunch && !dinner {
        Some(MenuType::Lunch)
    } else if dinner && !lunch {
        Some(MenuType::Dinner)
    } else if !everything && !lunch && !dinner {
        get_menu_type_by_datetime(now)
    } else {
        None
    };
    let day = if everything {
        None
    } else {
        match weekday {
            Some(w) => Some(w),
            None => Some(today),
        }
    };
    Ok((menu_type, day))
}

} // verus!

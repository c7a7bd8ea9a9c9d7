//! Reading the legacy remoting replies: the reply is script text that carries
//! an array of flat `key:value` records. The records are cut out by markers,
//! split on the record separator, and each field is found by its key.

use vstd::prelude::*;
use vstd::string::StrSliceExecFns;
use crate::text::{
    chars_of, contains_seq, copy_range, find_from, first_from, is_white_space, last_before,
    lemma_first_from_at, lemma_first_from_occurs, lemma_last_before_at, lemma_last_before_occurs,
    lemma_replace_absent, lemma_split_skip_to, matches_at, occurs_at, parse_unsigned, replace_all,
    replace_chars, rfind, split_chars, split_from, split_on, string_of, trim_chars, trim_end,
    trim_start, trimmed, unsigned_value,
};
use crate::types::{days_from_monday, weekday_from_monday, Menu, MenuType, MenuView, Weekday};

verus! {

/// The record field that holds a restaurant's name.
pub open spec fn key_name_restaurant() -> Seq<char> {
    seq!['n', 'o', 'm', 'r', 't', 'n']
}

/// The record field that holds what a meal is.
pub open spec fn key_menu() -> Seq<char> {
    seq!['c', 'd', 'p', 'd', 'i', 'a']
}

/// The record field that holds the weekday code of a meal.
pub open spec fn key_weekday_menu() -> Seq<char> {
    seq!['d', 'i', 'a', 's', 'e', 'm', 'a', 'n', 'a']
}

/// The record field that holds the note for the week.
pub open spec fn key_obs_menu() -> Seq<char> {
    seq!['o', 'b', 's', 'c', 'd', 'p', 's', 'm', 'n']
}

/// The record field that holds the meal-type code.
pub open spec fn key_menu_type() -> Seq<char> {
    seq!['t', 'i', 'p', 'r', 'f', 'i']
}

/// The record field that holds the energy of a meal.
pub open spec fn key_calorific_value() -> Seq<char> {
    seq!['v', 'l', 'r', 'c', 'l', 'o', 'r', 'f', 'i']
}

/// The marker that opens the record array.
pub open spec fn objects_start() -> Seq<char> {
    seq!['[', '{']
}

/// The marker that closes the record array.
pub open spec fn objects_end() -> Seq<char> {
    seq!['}', ']']
}

/// What stands between two records.
pub open spec fn record_separator() -> Seq<char> {
    seq!['}', ',', '{']
}

/// The line-break tag of the upstream text.
pub open spec fn line_break_tag() -> Seq<char> {
    seq!['<', 'b', 'r', '>']
}

/// The escaped slash, with a space on each side, that upstream puts between dishes.
pub open spec fn slash_token() -> Seq<char> {
    seq![' ', '\\', '/', ' ']
}

/// What replaces the slash token.
pub open spec fn comma_token() -> Seq<char> {
    seq![',', ' ']
}

pub open spec fn opt_str_view(o: Option<&str>) -> Option<Seq<char>> {
    match o {
        Some(s) => Some(s@),
        None => None,
    }
}

pub open spec fn opt_string_view(o: Option<String>) -> Option<Seq<char>> {
    match o {
        Some(s) => Some(s@),
        None => None,
    }
}

pub open spec fn opt_menu_view(o: Option<Menu>) -> Option<MenuView> {
    match o {
        Some(m) => Some(m@),
        None => None,
    }
}

/// The text strictly between the first `[{` and the last `}]` of a reply,
/// where both are there and the first comes before the second.
pub open spec fn sliced_objects(body: Seq<char>) -> Option<Seq<char>> {
    match (first_from(body, objects_start(), 0), last_before(body, objects_end(), body.len() as int)) {
        (Some(a), Some(b)) => if a + 2 <= b {
            Some(body.subrange(a + 2, b))
        } else {
            None
        },
        _ => None,
    }
}

/// An occurrence of `marker` at `p` that has at least one character after it.
pub open spec fn key_viable_at(s: Seq<char>, marker: Seq<char>, p: int) -> bool {
    occurs_at(s, marker, p) && p + marker.len() < s.len()
}

/// The last viable occurrence of `marker` in `s` strictly before `i`.
pub open spec fn last_viable_before(s: Seq<char>, marker: Seq<char>, i: int) -> Option<int>
    decreases i,
{
    if i <= 0 {
        None
    } else if key_viable_at(s, marker, i - 1) {
        Some(i - 1)
    } else {
        last_viable_before(s, marker, i - 1)
    }
}

/// The first index at or after `i` that holds a comma, or the length of `s`.
pub open spec fn comma_or_end_from(s: Seq<char>, i: int) -> int
    decreases s.len() - i,
{
    if i >= s.len() {
        s.len() as int
    } else if s[i] == ',' {
        i
    } else {
        comma_or_end_from(s, i + 1)
    }
}

/// The raw value of `key` in a record: after the last `key:` that is followed
/// by something, one character and then everything up to the next comma or
/// the end.
pub open spec fn field_value(object: Seq<char>, key: Seq<char>) -> Option<Seq<char>> {
    let marker = key.push(':');
    match last_viable_before(object, marker, object.len() as int) {
        Some(p) => {
            let q = p + marker.len();
            Some(object.subrange(q, comma_or_end_from(object, q + 1)))
        },
        None => None,
    }
}

/// What `unescape::unescape` returns on `s`.
pub uninterp spec fn unescaped(s: Seq<char>) -> Option<Seq<char>>;

/// What `html_escape::decode_html_entities` returns on `s`.
pub uninterp spec fn html_decoded(s: Seq<char>) -> Seq<char>;

/// Backslash escapes decoded; text without a backslash is its own decoding.
pub open spec fn unescape_result(s: Seq<char>) -> Option<Seq<char>> {
    if !s.contains('\\') {
        Some(s)
    } else {
        unescaped(s)
    }
}

/// HTML entities decoded; text without an ampersand is its own decoding.
pub open spec fn entities_decoded(s: Seq<char>) -> Seq<char> {
    if !s.contains('&') {
        s
    } else {
        html_decoded(s)
    }
}

/// The display text of a quoted raw value: quotes stripped, line-break tags
/// turned into newlines, slash tokens into commas, trimmed, then backslash
/// escapes and HTML entities decoded.
pub open spec fn format_text(value: Seq<char>) -> Option<Seq<char>> {
    if value.len() < 2 {
        None
    } else {
        let inner = value.subrange(1, value.len() - 1);
        let cleaned = trimmed(
            replace_all(
                replace_all(inner, line_break_tag(), seq!['\n']),
                slash_token(),
                comma_token(),
            ),
        );
        match unescape_result(cleaned) {
            Some(u) => Some(entities_decoded(u)),
            None => None,
        }
    }
}

/// Relies on `unescape::unescape`: it decodes backslash escapes, fails on a
/// malformed one, and copies every other character unchanged.
#[verifier::external_body]
fn unescape_text(s: &str) -> (r: Option<String>)
    ensures
        s@.contains('\\') ==> opt_string_view(r) == unescaped(s@),
        !s@.contains('\\') ==> opt_string_view(r) == Some(s@),
{
    unescape::unescape(s)
}

/// Relies on `html_escape::decode_html_entities`: it decodes character
/// references, and hands back text that holds no `&` unchanged.
#[verifier::external_body]
fn decode_entities(s: &str) -> (r: String)
    ensures
        s@.contains('&') ==> r@ == html_decoded(s@),
        !s@.contains('&') ==> r@ == s@,
{
    html_escape::decode_html_entities(s).into_owned()
}

/// The text between the first `[{` and the last `}]` of a reply: the
/// records, still joined by their separators.
pub fn slice_dwr_objects(body: &String) -> (r: Option<&str>)
    ensures
        opt_str_view(r) == sliced_objects(body@),
{
    let text = body.as_str();
    let chars = chars_of(text);
    let open = chars_of("[{");
    let close = chars_of("}]");
    proof {
        reveal_strlit("[{");
        reveal_strlit("}]");
    }
    assert(open@ =~= objects_start());
    assert(close@ =~= objects_end());
    let start = find_from(chars.as_slice(), open.as_slice(), 0);
    let end = rfind(chars.as_slice(), close.as_slice());
    match (start, end) {
        (Some(a), Some(b)) => {
            proof {
                lemma_first_from_occurs(chars@, open@, 0);
                lemma_last_before_occurs(chars@, close@, chars@.len() as int);
            }
            if b >= 2 && a <= b - 2 {
                Some(text.substring_char(a + 2, b))
            } else {
                None
            }
        },
        _ => None,
    }
}

/// The raw value of `key` in the record `s`.
fn field_chars(s: &[char], key: &[char]) -> (r: Option<Vec<char>>)
    ensures
        match r {
            Some(v) => field_value(s@, key@) == Some(v@),
            None => field_value(s@, key@) is None,
        },
{
    let mut marker = copy_range(key, 0, key.len());
    marker.push(':');
    assert(key@.subrange(0, key@.len() as int) =~= key@);
    let ghost m = key@.push(':');
    assert(marker@ =~= m);
    let mut i: usize = s.len();
    while i > 0
        invariant
            i <= s@.len(),
            marker@ == m,
            m == key@.push(':'),
            last_viable_before(s@, m, s@.len() as int) == last_viable_before(s@, m, i as int),
        decreases i,
    {
        let p = i - 1;
        if matches_at(s, marker.as_slice(), p) && marker.len() < s.len() - p {
            let q = p + marker.len();
            let mut e = q + 1;
            while e < s.len() && s[e] != ','
                invariant
                    q + 1 <= e <= s@.len(),
                    comma_or_end_from(s@, q + 1) == comma_or_end_from(s@, e as int),
                decreases s@.len() - e,
            {
                e = e + 1;
            }
            let v = copy_range(s, q, e);
            assert(field_value(s@, key@) == Some(s@.subrange(q as int, e as int)));
            return Some(v);
        }
        i = p;
    }
    None
}

/// The raw, still escaped value of `key` in the record `object`.
pub fn get_value_in_dwr_object(object: &str, key: &str) -> (r: Option<String>)
    ensures
        opt_string_view(r) == field_value(object@, key@),
{
    let s = chars_of(object);
    let k = chars_of(key);
    match field_chars(s.as_slice(), k.as_slice()) {
        Some(v) => Some(string_of(v.as_slice())),
        None => None,
    }
}

/// The display text of a quoted raw value.
fn format_chars(value: &[char]) -> (r: Option<String>)
    ensures
        opt_string_view(r) == format_text(value@),
{
    if value.len() < 2 {
        return None;
    }
    let inner = copy_range(value, 1, value.len() - 1);
    let tag = chars_of("<br>");
    let newline = chars_of("\n");
    let slash = chars_of(" \\/ ");
    let comma = chars_of(", ");
    proof {
        reveal_strlit("<br>");
        reveal_strlit("\n");
        reveal_strlit(" \\/ ");
        reveal_strlit(", ");
    }
    assert(tag@ =~= line_break_tag());
    assert(newline@ =~= seq!['\n']);
    assert(slash@ =~= slash_token());
    assert(comma@ =~= comma_token());
    let broken = replace_chars(inner.as_slice(), tag.as_slice(), newline.as_slice());
    let joined = replace_chars(broken.as_slice(), slash.as_slice(), comma.as_slice());
    let cleaned = string_of(trim_chars(joined.as_slice()).as_slice());
    match unescape_text(cleaned.as_str()) {
        Some(u) => Some(decode_entities(u.as_str())),
        None => None,
    }
}

/// The display text of a quoted raw value: `None` where it is shorter than
/// its two quotes or holds a malformed escape.
pub fn format_text_dwr_value(value: String) -> (r: Option<String>)
    ensures
        opt_string_view(r) == format_text(value@),
{
    let v = chars_of(value.as_str());
    format_chars(v.as_slice())
}

/// `s` without leading double quotes.
pub open spec fn unquote_start(s: Seq<char>) -> Seq<char>
    decreases s.len(),
{
    if s.len() > 0 && s[0] == '"' {
        unquote_start(s.drop_first())
    } else {
        s
    }
}

/// `s` without trailing double quotes.
pub open spec fn unquote_end(s: Seq<char>) -> Seq<char>
    decreases s.len(),
{
    if s.len() > 0 && s.last() == '"' {
        unquote_end(s.drop_last())
    } else {
        s
    }
}

/// The meal type of an upstream code: `A` is lunch, `J` is dinner, both
/// with any number of double quotes around them.
pub open spec fn menu_type_code(value: Seq<char>) -> Option<MenuType> {
    let code = unquote_end(unquote_start(value));
    if code == seq!['A'] {
        Some(MenuType::Lunch)
    } else if code == seq!['J'] {
        Some(MenuType::Dinner)
    } else {
        None
    }
}

/// The weekday of an upstream day number, which counts from Sunday as 1.
pub open spec fn dwr_weekday(code: nat) -> Option<Weekday> {
    if code == 1 {
        Some(Weekday::Sun)
    } else if code == 2 {
        Some(Weekday::Mon)
    } else if code == 3 {
        Some(Weekday::Tue)
    } else if code == 4 {
        Some(Weekday::Wed)
    } else if code == 5 {
        Some(Weekday::Thu)
    } else if code == 6 {
        Some(Weekday::Fri)
    } else if code == 7 {
        Some(Weekday::Sat)
    } else {
        None
    }
}

/// The weekday written in an upstream field.
pub open spec fn weekday_code(value: Seq<char>) -> Option<Weekday> {
    match unsigned_value(value) {
        Some(n) => dwr_weekday(n),
        None => None,
    }
}

/// The energy written in an upstream field, where it fits in `usize`.
pub open spec fn calorie_code(value: Seq<char>) -> Option<usize> {
    match unsigned_value(value) {
        Some(n) => if n <= usize::MAX {
            Some(n as usize)
        } else {
            None
        },
        None => None,
    }
}

/// The menu held by one record, where every field it needs is there and reads.
pub open spec fn decode_menu(object: Seq<char>) -> Option<MenuView> {
    let content = match field_value(object, key_menu()) {
        Some(v) => format_text(v),
        None => None,
    };
    let menu_type = match field_value(object, key_menu_type()) {
        Some(v) => menu_type_code(v),
        None => None,
    };
    let weekday = match field_value(object, key_weekday_menu()) {
        Some(v) => weekday_code(v),
        None => None,
    };
    let calories = match field_value(object, key_calorific_value()) {
        Some(v) => calorie_code(v),
        None => None,
    };
    let observation = match field_value(object, key_obs_menu()) {
        Some(v) => format_text(v),
        None => None,
    };
    match (content, menu_type, weekday, calories, observation) {
        (Some(c), Some(t), Some(w), Some(k), Some(o)) => Some(
            MenuView {
                content: c,
                menu_type: t,
                weekday: w,
                calorific_value: if k == 0 {
                    None
                } else {
                    Some(k)
                },
                observation: o,
            },
        ),
        _ => None,
    }
}

/// The menus of the records `objects`, in order, leaving out those that do not decode.
pub open spec fn decode_menus(objects: Seq<Seq<char>>) -> Seq<MenuView>
    decreases objects.len(),
{
    if objects.len() == 0 {
        Seq::empty()
    } else {
        let rest = decode_menus(objects.drop_last());
        match decode_menu(objects.last()) {
            Some(m) => rest.push(m),
            None => rest,
        }
    }
}

/// The menus of a reply: `None` where it holds no record array.
pub open spec fn reply_menus(body: Seq<char>) -> Option<Seq<MenuView>> {
    match sliced_objects(body) {
        Some(objects) => Some(decode_menus(split_on(objects, record_separator()))),
        None => None,
    }
}

/// The restaurant name of a reply.
pub open spec fn reply_restaurant_name(body: Seq<char>) -> Option<Seq<char>> {
    match sliced_objects(body) {
        Some(objects) => match field_value(objects, key_name_restaurant()) {
            Some(v) => format_text(v),
            None => None,
        },
        None => None,
    }
}

/// Relies on chrono's `TryFrom<u8>` for `Weekday`: 0 is Monday through 6,
/// Sunday; anything larger is out of range.
#[verifier::external_body]
fn weekday_from_index(n: u8) -> (r: Option<Weekday>)
    ensures
        r == (if n < 7 {
            Some(weekday_from_monday(n as int))
        } else {
            None
        }),
{
    match chrono::Weekday::try_from(n) {
        Ok(chrono::Weekday::Mon) => Some(Weekday::Mon),
        Ok(chrono::Weekday::Tue) => Some(Weekday::Tue),
        Ok(chrono::Weekday::Wed) => Some(Weekday::Wed),
        Ok(chrono::Weekday::Thu) => Some(Weekday::Thu),
        Ok(chrono::Weekday::Fri) => Some(Weekday::Fri),
        Ok(chrono::Weekday::Sat) => Some(Weekday::Sat),
        Ok(chrono::Weekday::Sun) => Some(Weekday::Sun),
        Err(_) => None,
    }
}

fn menu_type_chars(value: &[char]) -> (r: Option<MenuType>)
    ensures
        r == menu_type_code(value@),
{
    let mut i: usize = 0;
    assert(value@.subrange(0, value@.len() as int) =~= value@);
    while i < value.len() && value[i] == '"'
        invariant
            i <= value@.len(),
            unquote_start(value@) == unquote_start(value@.subrange(i as int, value@.len() as int)),
        decreases value@.len() - i,
    {
        assert(value@.subrange(i as int, value@.len() as int).drop_first()
            =~= value@.subrange(i + 1, value@.len() as int));
        i = i + 1;
    }
    let mut j: usize = value.len();
    while j > i && value[j - 1] == '"'
        invariant
            i <= j <= value@.len(),
            unquote_end(value@.subrange(i as int, value@.len() as int)) == unquote_end(
                value@.subrange(i as int, j as int),
            ),
        decreases j,
    {
        assert(value@.subrange(i as int, j as int).drop_last() =~= value@.subrange(i as int, j - 1));
        j = j - 1;
    }
    let ghost code = value@.subrange(i as int, j as int);
    assert(unquote_end(unquote_start(value@)) == code);
    if j - i == 1 && value[i] == 'A' {
        assert(code =~= seq!['A']);
        Some(MenuType::Lunch)
    } else if j - i == 1 && value[i] == 'J' {
        assert(code =~= seq!['J']);
        Some(MenuType::Dinner)
    } else {
        assert(code != seq!['A'] && code != seq!['J']) by {
            if code.len() == 1 {
                assert(code[0] == value@[i as int]);
            }
        }
        None
    }
}

fn weekday_chars(value: &[char]) -> (r: Option<Weekday>)
    ensures
        r == weekday_code(value@),
{
    match parse_unsigned(value) {
        Some(n) => {
            if 1 <= n && n <= 7 {
                weekday_from_index(((n + 5) % 7) as u8)
            } else {
                None
            }
        },
        None => None,
    }
}

impl MenuType {
    /// The meal type of an upstream code: `"A"` is lunch, `"J"` is dinner.
    pub fn from_dwr(value: &str) -> (r: Option<MenuType>)
        ensures
            r == menu_type_code(value@),
    {
        let v = chars_of(value);
        menu_type_chars(v.as_slice())
    }
}

impl Weekday {
    /// The weekday of an upstream day number (Sunday is 1, Saturday is 7).
    pub fn from_dwr(value: &str) -> (r: Option<Weekday>)
        ensures
            r == weekday_code(value@),
    {
        let v = chars_of(value);
        weekday_chars(v.as_slice())
    }
}

fn menu_chars(object: &[char]) -> (r: Option<Menu>)
    ensures
        opt_menu_view(r) == decode_menu(object@),
{
    let k_menu = chars_of("cdpdia");
    let k_type = chars_of("tiprfi");
    let k_weekday = chars_of("diasemana");
    let k_calories = chars_of("vlrclorfi");
    let k_obs = chars_of("obscdpsmn");
    proof {
        reveal_strlit("cdpdia");
        reveal_strlit("tiprfi");
        reveal_strlit("diasemana");
        reveal_strlit("vlrclorfi");
        reveal_strlit("obscdpsmn");
    }
    assert(k_menu@ =~= key_menu());
    assert(k_type@ =~= key_menu_type());
    assert(k_weekday@ =~= key_weekday_menu());
    assert(k_calories@ =~= key_calorific_value());
    assert(k_obs@ =~= key_obs_menu());

    let content = match field_chars(object, k_menu.as_slice()) {
        Some(v) => format_chars(v.as_slice()),
        None => None,
    };
    let content = match content {
        Some(c) => c,
        None => return None,
    };
    let menu_type = match field_chars(object, k_type.as_slice()) {
        Some(v) => menu_type_chars(v.as_slice()),
        None => None,
    };
    let menu_type = match menu_type {
        Some(t) => t,
        None => return None,
    };
    let weekday = match field_chars(object, k_weekday.as_slice()) {
        Some(v) => weekday_chars(v.as_slice()),
        None => None,
    };
    let weekday = match weekday {
        Some(w) => w,
        None => return None,
    };
    let calories = match field_chars(object, k_calories.as_slice()) {
        Some(v) => parse_unsigned(v.as_slice()),
        None => None,
    };
    let calories = match calories {
        Some(k) => k,
        None => return None,
    };
    let observation = match field_chars(object, k_obs.as_slice()) {
        Some(v) => format_chars(v.as_slice()),
        None => None,
    };
    let observation = match observation {
        Some(o) => o,
        None => return None,
    };
    let calorific_value = if calories == 0 {
        None
    } else {
        Some(calories)
    };
    Some(Menu { content, menu_type, weekday, calorific_value, observation })
}

impl Menu {
    /// The menu held by one record: `None` where a field it needs is missing
    /// or does not read.
    pub fn from_dwr(object: &str) -> (r: Option<Menu>)
        ensures
            opt_menu_view(r) == decode_menu(object@),
    {
        let v = chars_of(object);
        menu_chars(v.as_slice())
    }
}

/// The menus of a menu reply, in record order, leaving out the records that
/// do not decode: `None` where the reply holds no record array.
pub fn menus_from_dwr_response(body: &String) -> (r: Option<Vec<Menu>>)
    ensures
        match r {
            Some(v) => reply_menus(body@) == Some(v@.map_values(|m: Menu| m@)),
            None => reply_menus(body@) is None,
        },
{
    let objects = match slice_dwr_objects(body) {
        Some(o) => o,
        None => return None,
    };
    let chars = chars_of(objects);
    let sep = chars_of("},{");
    proof {
        reveal_strlit("},{");
    }
    assert(sep@ =~= record_separator());
    let pieces = split_chars(chars.as_slice(), sep.as_slice());
    let ghost parts = pieces@.map_values(|v: Vec<char>| v@);
    let mut menus: Vec<Menu> = Vec::new();
    let mut i: usize = 0;
    assert(parts.subrange(0, 0) =~= Seq::<Seq<char>>::empty());
    assert(menus@.map_values(|m: Menu| m@) =~= Seq::<MenuView>::empty());
    while i < pieces.len()
        invariant
            i <= pieces@.len(),
            parts == pieces@.map_values(|v: Vec<char>| v@),
            menus@.map_values(|m: Menu| m@) == decode_menus(parts.subrange(0, i as int)),
        decreases pieces@.len() - i,
    {
        let ghost before = menus@.map_values(|m: Menu| m@);
        assert(parts.subrange(0, i + 1).drop_last() =~= parts.subrange(0, i as int));
        assert(parts.subrange(0, i + 1).last() == pieces@[i as int]@);
        if let Some(menu) = menu_chars(pieces[i].as_slice()) {
            menus.push(menu);
            assert(menus@.map_values(|m: Menu| m@) =~= before.push(menu@));
        }
        i = i + 1;
    }
    assert(parts.subrange(0, i as int) =~= parts);
    Some(menus)
}

/// The restaurant name of a name reply: `None` where the reply holds no
/// record array or no readable name.
pub fn restaurant_name_from_dwr_response(body: &String) -> (r: Option<String>)
    ensures
        opt_string_view(r) == reply_restaurant_name(body@),
{
    let objects = match slice_dwr_objects(body) {
        Some(o) => o,
        None => return None,
    };
    let chars = chars_of(objects);
    let key = chars_of("nomrtn");
    proof {
        reveal_strlit("nomrtn");
    }
    assert(key@ =~= key_name_restaurant());
    match field_chars(chars.as_slice(), key.as_slice()) {
        Some(v) => format_chars(v.as_slice()),
        None => None,
    }
}

/// The upstream day numbers 1 to 7 name seven different weekdays, Sunday
/// first, and land on the calendar's Monday-based numbering as `(n + 5) % 7`;
/// any other number, or a field that is not a number, names no weekday.
pub proof fn lemma_dwr_weekday_codes(a: nat, b: nat, value: Seq<char>)
    ensures
        1 <= a <= 7 ==> dwr_weekday(a) is Some,
        1 <= a <= 7 ==> days_from_monday(dwr_weekday(a)->0) == (a + 5) % 7,
        1 <= a <= 7 && 1 <= b <= 7 && a != b ==> dwr_weekday(a) != dwr_weekday(b),
        !(1 <= a <= 7) ==> dwr_weekday(a) is None,
        unsigned_value(value) is None ==> weekday_code(value) is None,
        dwr_weekday(1) == Some(Weekday::Sun),
        dwr_weekday(2) == Some(Weekday::Mon),
        dwr_weekday(7) == Some(Weekday::Sat),
{
}

/// Text with no backslash, no ampersand, no line-break tag and no white
/// space at either end.
pub open spec fn is_clean_text(t: Seq<char>) -> bool {
    &&& !t.contains('\\')
    &&& !t.contains('&')
    &&& !contains_seq(t, line_break_tag())
    &&& t.len() > 0 ==> !is_white_space(t[0]) && !is_white_space(t.last())
}

/// `t` between double quotes, as upstream writes text values.
pub open spec fn quoted(t: Seq<char>) -> Seq<char> {
    seq!['"'] + t + seq!['"']
}

/// Formatting quoted clean text gives the text back, so formatting the
/// quoted result once more gives the same result again.
pub proof fn lemma_format_clean_text(t: Seq<char>)
    requires
        is_clean_text(t),
    ensures
        format_text(quoted(t)) == Some(t),
        format_text(quoted(t)) matches Some(u) ==> format_text(quoted(u)) == format_text(quoted(t)),
{
    let v = quoted(t);
    assert(v.subrange(1, v.len() - 1) =~= t);
    lemma_replace_absent(t, line_break_tag(), seq!['\n']);
    assert(!contains_seq(t, slash_token())) by {
        assert forall|i: int| !occurs_at(t, slash_token(), i) by {
            if occurs_at(t, slash_token(), i) {
                assert(t.subrange(i, i + 4)[1] == '\\');
                assert(t[i + 1] == '\\');
            }
        }
    }
    lemma_replace_absent(t, slash_token(), comma_token());
    assert(trim_start(t) == t);
    assert(trim_end(t) == t);
}

/// The energy field of a record, read as a number.
pub open spec fn calorie_field(object: Seq<char>) -> Option<usize> {
    match field_value(object, key_calorific_value()) {
        Some(v) => calorie_code(v),
        None => None,
    }
}

/// A record whose meal-type code is neither `A` nor `J` decodes to nothing;
/// one that decodes with an energy field of zero has no energy, not zero.
pub proof fn lemma_decode_menu_codes(object: Seq<char>)
    ensures
        (match field_value(object, key_menu_type()) {
            Some(v) => menu_type_code(v) is None,
            None => true,
        }) ==> decode_menu(object) is None,
        decode_menu(object) matches Some(m) ==> (m.calorific_value is None <==> calorie_field(object)
            == Some(0usize)),
        decode_menu(object) matches Some(m) ==> m.calorific_value != Some(0usize),
{
}

/// A reply made of a prefix without `{`, then `[{`, two records joined by
/// the record separator, `}]` and a suffix without `}`, slices to exactly the
/// two joined records; where neither record holds `}`, splitting that gives
/// the two records back. A reply that lacks either marker slices to nothing.
pub proof fn lemma_slice_two_records(
    pre: Seq<char>,
    a: Seq<char>,
    b: Seq<char>,
    post: Seq<char>,
    body: Seq<char>,
)
    requires
        !pre.contains('{'),
        !post.contains('}'),
    ensures
        sliced_objects(pre + objects_start() + (a + record_separator() + b) + objects_end() + post)
            == Some(a + record_separator() + b),
        !a.contains('}') && !b.contains('}') ==> split_on(a + record_separator() + b, record_separator())
            == seq![a, b],
        !contains_seq(body, objects_start()) || !contains_seq(body, objects_end()) ==> sliced_objects(
            body,
        ) is None,
{
    let t = a + record_separator() + b;
    let s = pre + objects_start() + t + objects_end() + post;
    let k = pre.len() as int;
    let e = k + 2 + t.len();
    assert(s[k] == '[' && s[k + 1] == '{');
    assert(s[e] == '}' && s[e + 1] == ']');
    assert(s.subrange(k, k + 2) =~= objects_start());
    assert(s.subrange(e, e + 2) =~= objects_end());
    assert forall|j: int| 0 <= j < k implies !occurs_at(s, objects_start(), j) by {
        if occurs_at(s, objects_start(), j) {
            assert(s.subrange(j, j + 2)[1] == '{');
            assert(s[j + 1] == '{');
            if j + 1 < k {
                assert(pre[j + 1] == '{');
            }
        }
    }
    lemma_first_from_at(s, objects_start(), 0, k);
    assert forall|j: int| e < j < s.len() implies !occurs_at(s, objects_end(), j) by {
        if occurs_at(s, objects_end(), j) {
            assert(s.subrange(j, j + 2)[0] == '}');
            assert(s[j] == '}');
            if j > e + 1 {
                assert(post[j - e - 2] == '}');
            }
        }
    }
    lemma_last_before_at(s, objects_end(), s.len() as int, e);
    assert(s.subrange(k + 2, e) =~= t);

    if !a.contains('}') && !b.contains('}') {
        let sep = record_separator();
        let n = a.len() as int;
        assert forall|j: int| 0 <= j < n implies !occurs_at(t, sep, j) by {
            if occurs_at(t, sep, j) {
                assert(t.subrange(j, j + 3)[0] == '}');
                assert(t[j] == '}');
                assert(a[j] == '}');
            }
        }
        lemma_split_skip_to(t, sep, 0, 0, n);
        assert(t.subrange(n, n + 3) =~= sep);
        assert(t.subrange(0, n) =~= a);
        assert forall|j: int| n + 3 <= j < t.len() implies !occurs_at(t, sep, j) by {
            if occurs_at(t, sep, j) {
                assert(t.subrange(j, j + 3)[0] == '}');
                assert(t[j] == '}');
                assert(b[j - n - 3] == '}');
            }
        }
        lemma_split_skip_to(t, sep, n + 3, n + 3, t.len() as int);
        assert(t.subrange(n + 3, t.len() as int) =~= b);
        assert(split_from(t, sep, n + 3, t.len() as int) == seq![b]);
        assert(seq![a] + seq![b] =~= seq![a, b]);
    }

    lemma_first_from_occurs(body, objects_start(), 0);
    lemma_last_before_occurs(body, objects_end(), body.len() as int);
}

} // verus!

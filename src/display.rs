//! The text shown for one menu: the closed marker alone, or the dishes one
//! per line, the energy where known, and the note for the week.

use vstd::prelude::*;
use crate::text::{chars_of, replace_all, replace_chars, string_of};
use crate::types::Menu;

verus! {

/// The decimal digits of `n`, without leading zeros.
pub open spec fn decimal_text(n: nat) -> Seq<char>
    decreases n,
{
    if n < 10 {
        seq![digit_char(n)]
    } else {
        decimal_text(n / 10).push(digit_char(n % 10))
    }
}

pub open spec fn digit_char(d: nat) -> char {
    if d == 0 {
        '0'
    } else if d == 1 {
        '1'
    } else if d == 2 {
        '2'
    } else if d == 3 {
        '3'
    } else if d == 4 {
        '4'
    } else if d == 5 {
        '5'
    } else if d == 6 {
        '6'
    } else if d == 7 {
        '7'
    } else if d == 8 {
        '8'
    } else {
        '9'
    }
}

/// The line of a closed meal slot.
pub open spec fn closed_line() -> Seq<char> {
    "   \u{2718} Fechado\n"@
}

/// What starts each dish line.
pub open spec fn dish_prefix() -> Seq<char> {
    "\n   \u{27a4}  "@
}

/// The text shown for a menu, ending with an empty line.
pub open spec fn menu_text_of(
    closed: bool,
    content: Seq<char>,
    calorific_value: Option<usize>,
    observation: Seq<char>,
) -> Seq<char> {
    if closed {
        closed_line() + seq!['\n']
    } else {
        let dishes = dish_prefix() + replace_all(content, seq!['\n'], dish_prefix()) + seq!['\n'];
        let energy = match calorific_value {
            Some(n) => "\n     Valor energ\u{e9}tico: "@ + decimal_text(n as nat) + " kcal\n"@,
            None => Seq::empty(),
        };
        dishes + energy + "\n### Observa\u{e7}\u{e3}o: "@ + observation + " ###\n"@ + seq!['\n']
    }
}

/// The decimal digits of `n`.
pub fn decimal_string(n: usize) -> (r: Vec<char>)
    ensures
        r@ == decimal_text(n as nat),
    decreases n,
{
    let d = n % 10;
    let c = if d == 0 {
        '0'
    } else if d == 1 {
        '1'
    } else if d == 2 {
        '2'
    } else if d == 3 {
        '3'
    } else if d == 4 {
        '4'
    } else if d == 5 {
        '5'
    } else if d == 6 {
        '6'
    } else if d == 7 {
        '7'
    } else if d == 8 {
        '8'
    } else {
        '9'
    };
    if n < 10 {
        let mut r: Vec<char> = Vec::new();
        r.push(c);
        assert(r@ =~= seq![digit_char(n as nat)]);
        r
    } else {
        let mut r = decimal_string(n / 10);
        r.push(c);
        r
    }
}

fn append(r: &mut Vec<char>, s: &[char])
    ensures
        final(r)@ == old(r)@ + s@,
{
    let ghost r0 = r@;
    let mut i: usize = 0;
    while i < s.len()
        invariant
            i <= s@.len(),
            r@ == r0 + s@.subrange(0, i as int),
        decreases s@.len() - i,
    {
        r.push(s[i]);
        i = i + 1;
        assert(r@ =~= r0 + s@.subrange(0, i as int));
    }
    assert(s@.subrange(0, s@.len() as int) =~= s@);
}

/// The text shown for a menu: the closed marker alone where the restaurant
/// is closed; else each dish on a line of its own, the energy where known,
/// and the note for the week. It ends with an empty line.
pub fn menu_text(menu: &Menu) -> (r: String)
    ensures
        r@ == menu_text_of(
            menu.content@ == crate::types::closed_marker(),
            menu.content@,
            menu.calorific_value,
            menu.observation@,
        ),
{
    let closed = menu.is_closed();
    let closed_text = chars_of("   \u{2718} Fechado\n");
    let newline = chars_of("\n");
    let prefix = chars_of("\n   \u{27a4}  ");
    let energy_start = chars_of("\n     Valor energ\u{e9}tico: ");
    let energy_end = chars_of(" kcal\n");
    let note_start = chars_of("\n### Observa\u{e7}\u{e3}o: ");
    let note_end = chars_of(" ###\n");
    proof {
        reveal_strlit("\n");
    }
    assert(newline@ =~= seq!['\n']);
    let mut r: Vec<char> = Vec::new();
    if closed {
        append(&mut r, closed_text.as_slice());
        append(&mut r, newline.as_slice());
        assert(r@ =~= closed_line() + seq!['\n']);
        return string_of(r.as_slice());
    }
    let content = chars_of(menu.content.as_str());
    let dishes = replace_chars(content.as_slice(), newline.as_slice(), prefix.as_slice());
    append(&mut r, prefix.as_slice());
    append(&mut r, dishes.as_slice());
    append(&mut r, newline.as_slice());
    if let Some(n) = menu.calorific_value {
        let digits = decimal_string(n);
        append(&mut r, energy_start.as_slice());
        append(&mut r, digits.as_slice());
        append(&mut r, energy_end.as_slice());
    }
    let observation = chars_of(menu.observation.as_str());
    append(&mut r, note_start.as_slice());
    append(&mut r, observation.as_slice());
    append(&mut r, note_end.as_slice());
    append(&mut r, newline.as_slice());
    assert(r@ =~= menu_text_of(false, menu.content@, menu.calorific_value, menu.observation@));
    string_of(r.as_slice())
}

} // verus!

//! Food preferences: a food name, optionally limited to some restaurants,
//! matched against the lines of a menu.

use vstd::prelude::*;
use crate::text::{chars_of, contains_chars, contains_seq};

verus! {

/// What `str::to_lowercase` returns on `s`.
pub uninterp spec fn lower_of(s: Seq<char>) -> Seq<char>;

/// Relies on `str::to_lowercase`: the result depends on the characters alone.
#[verifier::external_body]
fn lowercase(s: &str) -> (r: String)
    ensures
        r@ == lower_of(s@),
{
    s.to_lowercase()
}

/// A food preference: a lowercase food name, and the restaurants it is
/// limited to (all of them where `None`).
#[derive(Debug)]
pub struct FoodConfig {
    pub name: String,
    pub restaurants: Option<Vec<u64>>,
}

/// Whether a preference limited to `restaurants` applies to `id`.
pub open spec fn restaurant_allowed(restaurants: Option<Seq<u64>>, id: u64) -> bool {
    match restaurants {
        Some(ids) => ids.contains(id),
        None => true,
    }
}

impl FoodConfig {
    /// The restaurants of this preference, as plain values.
    pub open spec fn restaurant_ids(&self) -> Option<Seq<u64>> {
        match self.restaurants {
            Some(v) => Some(v@),
            None => None,
        }
    }

    /// A preference for `name` in `restaurants`.
    pub fn new(name: String, restaurants: Option<Vec<u64>>) -> (r: Self)
        ensures
            r.name == name,
            r.restaurants == restaurants,
    {
        FoodConfig { name, restaurants }
    }

    /// Whether this preference applies to an already lowercased line of the
    /// menu of restaurant `restaurant_id`: the restaurant is allowed and the
    /// line contains the food name.
    pub fn check_lowered_line(&self, lowered: &str, restaurant_id: u64) -> (r: bool)
        ensures
            r == (restaurant_allowed(self.restaurant_ids(), restaurant_id) && contains_seq(
                lowered@,
                self.name@,
            )),
    {
        let restaurant_match = match &self.restaurants {
            Some(ids) => {
                let mut found = false;
                let mut i: usize = 0;
                while i < ids.len()
                    invariant
                        i <= ids@.len(),
                        found == exists|k: int| 0 <= k < i && ids@[k] == restaurant_id,
                    decreases ids@.len() - i,
                {
                    if ids[i] == restaurant_id {
                        found = true;
                    }
                    i = i + 1;
                }
                found
            },
            None => true,
        };
        if !restaurant_match {
            return false;
        }
        let line = chars_of(lowered);
        let name = chars_of(self.name.as_str());
        contains_chars(line.as_slice(), name.as_slice())
    }

    /// Whether this preference applies to a line of the menu of restaurant
    /// `restaurant_id`: the restaurant is allowed and the lowercased line
    /// contains the food name.
    pub fn check_line(&self, line: &str, restaurant_id: u64) -> (r: bool)
        ensures
            r == (restaurant_allowed(self.restaurant_ids(), restaurant_id) && contains_seq(
                lower_of(line@),
                self.name@,
            )),
    {
        let lowered = lowercase(line);
        self.check_lowered_line(lowered.as_str(), restaurant_id)
    }
}

} // verus!

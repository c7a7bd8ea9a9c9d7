//! The per-run cache of fetched menus. A restaurant is fetched on its first
//! lookup; every later lookup of it, for any day and meal, is answered from
//! memory. A failed fetch stores nothing, so the next lookup fetches again.

use std::collections::HashMap;
use vstd::prelude::*;
use crate::types::{Menu, MenuType, MenuView, RestaurantID, Weekday};

verus! {

/// What the cache holds of one restaurant: its name and its menus.
pub type CachedView = (Seq<char>, Seq<MenuView>);

/// The first menu at or after index `i` served on `w` for `t`.
pub open spec fn first_match_from(menus: Seq<MenuView>, t: MenuType, w: Weekday, i: int) -> Option<
    MenuView,
>
    decreases menus.len() - i,
{
    if i < 0 || i >= menus.len() {
        None
    } else if menus[i].weekday == w && menus[i].menu_type == t {
        Some(menus[i])
    } else {
        first_match_from(menus, t, w, i + 1)
    }
}

/// The first menu served on `w` for `t`.
pub open spec fn first_match(menus: Seq<MenuView>, t: MenuType, w: Weekday) -> Option<MenuView> {
    first_match_from(menus, t, w, 0)
}

/// The answer that a cached restaurant gives for `t` on `w`.
pub open spec fn cached_answer(entry: CachedView, t: MenuType, w: Weekday) -> Option<
    (Seq<char>, MenuView),
> {
    match first_match(entry.1, t, w) {
        Some(m) => Some((entry.0, m)),
        None => None,
    }
}

/// The outcome of a lookup, as plain values.
pub enum LookupView {
    Fetch,
    Ready(Option<(Seq<char>, MenuView)>),
}

/// What a lookup of `id` gives on a cache holding `cache`.
pub open spec fn lookup_outcome(
    cache: Map<RestaurantID, CachedView>,
    id: RestaurantID,
    t: MenuType,
    w: Weekday,
) -> LookupView {
    if cache.contains_key(id) {
        LookupView::Ready(cached_answer(cache[id], t, w))
    } else {
        LookupView::Fetch
    }
}

/// What the cache holds after a search whose fetches gave `menus` and `name`.
pub open spec fn after_search(
    cache: Map<RestaurantID, CachedView>,
    id: RestaurantID,
    menus: Option<Seq<MenuView>>,
    name: Option<Seq<char>>,
) -> Map<RestaurantID, CachedView> {
    match (menus, name) {
        (Some(m), Some(n)) => cache.insert(id, (n, m)),
        _ => cache,
    }
}

/// The outcome of a lookup.
pub enum Lookup {
    /// The restaurant is not cached: fetch it, record the search, then look up again.
    Fetch,
    /// The answer from memory: the name and the menu, or `None` where no menu matches.
    Ready(Option<(String, Menu)>),
}

impl View for Lookup {
    type V = LookupView;

    open spec fn view(&self) -> LookupView {
        match self {
            Lookup::Fetch => LookupView::Fetch,
            Lookup::Ready(Some((n, m))) => LookupView::Ready(Some((n@, m@))),
            Lookup::Ready(None) => LookupView::Ready(None),
        }
    }
}

/// Menus and names of the restaurants fetched so far.
#[derive(Debug)]
pub struct MenusCache {
    menus: HashMap<RestaurantID, Vec<Menu>>,
    names: HashMap<RestaurantID, String>,
}

impl View for MenusCache {
    type V = Map<RestaurantID, CachedView>;

    closed spec fn view(&self) -> Map<RestaurantID, CachedView> {
        Map::new(
            |id: RestaurantID| self.menus@.contains_key(id),
            |id: RestaurantID| (self.names@[id]@, self.menus@[id]@.map_values(|m: Menu| m@)),
        )
    }
}

impl MenusCache {
    /// Both maps know the same restaurants.
    pub closed spec fn wf(&self) -> bool {
        self.menus@.dom() == self.names@.dom()
    }

    /// An empty cache.
    pub fn new() -> (r: Self)
        ensures
            r.wf(),
            r@ == Map::<RestaurantID, CachedView>::empty(),
    {
        let r = MenusCache { names: HashMap::new(), menus: HashMap::new() };
        assert(r@ =~= Map::<RestaurantID, CachedView>::empty());
        assert(r.menus@.dom() =~= r.names@.dom());
        r
    }

    /// Whether `id` has been fetched with success.
    pub fn contains(&self, id: RestaurantID) -> (r: bool)
        requires
            self.wf(),
        ensures
            r == self@.contains_key(id),
    {
        self.menus.contains_key(&id)
    }

    /// Records the outcome of a search for `id`: the decoded menus and the
    /// decoded name. Only a search where both came back is kept.
    pub fn record_search(&mut self, id: RestaurantID, menus: Option<Vec<Menu>>, name: Option<String>)
        requires
            old(self).wf(),
        ensures
            final(self).wf(),
            final(self)@ == after_search(
                old(self)@,
                id,
                match menus {
                    Some(v) => Some(v@.map_values(|m: Menu| m@)),
                    None => None,
                },
                match name {
                    Some(n) => Some(n@),
                    None => None,
                },
            ),
    {
        if let Some(menus) = menus {
            if let Some(name) = name {
                let ghost before = self@;
                self.menus.insert(id, menus);
                self.names.insert(id, name);
                assert(self.menus@.dom() =~= self.names@.dom());
                assert(self@ =~= before.insert(id, (name@, menus@.map_values(|m: Menu| m@))));
            }
        }
    }

    /// Looks `id` up for the meal `menu_type` on `weekday`: `Fetch` where the
    /// restaurant is not cached, else the answer from memory.
    pub fn lookup(&self, id: RestaurantID, menu_type: MenuType, weekday: Weekday) -> (r: Lookup)
        requires
            self.wf(),
        ensures
            r@ == lookup_outcome(self@, id, menu_type, weekday),
    {
        let menus = match self.menus.get(&id) {
            Some(m) => m,
            None => return Lookup::Fetch,
        };
        let name = match self.names.get(&id) {
            Some(n) => n,
            None => return Lookup::Fetch,
        };
        let ghost entry = self@[id];
        assert(entry.1 == menus@.map_values(|m: Menu| m@));
        assert(entry.0 == name@);
        let mut i: usize = 0;
        while i < menus.len()
            invariant
                i <= menus@.len(),
                entry.1 == menus@.map_values(|m: Menu| m@),
                entry == self@[id],
                entry.0 == name@,
                self@.contains_key(id),
                first_match(entry.1, menu_type, weekday) == first_match_from(
                    entry.1,
                    menu_type,
                    weekday,
                    i as int,
                ),
            decreases menus@.len() - i,
        {
            let m = &menus[i];
            if m.weekday == weekday && m.menu_type == menu_type {
                let n = name.clone();
                let d = m.duplicate();
                assert(entry.1[i as int] == m@);
                assert(first_match(entry.1, menu_type, weekday) == Some(m@));
                return Lookup::Ready(Some((n, d)));
            }
            i = i + 1;
        }
        Lookup::Ready(None)
    }
}

/// Once a search for `id` has succeeded, every lookup of `id`, for any meal
/// and day, is answered from memory and never asks for a fetch; where no menu
/// matches the answer is absence. A restaurant never searched with success
/// asks for a fetch.
pub proof fn lemma_lookup_after_search(
    cache: Map<RestaurantID, CachedView>,
    id: RestaurantID,
    menus: Seq<MenuView>,
    name: Seq<char>,
    t: MenuType,
    w: Weekday,
)
    ensures
        !cache.contains_key(id) ==> lookup_outcome(cache, id, t, w) == LookupView::Fetch,
        lookup_outcome(after_search(cache, id, Some(menus), Some(name)), id, t, w)
            == LookupView::Ready(cached_answer((name, menus), t, w)),
        first_match(menus, t, w) is None ==> lookup_outcome(
            after_search(cache, id, Some(menus), Some(name)),
            id,
            t,
            w,
        ) == LookupView::Ready(None),
{
}

/// A search that failed, in either fetch, leaves the cache as it was, so the
/// next lookup of that restaurant asks for a fetch again.
pub proof fn lemma_failed_search_keeps_cache(
    cache: Map<RestaurantID, CachedView>,
    id: RestaurantID,
    menus: Option<Seq<MenuView>>,
    name: Option<Seq<char>>,
    t: MenuType,
    w: Weekday,
)
    requires
        menus is None || name is None,
    ensures
        after_search(cache, id, menus, name) == cache,
        !cache.contains_key(id) ==> lookup_outcome(after_search(cache, id, menus, name), id, t, w)
            == LookupView::Fetch,
{
}

} // verus!

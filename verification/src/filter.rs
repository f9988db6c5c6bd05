//! Filters that decide which items of the store are visible.

use vstd::prelude::*;
use vstd::std_specs::hash::spec_hash_map_iter;
use vstd::std_specs::iter::IteratorSpec;
use std::collections::HashMap;
use crate::content::FeedItem;

verus! {

/// Whether `text` ends with `suffix`.
pub open spec fn has_suffix(text: Seq<char>, suffix: Seq<char>) -> bool {
    suffix.len() <= text.len() && text.subrange(text.len() - suffix.len(), text.len() as int)
        == suffix
}

/// `str::ends_with` with a string as the pattern: whether `suffix` matches the
/// end of `text`.
#[verifier::external_body]
fn ends_with(text: &str, suffix: &str) -> (found: bool)
    ensures
        found == has_suffix(text@, suffix@),
{
    text.ends_with(suffix)
}

/// A condition an item has to meet to be visible.
#[derive(Debug, Clone, Copy, PartialEq, Eq, Structural)]
pub enum Filter {
    /// Only items that carry their own text or link to a picture.
    OnlyRenderable,
}

/// Whether an item carries its own text or links to a picture.
pub open spec fn renderable(item: FeedItem) -> bool {
    ||| item.selftext is Some
    ||| has_suffix(item.url@, ".jpg"@)
    ||| has_suffix(item.url@, ".png"@)
    ||| has_suffix(item.url@, ".jpeg"@)
}

impl Filter {
    /// Whether the filter lets `item` through.
    pub open spec fn admits(self, item: FeedItem) -> bool {
        match self {
            Filter::OnlyRenderable => renderable(item),
        }
    }

    /// Whether the filter lets `item` through.
    pub fn accepts(&self, item: &FeedItem) -> (admitted: bool)
        ensures
            admitted == self.admits(*item),
    {
        match self {
            Filter::OnlyRenderable => {
                item.selftext.is_some() || ends_with(item.url.as_str(), ".jpg") || ends_with(
                    item.url.as_str(),
                    ".png",
                ) || ends_with(item.url.as_str(), ".jpeg")
            },
        }
    }
}

/// The filters in force, each under a number of its own.
pub struct Filters {
    entries: HashMap<u32, Filter>,
}

impl View for Filters {
    type V = Map<u32, Filter>;

    closed spec fn view(&self) -> Map<u32, Filter> {
        self.entries@
    }
}

/// Whether every filter of `filters` lets `item` through.
pub open spec fn all_admit(filters: Map<u32, Filter>, item: FeedItem) -> bool {
    forall|key: u32| filters.contains_key(key) ==> (#[trigger] filters[key]).admits(item)
}

impl Filters {
    /// No filters at all.
    pub fn new() -> (filters: Filters)
        ensures
            filters@ == Map::<u32, Filter>::empty(),
    {
        Filters { entries: HashMap::new() }
    }

    /// Puts `filter` in force under `key`, in place of what stood there.
    pub fn insert(&mut self, key: u32, filter: Filter)
        ensures
            final(self)@ == old(self)@.insert(key, filter),
    {
        broadcast use vstd::std_specs::hash::group_hash_axioms;

        let _ = self.entries.insert(key, filter);
    }

    /// Lifts the filter that is in force under `key`, if there is one.
    pub fn remove(&mut self, key: u32)
        ensures
            final(self)@ == old(self)@.remove(key),
    {
        broadcast use vstd::std_specs::hash::group_hash_axioms;

        let _ = self.entries.remove(&key);
    }

    /// Whether every filter in force lets `item` through.
    pub fn accepts(&self, item: &FeedItem) -> (admitted: bool)
        ensures
            admitted == all_admit(self@, *item),
    {
        broadcast use vstd::std_specs::hash::group_hash_axioms;

        let ghost all = spec_hash_map_iter(&self.entries).remaining();
        let mut admitted: bool = true;
        for entry in walk: self.entries.iter()
            invariant
                walk.seq() == all,
                all == spec_hash_map_iter(&self.entries).remaining(),
                admitted == (forall|i: int|
                    0 <= i < walk.index() ==> (*(#[trigger] all[i]).1).admits(*item)),
        {
            if !entry.1.accepts(item) {
                admitted = false;
            }
        }
        proof {
            if admitted {
                assert forall|key: u32| self@.contains_key(key) implies (#[trigger]
                    self@[key]).admits(*item) by {
                    assert(all.contains((&key, &self@[key])));
                    let i = choose|i: int| 0 <= i < all.len() && all[i] == (&key, &self@[key]);
                    assert((*all[i].1).admits(*item));
                }
            } else {
                let i = choose|i: int|
                    0 <= i < all.len() && !(*(#[trigger] all[i]).1).admits(*item);
                assert(self@.contains_key(*all[i].0));
                assert(self@[*all[i].0] == *all[i].1);
            }
        }
        admitted
    }
}

} // verus!

//! Page locks: for each page that is being edited, the token it was
//! locked with.

use vstd::prelude::*;
use vstd::hash_map::StringHashMap;

verus! {

/// The page locks: for each locked page, its lock token.
pub struct PageMap {
    locks: StringHashMap<String>,
}

impl View for PageMap {
    type V = Map<Seq<char>, Seq<char>>;

    closed spec fn view(&self) -> Map<Seq<char>, Seq<char>> {
        self.locks@.map_values(|t: String| t@)
    }
}

impl PageMap {
    /// No page is locked.
    pub fn new() -> (r: PageMap)
        ensures
            r@ == Map::<Seq<char>, Seq<char>>::empty(),
    {
        let r = PageMap { locks: StringHashMap::new() };
        assert(r@ =~= Map::<Seq<char>, Seq<char>>::empty());
        r
    }

    /// The token that `page` is locked with, if it is locked.
    pub fn get(&self, page: &str) -> (r: Option<&String>)
        ensures
            match r {
                Some(t) => self@.contains_key(page@) && t@ == self@[page@],
                None => !self@.contains_key(page@),
            },
    {
        self.locks.get(page)
    }

    /// Locks `page` with `lock`, replacing any token it had.
    pub fn insert(&mut self, page: &str, lock: &str)
        ensures
            final(self)@ == old(self)@.insert(page@, lock@),
    {
        let ghost before = self.locks@;
        self.locks.insert(page.to_owned(), lock.to_owned());
        assert(self@ =~= before.map_values(|t: String| t@).insert(page@, lock@));
    }

    /// Unlocks `page`.
    pub fn remove(&mut self, page: &str)
        ensures
            final(self)@ == old(self)@.remove(page@),
    {
        let ghost before = self.locks@;
        self.locks.remove(page);
        assert(self@ =~= before.map_values(|t: String| t@).remove(page@));
    }

    /// Whether `page` is locked.
    pub fn contains_key(&self, page: &str) -> (r: bool)
        ensures
            r == self@.contains_key(page@),
    {
        self.locks.contains_key(page)
    }
}

} // verus!

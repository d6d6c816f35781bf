//! The textures made from cursor shapes, kept by cursor handle so that each
//! shape is decoded and uploaded once.

use vstd::prelude::*;
use std::collections::HashMap;

verus! {

broadcast use vstd::std_specs::hash::group_hash_axioms;

/// A cursor texture with the size and hotspot of its image.
pub struct CachedCursor<T> {
    pub texture: T,
    pub width: u32,
    pub height: u32,
    pub hotspot_x: i32,
    pub hotspot_y: i32,
}

/// Cursor textures by cursor handle.
pub struct CursorCache<T> {
    entries: HashMap<isize, CachedCursor<T>>,
}

impl<T> View for CursorCache<T> {
    type V = Map<isize, CachedCursor<T>>;

    closed spec fn view(&self) -> Map<isize, CachedCursor<T>> {
        self.entries@
    }
}

impl<T> CursorCache<T> {
    /// An empty cache.
    pub fn new() -> (r: CursorCache<T>)
        ensures
            r@ == Map::<isize, CachedCursor<T>>::empty(),
    {
        CursorCache { entries: HashMap::new() }
    }

    /// Whether the shape with this handle has a texture already; a shape
    /// without one is decoded, and its texture made, before it is drawn.
    pub fn contains(&self, handle: isize) -> (r: bool)
        ensures
            r == self@.contains_key(handle),
    {
        self.entries.contains_key(&handle)
    }

    /// Keeps `entry` as the texture of the shape with this handle.
    pub fn insert(&mut self, handle: isize, entry: CachedCursor<T>)
        ensures
            final(self)@ == old(self)@.insert(handle, entry),
    {
        self.entries.insert(handle, entry);
    }

    /// The texture kept for the shape with this handle, if any.
    pub fn get(&self, handle: isize) -> (r: Option<&CachedCursor<T>>)
        ensures
            match r {
                Some(e) => self@.contains_key(handle) && *e == self@[handle],
                None => !self@.contains_key(handle),
            },
    {
        self.entries.get(&handle)
    }
}

} // verus!

//! The tiles of a snapshot, by their coordinates.

use vstd::prelude::*;
use crate::model::{Rgb, Tile, TileOffset};

verus! {

/// The tiles of a tile cache, each under its coordinate. No coordinate occurs
/// twice; the tiles stand in the order in which their coordinates first came.
#[derive(Debug)]
pub struct TileMap {
    entries: Vec<(TileOffset, Tile)>,
}

/// Whether no coordinate occurs twice among `entries`.
pub open spec fn distinct_keys(entries: Seq<(TileOffset, Tile)>) -> bool {
    forall|i: int, j: int| 0 <= i < j < entries.len() ==> entries[i].0 != entries[j].0
}

/// Whether `key` occurs among `entries`.
pub open spec fn has_key(entries: Seq<(TileOffset, Tile)>, key: TileOffset) -> bool {
    exists|i: int| 0 <= i < entries.len() && entries[i].0 == key
}

impl View for TileMap {
    type V = Seq<(TileOffset, Tile)>;

    /// The coordinates with their tiles, in map order.
    closed spec fn view(&self) -> Seq<(TileOffset, Tile)> {
        self.entries@
    }
}

impl TileMap {
    #[verifier::type_invariant]
    closed spec fn well_formed(&self) -> bool {
        distinct_keys(self.entries@)
    }

    /// A map without tiles.
    pub fn new() -> (map: TileMap)
        ensures
            map@ == Seq::<(TileOffset, Tile)>::empty(),
    {
        TileMap { entries: Vec::new() }
    }

    /// The number of tiles. Their coordinates differ from one another.
    pub fn len(&self) -> (n: usize)
        ensures
            n == self@.len(),
            distinct_keys(self@),
    {
        proof {
            use_type_invariant(self);
        }
        self.entries.len()
    }

    /// The coordinate at a position of the map order.
    pub fn key_at(&self, i: usize) -> (key: TileOffset)
        requires
            i < self@.len(),
        ensures
            key == self@[i as int].0,
    {
        self.entries[i].0
    }

    /// The tile at a position of the map order.
    pub fn tile_at(&self, i: usize) -> (tile: &Tile)
        requires
            i < self@.len(),
        ensures
            *tile == self@[i as int].1,
    {
        &self.entries[i].1
    }

    /// The position of `key` in the map order, if the map has it. No other
    /// position holds that coordinate.
    pub fn position(&self, key: TileOffset) -> (found: Option<usize>)
        ensures
            match found {
                Some(i) => i < self@.len() && self@[i as int].0 == key && forall|j: int|
                    0 <= j < self@.len() && j != i ==> self@[j].0 != key,
                None => !has_key(self@, key),
            },
    {
        proof {
            use_type_invariant(self);
        }
        let mut i: usize = 0;
        while i < self.entries.len()
            invariant
                i <= self.entries@.len(),
                distinct_keys(self.entries@),
                forall|j: int| 0 <= j < i ==> self.entries@[j].0 != key,
            decreases self.entries.len() - i,
        {
            let k = self.entries[i].0;
            if k.x == key.x && k.y == key.y {
                return Some(i);
            }
            i += 1;
        }
        None
    }

    /// The tile under `key`, if the map has it.
    pub fn get(&self, key: TileOffset) -> (found: Option<&Tile>)
        ensures
            match found {
                Some(tile) => exists|i: int|
                    0 <= i < self@.len() && self@[i] == (key, *tile),
                None => !has_key(self@, key),
            },
    {
        match self.position(key) {
            Some(i) => {
                assert(self@[i as int] == (key, self@[i as int].1));
                Some(&self.entries[i].1)
            },
            None => None,
        }
    }

    /// Puts `tile` under `key`: in the place of the tile that was there, or
    /// else behind the last tile.
    pub fn insert(&mut self, key: TileOffset, tile: Tile)
        ensures
            forall|i: int|
                0 <= i < old(self)@.len() && old(self)@[i].0 == key ==> final(self)@ == old(
                    self,
                )@.update(i, (key, tile)),
            !has_key(old(self)@, key) ==> final(self)@ == old(self)@.push((key, tile)),
    {
        let found = self.position(key);
        let mut taken = TileMap { entries: Vec::new() };
        std::mem::swap(self, &mut taken);
        proof {
            use_type_invariant(&taken);
        }
        let mut entries = taken.entries;
        match found {
            Some(i) => {
                entries.set(i, (key, tile));
            },
            None => {
                entries.push((key, tile));
            },
        }
        *self = TileMap { entries };
    }
}

/// The tile cache of one snapshot.
#[derive(Debug)]
pub struct TileCacheInstance {
    /// The index by which a snapshot is paired with the one before it.
    pub slice: usize,
    pub tiles: TileMap,
    pub background_color: Option<Rgb>,
}

/// One snapshot.
#[derive(Debug)]
pub struct Slice {
    pub tile_cache: TileCacheInstance,
}

} // verus!

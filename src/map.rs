use std::collections::HashMap;
use vstd::prelude::*;

use crate::common::Id;
use crate::sprite::Sprite;

verus! {

broadcast use vstd::std_specs::hash::group_hash_axioms;

pub type Coord = u16;

/// A position on a map: column, then row.
pub type XY = (Coord, Coord);

/// One layer of a map: rows of sprite codes.
#[derive(Debug)]
pub struct EncodedMapLayer {
    pub layer: Vec<Vec<Id>>,
}

impl EncodedMapLayer {
    pub fn new() -> (r: EncodedMapLayer)
        ensures
            r.layer@.len() == 0,
    {
        EncodedMapLayer { layer: Vec::new() }
    }
}

/// A tile map: its size, its origin, its layers of sprite codes, and what each code draws.
#[derive(Debug)]
pub struct TileMap {
    pub dim: XY,
    pub origin: XY,
    pub layers: Vec<EncodedMapLayer>,
    pub sprite_code: HashMap<Id, Sprite>,
}

impl TileMap {
    /// The sprite that `code` stands for.
    pub fn decode_sprite(&self, code: Id) -> (r: Option<&Sprite>)
        ensures
            match r {
                Some(s) => self.sprite_code@.contains_key(code) && *s == self.sprite_code@[code],
                None => !self.sprite_code@.contains_key(code),
            },
    {
        self.sprite_code.get(&code)
    }

    /// The sprite at column `i`, row `j` of layer `k`; none outside the map or for an unknown code.
    pub fn sprite_at_loc(&self, i: usize, j: usize, k: usize) -> (r: Option<&Sprite>)
        ensures
            match r {
                Some(s) => {
                    &&& k < self.layers@.len()
                    &&& j < self.layers@[k as int].layer@.len()
                    &&& i < self.layers@[k as int].layer@[j as int]@.len()
                    &&& self.sprite_code@.contains_key(self.layers@[k as int].layer@[j as int]@[i as int])
                    &&& *s == self.sprite_code@[self.layers@[k as int].layer@[j as int]@[i as int]]
                },
                None => !(k < self.layers@.len() && j < self.layers@[k as int].layer@.len() && i < self.layers@[k as int].layer@[j as int]@.len()
                    && self.sprite_code@.contains_key(self.layers@[k as int].layer@[j as int]@[i as int])),
            },
    {
        if k >= self.layers.len() || j >= self.layers[k].layer.len() || i >= self.layers[k].layer[j].len() {
            return None;
        }
        let code = self.layers[k].layer[j][i];
        self.sprite_code.get(&code)
    }
}

} // verus!

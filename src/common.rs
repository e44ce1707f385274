use vstd::prelude::*;

verus! {

/// Identifier of a record in one of the lookup tables.
pub type Id = u64;

/// Human-readable name of a character, pool, stat or menu entry.
pub type Name = String;

/// A prefix-notation arithmetic expression, tokens separated by single spaces.
pub type Formula = String;

/// Who decides a character's actions.
#[derive(Debug, Clone, Copy, PartialEq, Eq)]
pub enum PlayerType {
    NPC,
    PC,
}

/// Either a reference into a lookup table or a record given in place.
#[derive(Debug, Clone, PartialEq)]
pub enum IndexedOrLiteral<T> {
    Index(Id),
    Literal(T),
}

/// The amount of a hit: a fixed number, or a formula evaluated against an actor and a target.
#[derive(Debug, Clone, PartialEq)]
pub enum HitAmt {
    Constant(i32),
    Formula(Formula),
}

/// A signed change to one named pool: positive amounts damage, negative amounts heal.
#[derive(Debug, Clone, PartialEq)]
pub struct Hit {
    pub pool: Name,
    pub amount: HitAmt,
}

pub type Hits = Vec<Hit>;

impl HitAmt {
    /// An identical amount.
    pub fn copy(&self) -> (r: HitAmt)
        ensures
            r == *self,
    {
        match self {
            HitAmt::Constant(v) => HitAmt::Constant(*v),
            HitAmt::Formula(f) => HitAmt::Formula(f.clone()),
        }
    }
}

impl Hit {
    /// An identical hit.
    pub fn copy(&self) -> (r: Hit)
        ensures
            r == *self,
    {
        Hit { pool: self.pool.clone(), amount: self.amount.copy() }
    }
}

/// An element-wise identical list of hits.
pub fn copy_hits(hits: &Vec<Hit>) -> (r: Vec<Hit>)
    ensures
        r@ == hits@,
{
    let mut r: Vec<Hit> = Vec::new();
    let mut i: usize = 0;
    while i < hits.len()
        invariant
            i <= hits@.len(),
            r@ == hits@.subrange(0, i as int),
        decreases hits@.len() - i,
    {
        r.push(hits[i].copy());
        i = i + 1;
        assert(r@ =~= hits@.subrange(0, i as int));
    }
    assert(r@ =~= hits@);
    r
}

/// Anything that can take a hit to one of its pools.
pub trait Target: Sized {
    /// Whether it has the pool named `pool`.
    spec fn has_pool(&self, pool: Seq<char>) -> bool;

    /// `after` is this value once pool `pool` has taken a hit of `amount`.
    spec fn hit_applied(&self, after: Self, pool: Seq<char>, amount: i32) -> bool;

    /// Applies `amount` to the named pool and reports the amount. Hitting a pool that is not
    /// there is a content error, left out here.
    fn hit_pool(&mut self, pool: &Name, amount: i32) -> (r: i32)
        requires
            old(self).has_pool(pool@),
        ensures
            r == amount,
            old(self).hit_applied(*final(self), pool@, amount),
    ;
}

/// An abstract key press, decoded by the user interface.
#[derive(Debug, Clone, Copy, PartialEq, Eq, Structural)]
pub enum Key {
    Char(char),
    Left,
    Right,
    Up,
    Down,
    Esc,
    Other,
}

} // verus!

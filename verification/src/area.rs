use vstd::prelude::*;

verus! {

/// Magnitude up to which this library guarantees overflow-free area
/// arithmetic. Areas from the engine are far below this.
pub const AREA_LIMIT: i64 = 0x2000_0000_0000_0000;

/// Surface-area aggregate of one node, decomposed six ways.
///
/// Components are fixed-point integers in the unit the caller chose when the
/// engine's floating-point output was converted; the library never rescales
/// them.
#[derive(Debug, Clone, Copy, PartialEq, Eq, Structural)]
pub struct NodeArea {
    pub total: i64,
    pub main_chain: i64,
    pub side_chain: i64,
    pub polar: i64,
    pub apolar: i64,
    pub unknown: i64,
}

/// Every component within the magnitude the library does arithmetic on.
pub open spec fn area_bounded(a: NodeArea) -> bool {
    &&& -AREA_LIMIT <= a.total <= AREA_LIMIT
    &&& -AREA_LIMIT <= a.main_chain <= AREA_LIMIT
    &&& -AREA_LIMIT <= a.side_chain <= AREA_LIMIT
    &&& -AREA_LIMIT <= a.polar <= AREA_LIMIT
    &&& -AREA_LIMIT <= a.apolar <= AREA_LIMIT
    &&& -AREA_LIMIT <= a.unknown <= AREA_LIMIT
}

impl Default for NodeArea {
    /// The all-zero aggregate.
    fn default() -> (r: NodeArea)
        ensures
            r == (NodeArea { total: 0, main_chain: 0, side_chain: 0, polar: 0, apolar: 0, unknown: 0 }),
    {
        NodeArea { total: 0, main_chain: 0, side_chain: 0, polar: 0, apolar: 0, unknown: 0 }
    }
}

impl NodeArea {
    /// Builds an aggregate from its six components.
    pub fn new(total: i64, main_chain: i64, side_chain: i64, polar: i64, apolar: i64, unknown: i64) -> (r: NodeArea)
        ensures
            r == (NodeArea { total, main_chain, side_chain, polar, apolar, unknown }),
    {
        NodeArea { total, main_chain, side_chain, polar, apolar, unknown }
    }

    /// The total area of the node.
    pub fn total(&self) -> (r: i64)
        ensures
            r == self.total,
    {
        self.total
    }

    /// The main-chain (backbone) share.
    pub fn main_chain(&self) -> (r: i64)
        ensures
            r == self.main_chain,
    {
        self.main_chain
    }

    /// The side-chain share.
    pub fn side_chain(&self) -> (r: i64)
        ensures
            r == self.side_chain,
    {
        self.side_chain
    }

    /// The polar share.
    pub fn polar(&self) -> (r: i64)
        ensures
            r == self.polar,
    {
        self.polar
    }

    /// The apolar share.
    pub fn apolar(&self) -> (r: i64)
        ensures
            r == self.apolar,
    {
        self.apolar
    }

    /// The share of atoms the engine could not classify.
    pub fn unknown(&self) -> (r: i64)
        ensures
            r == self.unknown,
    {
        self.unknown
    }

    /// Component-wise sum.
    pub fn add(&self, rhs: &NodeArea) -> (r: NodeArea)
        requires
            area_bounded(*self),
            area_bounded(*rhs),
        ensures
            r.total == self.total + rhs.total,
            r.main_chain == self.main_chain + rhs.main_chain,
            r.side_chain == self.side_chain + rhs.side_chain,
            r.polar == self.polar + rhs.polar,
            r.apolar == self.apolar + rhs.apolar,
            r.unknown == self.unknown + rhs.unknown,
    {
        NodeArea {
            total: self.total + rhs.total,
            main_chain: self.main_chain + rhs.main_chain,
            side_chain: self.side_chain + rhs.side_chain,
            polar: self.polar + rhs.polar,
            apolar: self.apolar + rhs.apolar,
            unknown: self.unknown + rhs.unknown,
        }
    }

    /// Component-wise difference.
    pub fn sub(&self, rhs: &NodeArea) -> (r: NodeArea)
        requires
            area_bounded(*self),
            area_bounded(*rhs),
        ensures
            r.total == self.total - rhs.total,
            r.main_chain == self.main_chain - rhs.main_chain,
            r.side_chain == self.side_chain - rhs.side_chain,
            r.polar == self.polar - rhs.polar,
            r.apolar == self.apolar - rhs.apolar,
            r.unknown == self.unknown - rhs.unknown,
    {
        NodeArea {
            total: self.total - rhs.total,
            main_chain: self.main_chain - rhs.main_chain,
            side_chain: self.side_chain - rhs.side_chain,
            polar: self.polar - rhs.polar,
            apolar: self.apolar - rhs.apolar,
            unknown: self.unknown - rhs.unknown,
        }
    }

    /// Whether every component is within the magnitude the library does
    /// arithmetic on.
    pub fn in_bounds(&self) -> (r: bool)
        ensures
            r == area_bounded(*self),
    {
        -AREA_LIMIT <= self.total && self.total <= AREA_LIMIT && -AREA_LIMIT <= self.main_chain
            && self.main_chain <= AREA_LIMIT && -AREA_LIMIT <= self.side_chain && self.side_chain
            <= AREA_LIMIT && -AREA_LIMIT <= self.polar && self.polar <= AREA_LIMIT && -AREA_LIMIT
            <= self.apolar && self.apolar <= AREA_LIMIT && -AREA_LIMIT <= self.unknown
            && self.unknown <= AREA_LIMIT
    }

    /// The absolute value of the total component.
    pub fn total_abs(&self) -> (r: i64)
        requires
            self.total > i64::MIN,
        ensures
            r == if self.total < 0 {
                -self.total
            } else {
                self.total as int
            },
    {
        if self.total < 0 {
            -self.total
        } else {
            self.total
        }
    }
}

} // verus!

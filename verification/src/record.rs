//! Points, records and the entries that an index is made of.

use vstd::prelude::*;
use crate::binary64::Binary64;

verus! {

/// A place on the globe: latitude and longitude in decimal degrees.
#[derive(Clone, Copy, Debug, PartialEq, Eq, Structural)]
pub struct Point {
    pub lat: Binary64,
    pub lon: Binary64,
}

/// One record of the data set: the coordinate list of its geometry, longitude
/// first and latitude second, beside a payload that the library never reads.
///
/// A record is known by its identity, the place it has in the sequence of
/// records that an index was built from.
#[derive(Debug)]
pub struct Record<T> {
    pub coordinates: Vec<Binary64>,
    pub payload: T,
}

/// What a spatial tree stores for one record: where it lies and which it is.
#[derive(Clone, Copy, Debug, PartialEq, Eq, Structural)]
pub struct IndexEntry {
    pub point: Point,
    pub identity: u64,
}

impl<T> Record<T> {
    /// A record can be indexed when its coordinate list names a point, that
    /// is, when it holds two values or more.
    pub open spec fn indexable(self) -> bool {
        self.coordinates@.len() >= 2
    }

    /// The point of an indexable record.
    pub open spec fn located_at(self) -> Point
        recommends
            self.indexable(),
    {
        Point { lat: self.coordinates@[1], lon: self.coordinates@[0] }
    }

    /// The point that the coordinate list names, if it names one.
    pub fn point(&self) -> (p: Option<Point>)
        ensures
            self.indexable() ==> p == Some(self.located_at()),
            !self.indexable() ==> p.is_none(),
    {
        if self.coordinates.len() >= 2 {
            Some(Point { lat: self.coordinates[1], lon: self.coordinates[0] })
        } else {
            None
        }
    }
}

} // verus!

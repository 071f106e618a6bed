//! The earlier family of space traits, built around `Topology` and `Merge`.
use vstd::prelude::*;

verus! {

/// All elements in a quasi metric space should implement this trait.
///
/// If the type also implements `Topology`, `distance(to)` should equal
/// `self.shortest_path(to).length()`.
pub trait QuasiMetric<T>: Sized {
    /// The distance from `self` to `to`. An implementation in unverified
    /// code defines it by the same body as `distance`.
    spec fn dist(self, to: Self) -> T;

    /// Returns the length of the shortest path between the two points.
    fn distance(self, to: Self) -> (r: T)
        ensures
            r == Self::dist(self, to),
    ;
}

/// Trait for elements having a length.
pub trait Length<T>: Sized {
    /// The length of the element. An implementation in unverified code
    /// defines it by the same body as `length`.
    spec fn measure(&self) -> T;

    /// Returns the length of the element.
    fn length(&self) -> (r: T)
        ensures
            r == self.measure(),
    ;
}

/// The merge trait is used to merge two elements together.
///
/// Often this is a linear interpolation between two elements; for
/// quaternions it is a spherical linear interpolation.
pub trait Merge<T>: Sized {
    /// The element between `self` and `to` selected by `factor`. An
    /// implementation in unverified code defines it by the same body as
    /// `merge`.
    spec fn merged(self, to: Self, factor: T) -> Self;

    /// Merges `self` and `to` using `factor`: a point on (one of) the
    /// shortest paths between the two. A factor of zero gives `self`, a
    /// factor of one gives `to`.
    fn merge(self, to: Self, factor: T) -> (r: Self)
        ensures
            r == Self::merged(self, to, factor),
    ;
}

/// Trait for structures containing two elements which can be merged together.
pub trait Connected<P, T>: Sized {
    /// The point of the structure selected by `factor`. An implementation
    /// in unverified code defines it by the same body as `contract`.
    spec fn point_at(&self, factor: T) -> P;

    /// Returns the merged point of the start point and end point inside
    /// `self` with weight `factor`.
    fn contract(&self, factor: T) -> (r: P)
        ensures
            r == self.point_at(factor),
    ;
}

/// Main trait for topological spaces.
pub trait Topology: Sized {
    /// The type of paths in this space. Usually `[Self; 2]`.
    type Path;

    /// The shortest path from `self` to `to`. An implementation in
    /// unverified code defines it by the same body as `shortest_path`.
    spec fn path_between(self, to: Self) -> Self::Path;

    /// Returns the shortest path between `self` as start point and `to` as
    /// end point.
    fn shortest_path(self, to: Self) -> (p: Self::Path)
        ensures
            p == Self::path_between(self, to),
    ;
}

} // verus!

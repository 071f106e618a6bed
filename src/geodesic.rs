use vstd::prelude::*;

verus! {

/// Trait for connected paths.
pub trait Connected<P, R>: Sized {
    /// The point of the path selected by `factor`. An implementation in
    /// unverified code defines it by the same body as `contract`.
    spec fn point_at(&self, factor: R) -> P;

    /// Returns a point between the start point and end point. `factor`
    /// decides how close the point is to the start and end point: a factor
    /// of zero should give the start point, a factor of one the end point.
    fn contract(&self, factor: R) -> (r: P)
        ensures
            r == self.point_at(factor),
    ;
}

/// Main trait for topological spaces.
///
/// The associated type `Path` must implement `Connected` and if possible
/// should implement `Length`.
pub trait Geodesic<R>: Sized {
    /// The type of paths in this space. Usually `[Self; 2]`.
    type Path: Connected<Self, R>;

    /// The shortest path from `self` to `to`. An implementation in
    /// unverified code defines it by the same body as `shortest_path`.
    spec fn path_between(self, to: Self) -> Self::Path;

    /// Returns the shortest path between `self` as start point and `to` as
    /// end point.
    fn shortest_path(self, to: Self) -> (p: Self::Path)
        ensures
            p == Self::path_between(self, to),
    ;

    /// Merges `self` and `to` using `factor`: the point at `factor` on the
    /// shortest path from `self` to `to`.
    fn lerp(self, to: Self, factor: R) -> (r: Self)
        ensures
            r == Self::path_between(self, to).point_at(factor),
    {
        self.shortest_path(to).contract(factor)
    }
}

/// The point at `factor` on the shortest path from `a` to `b`: what
/// `a.lerp(b, factor)` returns.
pub open spec fn interpolated<R, T: Geodesic<R>>(a: T, b: T, factor: R) -> T {
    T::path_between(a, b).point_at(factor)
}

/// Trait for elements having a length or norm.
pub trait Length<R>: Sized {
    /// The length of the element. An implementation in unverified code
    /// defines it by the same body as `length`.
    spec fn measure(&self) -> R;

    /// Returns the length of the element. This should always be non-negative.
    fn length(&self) -> (r: R)
        ensures
            r == self.measure(),
    ;
}

/// All elements in a quasi metric space should implement this trait.
///
/// For a type with a `Geodesic` whose paths have a `Length`, the distance is
/// the length of the shortest path.
pub trait QuasiMetric<R>: Sized {
    /// The distance from `self` to `to`. An implementation in unverified
    /// code defines it by the same body as `distance`.
    spec fn dist(self, to: Self) -> R;

    /// Returns the length of the shortest path between the two points.
    fn distance(self, to: Self) -> (r: R)
        ensures
            r == Self::dist(self, to),
    ;
}

impl<R, T> QuasiMetric<R> for T where T: Geodesic<R>, T::Path: Length<R> {
    open spec fn dist(self, to: Self) -> R {
        T::path_between(self, to).measure()
    }

    fn distance(self, to: Self) -> (r: R) {
        self.shortest_path(to).length()
    }
}

impl<R, S, T> Connected<(S, T), R> for (S::Path, T::Path) where
    S: Geodesic<R>,
    T: Geodesic<R>,
    R: Copy,
 {
    open spec fn point_at(&self, factor: R) -> (S, T) {
        (self.0.point_at(factor), self.1.point_at(factor))
    }

    fn contract(&self, factor: R) -> (r: (S, T)) {
        (self.0.contract(factor), self.1.contract(factor))
    }
}

impl<R, S, T> Geodesic<R> for (S, T) where S: Geodesic<R>, T: Geodesic<R>, R: Copy {
    type Path = (S::Path, T::Path);

    open spec fn path_between(self, to: Self) -> Self::Path {
        (S::path_between(self.0, to.0), T::path_between(self.1, to.1))
    }

    fn shortest_path(self, to: Self) -> (p: Self::Path) {
        (self.0.shortest_path(to.0), self.1.shortest_path(to.1))
    }
}

impl<R, T> Connected<[T; 2], R> for [T::Path; 2] where T: Geodesic<R>, R: Copy {
    open spec fn point_at(&self, factor: R) -> [T; 2] {
        [self[0].point_at(factor), self[1].point_at(factor)]
    }

    fn contract(&self, factor: R) -> (r: [T; 2]) {
        [self[0].contract(factor), self[1].contract(factor)]
    }
}

impl<R, T> Geodesic<R> for [T; 2] where T: Geodesic<R> + Copy, R: Copy {
    type Path = [T::Path; 2];

    open spec fn path_between(self, to: Self) -> Self::Path {
        [T::path_between(self[0], to[0]), T::path_between(self[1], to[1])]
    }

    fn shortest_path(self, to: Self) -> (p: Self::Path) {
        [self[0].shortest_path(to[0]), self[1].shortest_path(to[1])]
    }
}

/// Interpolating between two pairs interpolates each component with the
/// same factor.
pub proof fn lemma_pair_lerp<R, S, T>(a: (S, T), b: (S, T), factor: R) where
    S: Geodesic<R>,
    T: Geodesic<R>,
    R: Copy,

    ensures
        interpolated(a, b, factor) == (interpolated(a.0, b.0, factor), interpolated(
            a.1,
            b.1,
            factor,
        )),
{
}

/// Interpolating between two two-element arrays interpolates each element
/// with the same factor.
pub proof fn lemma_array_lerp<R, T>(a: [T; 2], b: [T; 2], factor: R) where
    T: Geodesic<R> + Copy,
    R: Copy,

    ensures
        interpolated(a, b, factor) == [
            interpolated(a[0], b[0], factor),
            interpolated(a[1], b[1], factor),
        ],
{
}

/// A factor that gives each component's start point (or end point) gives
/// the pair's start point (or end point).
pub proof fn lemma_pair_keeps_endpoint<R, S, T>(a: (S, T), b: (S, T), factor: R, p: (S, T)) where
    S: Geodesic<R>,
    T: Geodesic<R>,
    R: Copy,

    requires
        interpolated(a.0, b.0, factor) == p.0,
        interpolated(a.1, b.1, factor) == p.1,
    ensures
        interpolated(a, b, factor) == p,
{
    lemma_pair_lerp(a, b, factor);
}

/// A factor that gives each element's start point (or end point) gives the
/// array's start point (or end point).
pub proof fn lemma_array_keeps_endpoint<R, T>(a: [T; 2], b: [T; 2], factor: R, p: [T; 2]) where
    T: Geodesic<R> + Copy,
    R: Copy,

    requires
        interpolated(a[0], b[0], factor) == p[0],
        interpolated(a[1], b[1], factor) == p[1],
    ensures
        interpolated(a, b, factor) == p,
{
    lemma_array_lerp(a, b, factor);
    assert(p =~= [p[0], p[1]]);
}

/// The distance between two points is the length of the shortest path
/// between them.
pub proof fn lemma_distance_is_path_length<R, T>(a: T, b: T) where
    T: Geodesic<R>,
    T::Path: Length<R>,

    ensures
        <T as QuasiMetric<R>>::dist(a, b) == T::path_between(a, b).measure(),
{
}

} // verus!

use vstd::prelude::*;

verus! {

/// A two-component vector.
#[derive(Copy, Clone, Debug, PartialEq, Eq, Structural)]
pub struct Vector2<T> {
    pub x: T,
    pub y: T,
}

impl<T: Copy> Vector2<T> {
    #[inline(always)]
    pub fn new(x: T, y: T) -> (r: Vector2<T>)
        ensures
            r.x == x,
            r.y == y,
    {
        Vector2 { x, y }
    }

    pub fn to_array(&self) -> (r: [T; 2])
        ensures
            r[0] == self.x,
            r[1] == self.y,
    {
        [self.x, self.y]
    }
}

/// A three-component vector.
#[derive(Copy, Clone, Debug, PartialEq, Eq, Structural)]
pub struct Vector3<T> {
    pub x: T,
    pub y: T,
    pub z: T,
}

/// A two-dimensional axis-aligned bounding box.
#[derive(Copy, Clone, Debug, PartialEq, Eq, Structural)]
pub struct AABB2<T> {
    pub min: Vector2<T>,
    pub max: Vector2<T>,
}

impl<T: Copy> AABB2<T> {
    pub fn with_min_max(min_x: T, min_y: T, max_x: T, max_y: T) -> (r: AABB2<T>)
        ensures
            r.min.x == min_x,
            r.min.y == min_y,
            r.max.x == max_x,
            r.max.y == max_y,
    {
        AABB2 { min: Vector2 { x: min_x, y: min_y }, max: Vector2 { x: max_x, y: max_y } }
    }
}

impl AABB2<i64> {
    /// Whether the box contains the point: minimum inclusive, maximum
    /// exclusive, on both axes.
    #[inline]
    pub fn contains(&self, point: Vector2<i64>) -> (r: bool)
        ensures
            r == (self.min.x <= point.x < self.max.x && self.min.y <= point.y < self.max.y),
    {
        self.min.x <= point.x && point.x < self.max.x && self.min.y <= point.y && point.y
            < self.max.y
    }

    /// Whether the two boxes overlap, borders included.
    pub fn intersects(&self, other: &AABB2<i64>) -> (r: bool)
        ensures
            r == (self.min.x <= other.max.x && self.max.x >= other.min.x && self.min.y
                <= other.max.y && self.max.y >= other.min.y),
    {
        (self.min.x <= other.max.x && self.max.x >= other.min.x) && (self.min.y <= other.max.y
            && self.max.y >= other.min.y)
    }
}

/// A three-dimensional axis-aligned bounding box.
#[derive(Copy, Clone, Debug, PartialEq, Eq, Structural)]
pub struct AABB3<S> {
    pub min: Vector3<S>,
    pub max: Vector3<S>,
}

impl AABB3<i64> {
    /// An ordered box whose extents fit the coordinate type.
    pub open spec fn wf(&self) -> bool {
        &&& self.min.x <= self.max.x && self.max.x - self.min.x <= i64::MAX
        &&& self.min.y <= self.max.y && self.max.y - self.min.y <= i64::MAX
        &&& self.min.z <= self.max.z && self.max.z - self.min.z <= i64::MAX
    }

    /// The box from the origin with the given extents, returned unvalidated:
    /// it is well-formed exactly when no extent is negative.
    pub fn from_origin(width: i64, height: i64, depth: i64) -> (r: AABB3<i64>)
        ensures
            r.min == (Vector3 { x: 0i64, y: 0i64, z: 0i64 }),
            r.max == (Vector3 { x: width, y: height, z: depth }),
            r.wf() <==> (width >= 0 && height >= 0 && depth >= 0),
    {
        AABB3 {
            min: Vector3 { x: 0, y: 0, z: 0 },
            max: Vector3 { x: width, y: height, z: depth },
        }
    }

    pub fn with_min_max(xs: (i64, i64), ys: (i64, i64), zs: (i64, i64)) -> (r: AABB3<i64>)
        ensures
            r.min == (Vector3 { x: xs.0, y: ys.0, z: zs.0 }),
            r.max == (Vector3 { x: xs.1, y: ys.1, z: zs.1 }),
    {
        AABB3 {
            min: Vector3 { x: xs.0, y: ys.0, z: zs.0 },
            max: Vector3 { x: xs.1, y: ys.1, z: zs.1 },
        }
    }

    pub fn width(&self) -> (r: i64)
        requires
            self.wf(),
        ensures
            r == self.max.x - self.min.x,
    {
        self.max.x - self.min.x
    }

    pub fn height(&self) -> (r: i64)
        requires
            self.wf(),
        ensures
            r == self.max.y - self.min.y,
    {
        self.max.y - self.min.y
    }

    pub fn depth(&self) -> (r: i64)
        requires
            self.wf(),
        ensures
            r == self.max.z - self.min.z,
    {
        self.max.z - self.min.z
    }
}

} // verus!

use vstd::prelude::*;

verus! {

/// A face of an axis-aligned box.
#[derive(Clone, Copy, Debug, PartialEq, Eq, Structural)]
pub enum BoxFace {
    MinX,
    MaxX,
    MinY,
    MaxY,
    MinZ,
    MaxZ,
}

/// A signed unit axis direction.
#[derive(Clone, Copy, Debug, PartialEq, Eq, Structural)]
pub struct Axis {
    pub x: i8,
    pub y: i8,
    pub z: i8,
}

/// The fixed frame of a box face: its outward normal, the tangent and
/// bitangent of its texture frame, and which axes (0 x, 1 y, 2 z) carry the
/// texture coordinates `u` and `v`. A flipped coordinate is measured from
/// the box's maximum corner instead of its minimum.
#[derive(Clone, Copy, Debug, PartialEq, Eq, Structural)]
pub struct FaceFrame {
    pub normal: Axis,
    pub tangent: Axis,
    pub bitangent: Axis,
    pub u_axis: u8,
    pub u_flip: bool,
    pub v_axis: u8,
    pub v_flip: bool,
}

pub open spec fn face_frame_spec(face: BoxFace) -> FaceFrame {
    match face {
        BoxFace::MinX => FaceFrame {
            normal: Axis { x: -1i8, y: 0i8, z: 0i8 },
            tangent: Axis { x: 0i8, y: 0i8, z: 1i8 },
            bitangent: Axis { x: 0i8, y: 1i8, z: 0i8 },
            u_axis: 2,
            u_flip: false,
            v_axis: 1,
            v_flip: false,
        },
        BoxFace::MaxX => FaceFrame {
            normal: Axis { x: 1i8, y: 0i8, z: 0i8 },
            tangent: Axis { x: 0i8, y: 0i8, z: -1i8 },
            bitangent: Axis { x: 0i8, y: 1i8, z: 0i8 },
            u_axis: 2,
            u_flip: true,
            v_axis: 1,
            v_flip: false,
        },
        BoxFace::MinY => FaceFrame {
            normal: Axis { x: 0i8, y: -1i8, z: 0i8 },
            tangent: Axis { x: 1i8, y: 0i8, z: 0i8 },
            bitangent: Axis { x: 0i8, y: 0i8, z: -1i8 },
            u_axis: 0,
            u_flip: false,
            v_axis: 2,
            v_flip: true,
        },
        BoxFace::MaxY => FaceFrame {
            normal: Axis { x: 0i8, y: 1i8, z: 0i8 },
            tangent: Axis { x: 1i8, y: 0i8, z: 0i8 },
            bitangent: Axis { x: 0i8, y: 0i8, z: 1i8 },
            u_axis: 0,
            u_flip: false,
            v_axis: 2,
            v_flip: false,
        },
        BoxFace::MinZ => FaceFrame {
            normal: Axis { x: 0i8, y: 0i8, z: -1i8 },
            tangent: Axis { x: -1i8, y: 0i8, z: 0i8 },
            bitangent: Axis { x: 0i8, y: 1i8, z: 0i8 },
            u_axis: 0,
            u_flip: true,
            v_axis: 1,
            v_flip: false,
        },
        BoxFace::MaxZ => FaceFrame {
            normal: Axis { x: 0i8, y: 0i8, z: 1i8 },
            tangent: Axis { x: 1i8, y: 0i8, z: 0i8 },
            bitangent: Axis { x: 0i8, y: 1i8, z: 0i8 },
            u_axis: 0,
            u_flip: false,
            v_axis: 1,
            v_flip: false,
        },
    }
}

/// The frame of `face`.
pub fn face_frame(face: BoxFace) -> (f: FaceFrame)
    ensures
        f == face_frame_spec(face),
{
    match face {
        BoxFace::MinX => FaceFrame {
            normal: Axis { x: -1i8, y: 0i8, z: 0i8 },
            tangent: Axis { x: 0i8, y: 0i8, z: 1i8 },
            bitangent: Axis { x: 0i8, y: 1i8, z: 0i8 },
            u_axis: 2,
            u_flip: false,
            v_axis: 1,
            v_flip: false,
        },
        BoxFace::MaxX => FaceFrame {
            normal: Axis { x: 1i8, y: 0i8, z: 0i8 },
            tangent: Axis { x: 0i8, y: 0i8, z: -1i8 },
            bitangent: Axis { x: 0i8, y: 1i8, z: 0i8 },
            u_axis: 2,
            u_flip: true,
            v_axis: 1,
            v_flip: false,
        },
        BoxFace::MinY => FaceFrame {
            normal: Axis { x: 0i8, y: -1i8, z: 0i8 },
            tangent: Axis { x: 1i8, y: 0i8, z: 0i8 },
            bitangent: Axis { x: 0i8, y: 0i8, z: -1i8 },
            u_axis: 0,
            u_flip: false,
            v_axis: 2,
            v_flip: true,
        },
        BoxFace::MaxY => FaceFrame {
            normal: Axis { x: 0i8, y: 1i8, z: 0i8 },
            tangent: Axis { x: 1i8, y: 0i8, z: 0i8 },
            bitangent: Axis { x: 0i8, y: 0i8, z: 1i8 },
            u_axis: 0,
            u_flip: false,
            v_axis: 2,
            v_flip: false,
        },
        BoxFace::MinZ => FaceFrame {
            normal: Axis { x: 0i8, y: 0i8, z: -1i8 },
            tangent: Axis { x: -1i8, y: 0i8, z: 0i8 },
            bitangent: Axis { x: 0i8, y: 1i8, z: 0i8 },
            u_axis: 0,
            u_flip: true,
            v_axis: 1,
            v_flip: false,
        },
        BoxFace::MaxZ => FaceFrame {
            normal: Axis { x: 0i8, y: 0i8, z: 1i8 },
            tangent: Axis { x: 1i8, y: 0i8, z: 0i8 },
            bitangent: Axis { x: 0i8, y: 1i8, z: 0i8 },
            u_axis: 0,
            u_flip: false,
            v_axis: 1,
            v_flip: false,
        },
    }
}

/// The face a point on a box's surface is assigned to, given which faces'
/// planes it lies on (in the order min x, max x, min y, max y, min z,
/// max z): the first such face, or none.
pub fn pick_face(on_plane: (bool, bool, bool, bool, bool, bool)) -> (r: Option<BoxFace>)
    ensures
        r == (if on_plane.0 {
            Some(BoxFace::MinX)
        } else if on_plane.1 {
            Some(BoxFace::MaxX)
        } else if on_plane.2 {
            Some(BoxFace::MinY)
        } else if on_plane.3 {
            Some(BoxFace::MaxY)
        } else if on_plane.4 {
            Some(BoxFace::MinZ)
        } else if on_plane.5 {
            Some(BoxFace::MaxZ)
        } else {
            None::<BoxFace>
        }),
{
    if on_plane.0 {
        Some(BoxFace::MinX)
    } else if on_plane.1 {
        Some(BoxFace::MaxX)
    } else if on_plane.2 {
        Some(BoxFace::MinY)
    } else if on_plane.3 {
        Some(BoxFace::MaxY)
    } else if on_plane.4 {
        Some(BoxFace::MinZ)
    } else if on_plane.5 {
        Some(BoxFace::MaxZ)
    } else {
        None
    }
}

} // verus!

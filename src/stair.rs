use vstd::prelude::*;

verus! {

/// Side of the block that the upper step of a stair sits on.
#[derive(Clone, Copy, Debug, PartialEq, Eq, Structural)]
pub enum Facing {
    Forward,
    Backward,
    Right,
    Left,
}

/// Whether a stair stands on its lower step or hangs from it.
#[derive(Clone, Copy, Debug, PartialEq, Eq, Structural)]
pub enum Orientation {
    Upright,
    UpsideDown,
}

/// Placement of a stair's two blocks inside its cube of side `edge`, in
/// quarter-edge units from the cube's center.
///
/// The lower block is the full footprint, half an edge tall, centered at
/// `-up` on the vertical axis. The upper block is half an edge tall, centered
/// at `(dx, up, dz)`; along an axis where its offset is not zero it is half an
/// edge deep, along the others a full edge.
#[derive(Clone, Copy, Debug, PartialEq, Eq, Structural)]
pub struct StairLayout {
    pub up: i8,
    pub dx: i8,
    pub dz: i8,
}

/// Layout of a stair that faces `facing`, standing as `orientation` says.
pub fn stair_layout(facing: Facing, orientation: Orientation) -> (l: StairLayout)
    ensures
        l.up == (if orientation == Orientation::Upright { 1i8 } else { -1i8 }),
        l.dx == (match facing {
            Facing::Right => 1i8,
            Facing::Left => -1i8,
            _ => 0i8,
        }),
        l.dz == (match facing {
            Facing::Forward => 1i8,
            Facing::Backward => -1i8,
            _ => 0i8,
        }),
{
    let up: i8 = match orientation {
        Orientation::Upright => 1,
        Orientation::UpsideDown => -1,
    };
    match facing {
        Facing::Forward => StairLayout { up, dx: 0, dz: 1 },
        Facing::Backward => StairLayout { up, dx: 0, dz: -1 },
        Facing::Right => StairLayout { up, dx: 1, dz: 0 },
        Facing::Left => StairLayout { up, dx: -1, dz: 0 },
    }
}

/// The facing of a stair whose upper step is in front or behind.
pub fn facing_from_forward(face_forward: bool) -> (f: Facing)
    ensures
        f == (if face_forward { Facing::Forward } else { Facing::Backward }),
{
    if face_forward {
        Facing::Forward
    } else {
        Facing::Backward
    }
}

} // verus!

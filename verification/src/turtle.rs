//! Turtle-graphics drawing state: a cursor on a square canvas that walks
//! forward, turns, returns home and wraps at the canvas edges, and the
//! byte-to-operation decoder that drives it.

use vstd::prelude::*;

verus! {

/// Canvas width in drawing units.
pub const WIDTH: isize = 400;

/// Canvas height in drawing units.
pub const HEIGHT: isize = WIDTH;

/// Horizontal home position: the canvas center.
pub const HOME_X: isize = 200;

/// Vertical home position: the canvas center.
pub const HOME_Y: isize = 200;

/// The four headings the cursor can face.
#[derive(Clone, Copy, Debug, PartialEq, Eq, Structural)]
pub enum Orientation {
    North,
    East,
    West,
    South,
}

/// One drawing operation decoded from an input byte.
#[derive(Clone, Copy, Debug, PartialEq, Eq, Structural)]
pub enum Operation {
    /// Walk the given distance along the current heading.
    Forward(isize),
    TurnLeft,
    TurnRight,
    /// Jump back to the canvas center.
    Home,
    /// An input byte with no drawing meaning, kept for diagnostics.
    Noop(u8),
}

/// The heading after a clockwise quarter turn.
pub open spec fn right_of(o: Orientation) -> Orientation {
    match o {
        Orientation::North => Orientation::East,
        Orientation::East => Orientation::South,
        Orientation::South => Orientation::West,
        Orientation::West => Orientation::North,
    }
}

/// The heading after a counterclockwise quarter turn.
pub open spec fn left_of(o: Orientation) -> Orientation {
    match o {
        Orientation::North => Orientation::West,
        Orientation::West => Orientation::South,
        Orientation::South => Orientation::East,
        Orientation::East => Orientation::North,
    }
}

/// The drawing cursor: a position on the canvas and a heading.
#[derive(Clone, Copy, Debug, PartialEq, Eq, Structural)]
pub struct Artist {
    pub x: isize,
    pub y: isize,
    pub heading: Orientation,
}

/// Where a cursor stands after wrapping: a cursor that left the canvas
/// horizontally or vertically is put back at the center coordinate of
/// that axis, heading away from the edge it crossed.
pub open spec fn wrap_spec(a: Artist) -> Artist {
    let b = if a.x < 0 {
        Artist { x: HOME_X, y: a.y, heading: Orientation::West }
    } else if a.x > WIDTH {
        Artist { x: HOME_X, y: a.y, heading: Orientation::East }
    } else {
        a
    };
    if b.y < 0 {
        Artist { x: b.x, y: HOME_Y, heading: Orientation::North }
    } else if b.y > HEIGHT {
        Artist { x: b.x, y: HOME_Y, heading: Orientation::South }
    } else {
        b
    }
}

impl Artist {
    /// A fresh cursor: at the canvas center, facing north.
    pub fn new() -> (a: Artist)
        ensures
            a.x == HOME_X,
            a.y == HOME_Y,
            a.heading == Orientation::North,
    {
        Artist { x: HOME_X, y: HOME_Y, heading: Orientation::North }
    }

    /// Walks `distance` units along the current heading.  North and west
    /// grow a coordinate, south and east shrink one.
    pub fn forward(&mut self, distance: isize)
        requires
            old(self).heading == Orientation::North ==> isize::MIN <= old(self).y + distance
                <= isize::MAX,
            old(self).heading == Orientation::South ==> isize::MIN <= old(self).y - distance
                <= isize::MAX,
            old(self).heading == Orientation::East ==> isize::MIN <= old(self).x - distance
                <= isize::MAX,
            old(self).heading == Orientation::West ==> isize::MIN <= old(self).x + distance
                <= isize::MAX,
        ensures
            final(self).heading == old(self).heading,
            old(self).heading == Orientation::North ==> final(self).x == old(self).x
                && final(self).y == old(self).y + distance,
            old(self).heading == Orientation::South ==> final(self).x == old(self).x
                && final(self).y == old(self).y - distance,
            old(self).heading == Orientation::East ==> final(self).y == old(self).y
                && final(self).x == old(self).x - distance,
            old(self).heading == Orientation::West ==> final(self).y == old(self).y
                && final(self).x == old(self).x + distance,
    {
        match self.heading {
            Orientation::North => {
                self.y = self.y + distance;
            },
            Orientation::South => {
                self.y = self.y - distance;
            },
            Orientation::East => {
                self.x = self.x - distance;
            },
            Orientation::West => {
                self.x = self.x + distance;
            },
        }
    }

    /// Quarter turn clockwise; the position stays.
    pub fn turn_right(&mut self)
        ensures
            final(self).x == old(self).x,
            final(self).y == old(self).y,
            final(self).heading == right_of(old(self).heading),
    {
        self.heading = match self.heading {
            Orientation::North => Orientation::East,
            Orientation::East => Orientation::South,
            Orientation::South => Orientation::West,
            Orientation::West => Orientation::North,
        };
    }

    /// Quarter turn counterclockwise; the position stays.
    pub fn turn_left(&mut self)
        ensures
            final(self).x == old(self).x,
            final(self).y == old(self).y,
            final(self).heading == left_of(old(self).heading),
    {
        self.heading = match self.heading {
            Orientation::North => Orientation::West,
            Orientation::West => Orientation::South,
            Orientation::South => Orientation::East,
            Orientation::East => Orientation::North,
        };
    }

    /// Jumps back to the canvas center; the heading stays.
    pub fn home(&mut self)
        ensures
            final(self).x == HOME_X,
            final(self).y == HOME_Y,
            final(self).heading == old(self).heading,
    {
        self.x = HOME_X;
        self.y = HOME_Y;
    }

    /// Puts a cursor that left the canvas back toward the center, first
    /// along the horizontal axis, then along the vertical one.
    pub fn wrap(&mut self)
        ensures
            *final(self) == wrap_spec(*old(self)),
    {
        if self.x < 0 {
            self.x = HOME_X;
            self.heading = Orientation::West;
        } else if self.x > WIDTH {
            self.x = HOME_X;
            self.heading = Orientation::East;
        }
        if self.y < 0 {
            self.y = HOME_Y;
            self.heading = Orientation::North;
        } else if self.y > HEIGHT {
            self.y = HOME_Y;
            self.heading = Orientation::South;
        }
    }
}

/// The operation an input byte stands for: `'0'` goes home, a nonzero
/// digit walks forward a tenth of the canvas per unit, `'a'`–`'c'` turn
/// left, `'d'`–`'f'` turn right, and any other byte does nothing.
pub open spec fn operation_of_byte(byte: u8) -> Operation {
    if byte == 0x30 {
        Operation::Home
    } else if 0x31 <= byte && byte <= 0x39 {
        Operation::Forward(((byte - 0x30) * (HEIGHT / 10)) as isize)
    } else if byte == 0x61 || byte == 0x62 || byte == 0x63 {
        Operation::TurnLeft
    } else if byte == 0x64 || byte == 0x65 || byte == 0x66 {
        Operation::TurnRight
    } else {
        Operation::Noop(byte)
    }
}

/// Decodes one input byte into its drawing operation.
pub fn parse_byte(byte: u8) -> (op: Operation)
    ensures
        op == operation_of_byte(byte),
{
    if byte == 0x30 {
        Operation::Home
    } else if 0x31 <= byte && byte <= 0x39 {
        let distance = (byte - 0x30) as isize;
        let step = HEIGHT / 10;
        proof {
            assert(step == 40);
            assert(distance <= 9);
        }
        Operation::Forward(distance * step)
    } else if byte == 0x61 || byte == 0x62 || byte == 0x63 {
        Operation::TurnLeft
    } else if byte == 0x64 || byte == 0x65 || byte == 0x66 {
        Operation::TurnRight
    } else {
        Operation::Noop(byte)
    }
}

} // verus!

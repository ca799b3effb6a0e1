use vstd::prelude::*;

verus! {

/// `a + b`, held to the range of `i64`.
pub open spec fn saturated_sum(a: int, b: int) -> int {
    if a + b > i64::MAX {
        i64::MAX as int
    } else if a + b < i64::MIN {
        i64::MIN as int
    } else {
        a + b
    }
}

fn saturating_sum(a: i64, b: i64) -> (r: i64)
    ensures
        r == saturated_sum(a as int, b as int),
{
    let s = a as i128 + b as i128;
    if s > i64::MAX as i128 {
        i64::MAX
    } else if s < i64::MIN as i128 {
        i64::MIN
    } else {
        s as i64
    }
}

/// Pointer input accumulated between two frames: movement while the pointer is captured, and
/// wheel movement. Each read hands the accumulated amount out once and resets it to zero.
pub struct Cursor {
    pub active: bool,
    pub dx: i64,
    pub dy: i64,
    pub wheel: i64,
}

impl Cursor {
    /// A captured pointer with nothing accumulated.
    pub fn new() -> (r: Cursor)
        ensures
            r == (Cursor { active: true, dx: 0, dy: 0, wheel: 0 }),
    {
        Cursor { active: true, dx: 0, dy: 0, wheel: 0 }
    }

    /// The pointer left the window: movement is no longer accumulated.
    pub fn left(&mut self)
        ensures
            *final(self) == (Cursor { active: false, ..*old(self) }),
    {
        self.active = false;
    }

    /// The pointer entered the window: movement is accumulated again.
    pub fn entered(&mut self)
        ensures
            *final(self) == (Cursor { active: true, ..*old(self) }),
    {
        self.active = true;
    }

    /// Adds a movement of `(dx, dy)` while the pointer is captured; the sums saturate.
    pub fn moved(&mut self, dx: i64, dy: i64)
        ensures
            old(self).active ==> *final(self) == (Cursor {
                dx: saturated_sum(old(self).dx as int, dx as int) as i64,
                dy: saturated_sum(old(self).dy as int, dy as int) as i64,
                ..*old(self)
            }),
            !old(self).active ==> *final(self) == *old(self),
    {
        if !self.active {
            return;
        }
        self.dx = saturating_sum(self.dx, dx);
        self.dy = saturating_sum(self.dy, dy);
    }

    /// Hands out the accumulated movement and resets it to zero.
    pub fn get_movement(&mut self) -> (r: (i64, i64))
        ensures
            r == (old(self).dx, old(self).dy),
            *final(self) == (Cursor { dx: 0, dy: 0, ..*old(self) }),
    {
        let r = (self.dx, self.dy);
        self.dx = 0;
        self.dy = 0;
        r
    }

    /// Adds a wheel movement; the sum saturates.
    pub fn wheel_moved(&mut self, v: i64)
        ensures
            *final(self) == (Cursor {
                wheel: saturated_sum(old(self).wheel as int, v as int) as i64,
                ..*old(self)
            }),
    {
        self.wheel = saturating_sum(self.wheel, v);
    }

    /// Hands out the accumulated wheel movement and resets it to zero.
    pub fn wheel_movement(&mut self) -> (r: i64)
        ensures
            r == old(self).wheel,
            *final(self) == (Cursor { wheel: 0, ..*old(self) }),
    {
        let r = self.wheel;
        self.wheel = 0;
        r
    }
}

} // verus!

use vstd::prelude::*;
use crate::smooth_value::{BoundedModel, ChannelModel, SmoothValue, SmoothValueBounded};

verus! {

/// Angles count `ANGLE_ONE` units to the radian.
pub const ANGLE_ONE: i64 = 65536;

/// Distances count `DISTANCE_ONE` units to the world unit.
pub const DISTANCE_ONE: i64 = 65536;

/// Angle units that one pixel of pointer movement turns the camera by.
pub const ROTATION_SPEED: i64 = 196;

/// Distance units that one thousandth of a scroll line moves the camera by.
pub const DISTANCE_SPEED: i64 = 33;

/// Smoothness of every channel, as a fraction of `SMOOTHNESS_ONE`.
pub const SMOOTHNESS: u16 = 13107;

pub const MIN_DISTANCE: i64 = 65536;

pub const MAX_DISTANCE: i64 = 6553600;

pub const START_DISTANCE: i64 = 131072;

/// The camera's smoothed placement around its target: yaw and pitch in angle units, and the
/// distance from the target in distance units.
#[derive(Clone, Copy, Debug, PartialEq, Eq, Structural)]
pub struct CameraPose {
    pub yaw: i64,
    pub pitch: i64,
    pub distance: i64,
}

/// The abstract state of a camera.
pub struct CameraModel {
    pub yaw: ChannelModel,
    pub pitch: ChannelModel,
    pub distance: BoundedModel,
    pub width: nat,
    pub height: nat,
}

impl CameraModel {
    pub open spec fn wf(self) -> bool {
        &&& self.yaw.wf()
        &&& self.pitch.wf()
        &&& self.distance.wf()
        &&& self.distance.min == MIN_DISTANCE
        &&& self.distance.max == MAX_DISTANCE
        &&& self.width > 0
        &&& self.height > 0
    }
}

/// A rotation channel after an input: moved where the new target is representable, otherwise
/// left as it was.
pub open spec fn rotated(c: ChannelModel, delta: int) -> ChannelModel {
    if i64::MIN <= c.changed(delta).target <= i64::MAX {
        c.changed(delta)
    } else {
        c
    }
}

/// The camera's orbit state: two unbounded smoothing channels for yaw and pitch, a bounded one
/// for the distance, and the viewport size that the projection is derived from.
pub struct Camera {
    yaw: SmoothValue,
    pitch: SmoothValue,
    distance: SmoothValueBounded,
    width: u32,
    height: u32,
}

impl View for Camera {
    type V = CameraModel;

    closed spec fn view(&self) -> CameraModel {
        CameraModel {
            yaw: self.yaw@,
            pitch: self.pitch@,
            distance: self.distance@,
            width: self.width as nat,
            height: self.height as nat,
        }
    }
}

impl Camera {
    /// A camera at rest, facing along yaw and pitch 0 at the starting distance, for a viewport
    /// of `width` by `height`; a zero dimension counts as 1.
    pub fn new(width: u32, height: u32) -> (r: Camera)
        ensures
            r@.wf(),
            r@.yaw.value == 0 && r@.yaw.target == 0 && r@.yaw.speed == ROTATION_SPEED,
            r@.pitch.value == 0 && r@.pitch.target == 0 && r@.pitch.speed == ROTATION_SPEED,
            r@.yaw.smoothness == SMOOTHNESS && r@.pitch.smoothness == SMOOTHNESS,
            r@.distance == (BoundedModel {
                value: START_DISTANCE as int,
                target: START_DISTANCE as int,
                speed: DISTANCE_SPEED as int,
                smoothness: SMOOTHNESS as int,
                min: MIN_DISTANCE as int,
                max: MAX_DISTANCE as int,
            }),
            r@.width == (if width == 0 { 1 } else { width as int }),
            r@.height == (if height == 0 { 1 } else { height as int }),
    {
        Camera {
            yaw: SmoothValue::new(0, ROTATION_SPEED, SMOOTHNESS),
            pitch: SmoothValue::new(0, ROTATION_SPEED, SMOOTHNESS),
            distance: SmoothValueBounded::new(
                START_DISTANCE,
                DISTANCE_SPEED,
                SMOOTHNESS,
                MIN_DISTANCE,
                MAX_DISTANCE,
            ),
            width: if width == 0 { 1 } else { width },
            height: if height == 0 { 1 } else { height },
        }
    }

    /// One frame: feeds the pointer movement `(dx, dy)` into yaw and pitch and the scroll into
    /// the distance, then reads every channel once. A rotation input that would carry an angle
    /// past the representable range is ignored.
    pub fn update(&mut self, dx: i64, dy: i64, scroll: i64) -> (r: CameraPose)
        requires
            old(self)@.wf(),
        ensures
            final(self)@.wf(),
            final(self)@.yaw == rotated(old(self)@.yaw, dx as int).relaxed(),
            final(self)@.pitch == rotated(old(self)@.pitch, dy as int).relaxed(),
            final(self)@.distance == old(self)@.distance.changed(scroll as int).relaxed(),
            final(self)@.width == old(self)@.width,
            final(self)@.height == old(self)@.height,
            r.yaw == final(self)@.yaw.value,
            r.pitch == final(self)@.pitch.value,
            r.distance == final(self)@.distance.value,
    {
        self.yaw.try_change(dx);
        self.pitch.try_change(dy);
        self.distance.change(scroll);
        let yaw = self.yaw.get();
        let pitch = self.pitch.get();
        let distance = self.distance.get();
        CameraPose { yaw, pitch, distance }
    }

    /// Takes the new viewport size that the projection is derived from; a size with a zero
    /// dimension is ignored. The smoothed state is untouched.
    pub fn resize(&mut self, width: u32, height: u32)
        requires
            old(self)@.wf(),
        ensures
            final(self)@.wf(),
            final(self)@.yaw == old(self)@.yaw,
            final(self)@.pitch == old(self)@.pitch,
            final(self)@.distance == old(self)@.distance,
            width == 0 || height == 0 ==> final(self)@.width == old(self)@.width
                && final(self)@.height == old(self)@.height,
            width != 0 && height != 0 ==> final(self)@.width == width && final(self)@.height
                == height,
    {
        if width == 0 || height == 0 {
            return;
        }
        self.width = width;
        self.height = height;
    }

    /// The viewport size as `(width, height)`.
    pub fn viewport(&self) -> (r: (u32, u32))
        ensures
            r.0 == self@.width,
            r.1 == self@.height,
    {
        (self.width, self.height)
    }
}

} // verus!

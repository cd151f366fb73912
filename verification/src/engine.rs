//! The frame loop's decisions: when a frame is due, what a key does, and what
//! a frame shows.

use vstd::prelude::*;
use crate::canvas::Canvas;
use crate::vec::Vector2;

verus! {

/// Nanoseconds in a second.
pub const SECOND: u64 = 1_000_000_000;

/// Size of the model after one step of growing, in hundredths of its size
/// before.
pub const GROW: u32 = 101;

/// Size of the model after one step of shrinking, in hundredths of its size
/// before.
pub const SHRINK: u32 = 99;

/// Speed of a rotation, in radians per second.
pub const TURN: u32 = 4;

/// A key press, as far as the viewer tells keys apart.
#[derive(Clone, Copy, Debug, PartialEq, Eq)]
pub enum Key {
    Char(char),
    Up,
    Down,
    Left,
    Right,
    Tab,
    Other,
}

/// An axis of model space.
#[derive(Clone, Copy, Debug, PartialEq, Eq)]
pub enum Axis {
    X,
    Y,
    Z,
}

/// What happens to every vertex of the model before a frame is drawn.
#[derive(Clone, Copy, Debug, PartialEq, Eq)]
pub enum Motion {
    /// The model stays as it is.
    Still,
    /// Every coordinate is multiplied by `percent / 100`.
    Scale { percent: u32 },
    /// The model turns about `axis` by `TURN` radians for each second that the
    /// last frame took, or by as much the other way if `reverse`.
    Rotate { axis: Axis, reverse: bool },
}

/// What one pass of the frame loop comes to.
#[derive(Clone, Copy, Debug, PartialEq, Eq)]
pub enum Step {
    /// Too little time has passed since the last frame: nothing happens.
    Wait,
    /// The viewer stops, without drawing another frame.
    Quit,
    /// The model moves as given, and a frame is drawn.
    Draw(Motion),
}

/// What a frame shows.
pub struct Frame {
    /// The lines of the wireframe, each as its cells in plotting order.
    pub lines: Vec<Vec<Vector2<i32>>>,
    /// The frame rate for the status line, if the status line is shown.
    pub fps: Option<u64>,
}

/// What a key does to the model: the arrows up and down grow and shrink it,
/// left and right turn it about y, `j` and `k` about x, `h` and `l` about z.
/// No other key moves it.
pub open spec fn motion_for(key: Option<Key>) -> Motion {
    match key {
        Some(Key::Up) => Motion::Scale { percent: GROW },
        Some(Key::Down) => Motion::Scale { percent: SHRINK },
        Some(Key::Left) => Motion::Rotate { axis: Axis::Y, reverse: false },
        Some(Key::Right) => Motion::Rotate { axis: Axis::Y, reverse: true },
        Some(Key::Char(c)) => if c == 'j' {
            Motion::Rotate { axis: Axis::X, reverse: false }
        } else if c == 'k' {
            Motion::Rotate { axis: Axis::X, reverse: true }
        } else if c == 'h' {
            Motion::Rotate { axis: Axis::Z, reverse: false }
        } else if c == 'l' {
            Motion::Rotate { axis: Axis::Z, reverse: true }
        } else {
            Motion::Still
        },
        _ => Motion::Still,
    }
}

/// Frames per second of a frame that took `elapsed_nanos`: a second divided
/// by that time, rounded to the nearest whole number, a half upwards.
pub open spec fn rate(elapsed_nanos: u64) -> int {
    (2 * SECOND + elapsed_nanos) / (2 * elapsed_nanos)
}

/// The state of the frame loop.
pub struct Engine {
    pub canvas: Canvas,
    /// Distance of the eye from the screen plane.
    pub fov: u32,
    /// Most frames drawn in a second.
    pub max_fps: u32,
    pub should_stop: bool,
    pub show_ui: bool,
}

impl Engine {
    pub fn new() -> (engine: Self)
        ensures
            engine.canvas.verticies@.len() == 0,
            engine.canvas.indicies@.len() == 0,
            engine.fov == 90,
            engine.max_fps == 60,
            !engine.should_stop,
            engine.show_ui,
    {
        Self { canvas: Canvas::new(), fov: 90, max_fps: 60, should_stop: false, show_ui: true }
    }

    /// Whether a frame is due `elapsed_nanos` after the last one: whether at
    /// least one `max_fps`-th of a second has passed.
    pub open spec fn due(self, elapsed_nanos: u64) -> bool {
        elapsed_nanos * self.max_fps >= SECOND
    }

    pub fn frame_due(&self, elapsed_nanos: u64) -> (due: bool)
        ensures
            due == self.due(elapsed_nanos),
    {
        assert(elapsed_nanos * self.max_fps <= 0xffff_ffff_ffff_ffff * 0xffff_ffff) by (nonlinear_arith);
        elapsed_nanos as u128 * self.max_fps as u128 >= SECOND as u128
    }

    /// One pass of the frame loop, `elapsed_nanos` after the last frame, with
    /// the key that was pressed, if one was.
    ///
    /// Until a frame is due nothing happens and nothing changes. Once it is,
    /// `q` stops the viewer, Tab shows or hides the status line, and any key
    /// moves the model as `motion_for` says. The key matters only when a frame
    /// is due, so a caller need not look for one before that.
    pub fn update(&mut self, elapsed_nanos: u64, key: Option<Key>) -> (step: Step)
        ensures
            !old(self).due(elapsed_nanos) ==> step == Step::Wait && *final(self) == *old(self),
            old(self).due(elapsed_nanos) ==> {
                &&& final(self).canvas == old(self).canvas
                &&& final(self).fov == old(self).fov
                &&& final(self).max_fps == old(self).max_fps
                &&& final(self).should_stop == (old(self).should_stop || key == Some(
                    Key::Char('q'),
                ))
                &&& final(self).show_ui == if key == Some(Key::Tab) {
                    !old(self).show_ui
                } else {
                    old(self).show_ui
                }
                &&& step == if final(self).should_stop {
                    Step::Quit
                } else {
                    Step::Draw(motion_for(key))
                }
            },
    {
        if !self.frame_due(elapsed_nanos) {
            return Step::Wait;
        }
        let mut motion = Motion::Still;
        match key {
            Some(Key::Char(c)) => {
                if c == 'q' {
                    self.should_stop = true;
                } else if c == 'j' {
                    motion = Motion::Rotate { axis: Axis::X, reverse: false };
                } else if c == 'k' {
                    motion = Motion::Rotate { axis: Axis::X, reverse: true };
                } else if c == 'h' {
                    motion = Motion::Rotate { axis: Axis::Z, reverse: false };
                } else if c == 'l' {
                    motion = Motion::Rotate { axis: Axis::Z, reverse: true };
                }
            },
            Some(Key::Up) => {
                motion = Motion::Scale { percent: GROW };
            },
            Some(Key::Down) => {
                motion = Motion::Scale { percent: SHRINK };
            },
            Some(Key::Left) => {
                motion = Motion::Rotate { axis: Axis::Y, reverse: false };
            },
            Some(Key::Right) => {
                motion = Motion::Rotate { axis: Axis::Y, reverse: true };
            },
            Some(Key::Tab) => {
                self.show_ui = !self.show_ui;
            },
            _ => {},
        }
        if self.should_stop {
            Step::Quit
        } else {
            Step::Draw(motion)
        }
    }

    /// The frame to draw after a pass that took `elapsed_nanos`: the
    /// wireframe of the canvas, and the frame rate if the status line is
    /// shown.
    pub fn render(&self, elapsed_nanos: u64) -> (frame: Frame)
        requires
            elapsed_nanos > 0,
        ensures
            frame.lines@.map_values(|points: Vec<Vector2<i32>>| points@)
                == self.canvas.wireframe(),
            frame.fps == if self.show_ui {
                Some(rate(elapsed_nanos) as u64)
            } else {
                None
            },
    {
        let lines = self.canvas.draw();
        let fps = if self.show_ui {
            let twice: u128 = 2 * elapsed_nanos as u128;
            Some(((2 * SECOND as u128 + elapsed_nanos as u128) / twice) as u64)
        } else {
            None
        };
        Frame { lines, fps }
    }
}

} // verus!

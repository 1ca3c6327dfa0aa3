//! Moving the editor's focus between on-screen controls: the nearest
//! control, by Manhattan distance between centres, in the requested
//! direction.
use vstd::prelude::*;

use crate::keyboard::InputMessage;

verus! {

/// A direction of focus movement.
#[derive(PartialEq, Eq, Structural, Clone, Copy, Debug, Hash)]
pub enum Direction {
    Up,
    Down,
    Left,
    Right,
    Still,
}

/// A screen rectangle in character cells.
#[derive(PartialEq, Eq, Structural, Clone, Copy, Debug)]
pub struct Rect {
    pub x: u16,
    pub y: u16,
    pub width: u16,
    pub height: u16,
}

/// Centre of a rectangle, rounded down, as `(x, y)`.
pub open spec fn center(r: Rect) -> (int, int) {
    (r.x + r.width / 2, r.y + r.height / 2)
}

/// `|a - b|`.
pub open spec fn abs_diff(a: int, b: int) -> int {
    if a >= b {
        a - b
    } else {
        b - a
    }
}

/// Manhattan distance from centre `from` to centre `to`, when `to` lies
/// strictly in `direction` from `from`; `None` otherwise.
pub open spec fn distance(from: (int, int), to: (int, int), direction: Direction) -> Option<int> {
    let ok = match direction {
        Direction::Up => to.1 < from.1,
        Direction::Down => to.1 > from.1,
        Direction::Left => to.0 < from.0,
        Direction::Right => to.0 > from.0,
        Direction::Still => false,
    };
    if ok {
        Some(abs_diff(to.0, from.0) + abs_diff(to.1, from.1))
    } else {
        None
    }
}

fn center_exec(r: &Rect) -> (c: (u32, u32))
    ensures
        c.0 == center(*r).0,
        c.1 == center(*r).1,
{
    (r.x as u32 + r.width as u32 / 2, r.y as u32 + r.height as u32 / 2)
}

fn distance_exec(from: (u32, u32), to: (u32, u32), direction: Direction) -> (d: Option<u32>)
    requires
        from.0 < 0x20000 && from.1 < 0x20000 && to.0 < 0x20000 && to.1 < 0x20000,
    ensures
        match distance((from.0 as int, from.1 as int), (to.0 as int, to.1 as int), direction) {
            Some(x) => d == Some(x as u32),
            None => d is None,
        },
{
    let ok = match direction {
        Direction::Up => to.1 < from.1,
        Direction::Down => to.1 > from.1,
        Direction::Left => to.0 < from.0,
        Direction::Right => to.0 > from.0,
        Direction::Still => false,
    };
    if ok {
        let dx = if to.0 >= from.0 {
            to.0 - from.0
        } else {
            from.0 - to.0
        };
        let dy = if to.1 >= from.1 {
            to.1 - from.1
        } else {
            from.1 - to.1
        };
        Some(dx + dy)
    } else {
        None
    }
}

/// The controls laid out in the current frame, in order, and the index of
/// the focused one.
#[derive(Clone, Debug)]
pub struct FocusCalculator {
    pub rects: Vec<Rect>,
    pub focused: usize,
}

impl FocusCalculator {
    /// Distance from the focused control to control `c` in `direction`.
    pub open spec fn distance_to(self, c: int, direction: Direction) -> Option<int> {
        distance(center(self.rects@[self.focused as int]), center(self.rects@[c]), direction)
    }

    /// An empty layout with control `focused` focused.
    pub fn new(focused: usize) -> (f: FocusCalculator)
        ensures
            f.rects@.len() == 0,
            f.focused == focused,
    {
        FocusCalculator { rects: Vec::new(), focused }
    }

    /// Adds the next control; returns whether it is the focused one, and
    /// its rectangle.
    pub fn add(&mut self, rect: Rect) -> (r: (bool, Rect))
        ensures
            final(self).rects@ == old(self).rects@.push(rect),
            final(self).focused == old(self).focused,
            r.0 == (old(self).focused == old(self).rects@.len()),
            r.1 == rect,
    {
        let id = self.rects.len();
        self.rects.push(rect);
        (self.focused == id, rect)
    }

    /// Control `b` is where focus goes in `direction`: the nearest control
    /// lying strictly that way, the first of equals.
    pub open spec fn is_nearest(self, b: int, direction: Direction) -> bool {
        &&& self.focused < self.rects@.len()
        &&& 0 <= b < self.rects@.len()
        &&& b != self.focused
        &&& self.distance_to(b, direction) is Some
        &&& forall|c: int|
            0 <= c < self.rects@.len() && c != self.focused && (#[trigger] self.distance_to(
                c,
                direction,
            )) is Some ==> self.distance_to(b, direction)->0 <= self.distance_to(c, direction)->0
        &&& forall|c: int|
            0 <= c < b && c != self.focused && (#[trigger] self.distance_to(c, direction)) is Some
                ==> self.distance_to(b, direction)->0 < self.distance_to(c, direction)->0
    }

    /// No control lies in `direction`, or the focused index names none.
    pub open spec fn no_target(self, direction: Direction) -> bool {
        self.focused >= self.rects@.len() || forall|c: int|
            0 <= c < self.rects@.len() && c != self.focused ==> (#[trigger] self.distance_to(
                c,
                direction,
            )) is None
    }

    /// The control to focus when moving in `direction`: the nearest one
    /// lying strictly that way, the first of equals; an error when there
    /// is none, or when the focused index names no control.
    pub fn update(&self, direction: Direction) -> (r: Result<usize, ()>)
        ensures
            match r {
                Ok(b) => self.is_nearest(b as int, direction),
                Err(_) => self.no_target(direction),
            },
    {
        if self.focused >= self.rects.len() {
            return Err(());
        }
        let from = center_exec(&self.rects[self.focused]);
        let mut best: Option<(usize, u32)> = None;
        let mut c: usize = 0;
        while c < self.rects.len()
            invariant
                self.focused < self.rects@.len(),
                c <= self.rects@.len(),
                from.0 == center(self.rects@[self.focused as int]).0,
                from.1 == center(self.rects@[self.focused as int]).1,
                match best {
                    Some((b, d)) => {
                        &&& b < c
                        &&& b != self.focused
                        &&& self.distance_to(b as int, direction) == Some(d as int)
                        &&& forall|k: int|
                            0 <= k < c && k != self.focused && (#[trigger] self.distance_to(
                                k,
                                direction,
                            )) is Some ==> d <= self.distance_to(k, direction)->0
                        &&& forall|k: int|
                            0 <= k < b && k != self.focused && (#[trigger] self.distance_to(
                                k,
                                direction,
                            )) is Some ==> d < self.distance_to(k, direction)->0
                    },
                    None => forall|k: int|
                        0 <= k < c && k != self.focused ==> (#[trigger] self.distance_to(
                            k,
                            direction,
                        )) is None,
                },
            decreases self.rects@.len() - c,
        {
            if c != self.focused {
                let to = center_exec(&self.rects[c]);
                let d = distance_exec(from, to, direction);
                match d {
                    Some(dist) => {
                        let better = match best {
                            None => true,
                            Some((_, bd)) => dist < bd,
                        };
                        if better {
                            best = Some((c, dist));
                        }
                    },
                    None => {},
                }
            }
            c = c + 1;
        }
        match best {
            Some((b, _)) => Ok(b),
            None => Err(()),
        }
    }
}

/// Direction that a plain arrow message asks for; other messages ask for
/// none.
pub open spec fn direction_of(msg: InputMessage) -> Direction {
    match msg {
        InputMessage::Up => Direction::Up,
        InputMessage::Down => Direction::Down,
        InputMessage::Left => Direction::Left,
        InputMessage::Right => Direction::Right,
        _ => Direction::Still,
    }
}

/// Message handed on when focus cannot move in `d`: the shifted arrow of
/// the same direction, for an enclosing view to act on.
pub open spec fn overflow_message(d: Direction) -> Option<InputMessage> {
    match d {
        Direction::Up => Some(InputMessage::ShiftUp),
        Direction::Down => Some(InputMessage::ShiftDown),
        Direction::Left => Some(InputMessage::ShiftLeft),
        Direction::Right => Some(InputMessage::ShiftRight),
        Direction::Still => None,
    }
}

/// Handles an input message in a view: a plain arrow moves `focused` to
/// the nearest control in its direction; when there is none, the shifted
/// arrow is returned to be handed on.
pub fn view_process_focus_message(focused: &mut usize, calculator: &FocusCalculator, msg: InputMessage) -> (out:
    Option<InputMessage>)
    ensures
        ({
            let d = direction_of(msg);
            ||| out is None && calculator.is_nearest(*final(focused) as int, d)
            ||| *final(focused) == *old(focused) && calculator.no_target(d) && out == overflow_message(d)
        }),
{
    let d = match msg {
        InputMessage::Up => Direction::Up,
        InputMessage::Down => Direction::Down,
        InputMessage::Left => Direction::Left,
        InputMessage::Right => Direction::Right,
        _ => Direction::Still,
    };
    match calculator.update(d) {
        Ok(b) => {
            *focused = b;
            None
        },
        Err(_) => match d {
            Direction::Up => Some(InputMessage::ShiftUp),
            Direction::Down => Some(InputMessage::ShiftDown),
            Direction::Left => Some(InputMessage::ShiftLeft),
            Direction::Right => Some(InputMessage::ShiftRight),
            Direction::Still => None,
        },
    }
}

} // verus!

//! Client-side state: the local copy of the world, the view point, and the
//! evaluation of parsed input and server messages. Parsing and serializing
//! the wire format is the caller's business; the logic here works on plain
//! values.

use vstd::prelude::*;
use crate::location::Position;
use crate::location::Unit;
use crate::location::eval_direction;
use crate::protocol::Event;
use crate::protocol::Intention;
use crate::protocol::SamosborMessage;
use crate::world::WorldState;
use crate::world::eval_event;

verus! {

/// Parsed input from the player's device.
#[derive(Debug, Clone, Copy, PartialEq, Eq, Structural)]
pub enum ClientInput {
    MouseUp { position: Position },
    MouseDown { position: Position },
    Wheel { position: Position, delta: i32 },
    KeyDown { key_code: usize },
    KeyUp { key_code: usize },
}

/// The state a connected client keeps: who it is, its copy of the world,
/// and the window it looks through.
#[derive(Debug, Clone)]
pub struct ClientState {
    pub unit: Unit,
    pub world: WorldState,
    pub view_point: Position,
    pub window_radius: usize,
}

impl ClientState {
    /// The client's world and window are consistent.
    pub open spec fn wf(self) -> bool {
        &&& self.world.wf()
        &&& 2 * self.window_radius <= self.world.location.width
        &&& 2 * self.window_radius <= self.world.location.height
        &&& self.view_point.x < self.world.location.width
        &&& self.view_point.y < self.world.location.height
    }

    /// Build the client's state from the snapshot a server sends a
    /// newcomer, already parsed into plain values: the view opens on the own
    /// unit's position, with the starting window radius of five. Fails with
    /// `NoSuchUnit` when the snapshot does not hold the unit.
    pub fn from_server_response(unit: Unit, world: WorldState) -> (ret: Result<
        ClientState,
        crate::protocol::SamosborError,
    >)
        ensures
            match ret {
                Ok(client) => {
                    &&& client.unit == unit
                    &&& client.world == world
                    &&& client.window_radius == 5
                    &&& exists|k: int|
                        0 <= k < world.units@.len() && (#[trigger] world.units@[k]).unit == unit
                            && client.view_point == world.units@[k].pos
                },
                Err(e) => e == crate::protocol::SamosborError::NoSuchUnit && (forall|k: int|
                    0 <= k < world.units@.len() ==> (#[trigger] world.units@[k]).unit != unit),
            },
    {
        let mut i: usize = 0;
        while i < world.units.len()
            invariant
                i <= world.units@.len(),
                forall|k: int| 0 <= k < i ==> (#[trigger] world.units@[k]).unit != unit,
            decreases world.units@.len() - i,
        {
            if world.units[i].unit == unit {
                let view_point = world.units[i].pos;
                return Ok(ClientState { unit, world, view_point, window_radius: 5 });
            }
            i = i + 1;
        }
        Err(crate::protocol::SamosborError::NoSuchUnit)
    }

    /// Translate a position relative to the window into an absolute map
    /// position.
    pub fn pos_relative2absolute(&self, rel_pos: Position) -> (ret: Position)
        requires
            self.view_point.x + rel_pos.x <= usize::MAX,
            self.view_point.y + rel_pos.y <= usize::MAX,
        ensures
            ret.x as int == (if self.view_point.x >= self.window_radius {
                self.view_point.x - self.window_radius
            } else {
                0int
            }) + rel_pos.x,
            ret.y as int == (if self.view_point.y >= self.window_radius {
                self.view_point.y - self.window_radius
            } else {
                0int
            }) + rel_pos.y,
    {
        let left = if self.view_point.x >= self.window_radius {
            self.view_point.x - self.window_radius
        } else {
            0
        };
        let top = if self.view_point.y >= self.window_radius {
            self.view_point.y - self.window_radius
        } else {
            0
        };
        Position { x: left + rel_pos.x, y: top + rel_pos.y }
    }

    /// Grow or shrink the window, never below a radius of five (and never
    /// past the machine's bounds).
    pub fn zoom(&mut self, zoom: i32)
        ensures
            final(self).unit == old(self).unit,
            final(self).world == old(self).world,
            final(self).view_point == old(self).view_point,
            final(self).window_radius as int == (if old(self).window_radius + zoom >= 5 && old(
                self,
            ).window_radius + zoom <= usize::MAX {
                old(self).window_radius + zoom
            } else {
                old(self).window_radius as int
            }),
    {
        if zoom >= 0 {
            let grow = zoom as usize;
            if self.window_radius <= usize::MAX - grow {
                let next = self.window_radius + grow;
                if next >= 5 {
                    self.window_radius = next;
                }
            }
        } else {
            let shrink = (-(zoom as i64)) as usize;
            if self.window_radius >= shrink {
                let next = self.window_radius - shrink;
                if next >= 5 {
                    self.window_radius = next;
                }
            }
        }
    }

    /// Turn one parsed input into the message to send to the server, if the
    /// input calls for one: a mouse press asks to walk to the pressed tile.
    pub fn handle_client_input(&mut self, input: ClientInput) -> (ret: Option<SamosborMessage>)
        requires
            old(self).view_point.x + old(self).world.location.width <= usize::MAX,
            old(self).view_point.y + old(self).world.location.height <= usize::MAX,
        ensures
            final(self).unit == old(self).unit,
            final(self).world == old(self).world,
            final(self).view_point == old(self).view_point,
            match input {
                ClientInput::MouseDown { position } => ret is Some,
                ClientInput::Wheel { position, delta } => ret is None,
                _ => ret is None,
            },
    {
        match input {
            ClientInput::MouseDown { position } => {
                if position.x <= self.world.location.width && position.y
                    <= self.world.location.height {
                    let abs_position = self.pos_relative2absolute(position);
                    Some(
                        SamosborMessage::SmsbrIntention(
                            Intention::GoToPosition { unit: self.unit, position: abs_position },
                        ),
                    )
                } else {
                    Some(
                        SamosborMessage::SmsbrIntention(
                            Intention::GoToPosition { unit: self.unit, position },
                        ),
                    )
                }
            },
            ClientInput::Wheel { position: _, delta } => {
                self.zoom(delta);
                None
            },
            _ => None,
        }
    }

    /// The client's own view of the world as text.
    pub fn render(&self) -> (ret: String)
        requires
            self.wf(),
            self.view_point.x + self.window_radius <= usize::MAX,
            self.view_point.y + self.window_radius <= usize::MAX,
    {
        crate::world::display_world_segment(&self.world, self.view_point, self.window_radius)
    }

    /// Apply one parsed message from the server to the local world; a step
    /// of the client's own unit also moves the view point along.
    pub fn eval_message(&mut self, msg: &SamosborMessage)
        requires
            old(self).wf(),
        ensures
            final(self).wf(),
            final(self).unit == old(self).unit,
    {
        match msg {
            SamosborMessage::SmsbrEvent(e) => {
                let ghost w0 = self.world;
                match e {
                    Event::Step { unit, direction } => {
                        let my_unit = self.unit;
                        let step_unit = *unit;
                        let step_dir = *direction;
                        eval_event(&mut self.world, Event::Step {
                            unit: step_unit,
                            direction: step_dir,
                        });
                        if step_unit == my_unit {
                            let moved = eval_direction(self.view_point, step_dir);
                            match moved {
                                Some(new_view_point) => {
                                    if new_view_point.x < self.world.location.width
                                        && new_view_point.y < self.world.location.height {
                                        self.view_point = new_view_point;
                                    }
                                },
                                None => (),
                            }
                        }
                    },
                    _ => {
                        eval_event(&mut self.world, *e);
                    },
                }
                proof {
                    assert(self.world.location.width == w0.location.width);
                    assert(self.world.location.height == w0.location.height);
                }
            },
            _ => (),
        }
    }
}

} // verus!

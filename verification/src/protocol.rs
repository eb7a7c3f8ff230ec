//! The protocol vocabulary: what clients intend, what the server rules to
//! have happened, and the errors either side can report.

use vstd::prelude::*;
use crate::location::Direction;
use crate::location::Position;
use crate::location::Unit;
use crate::world::WorldState;

verus! {

/// Everything that can go wrong while evaluating client input or an event.
#[derive(Debug, Clone, Copy, PartialEq, Eq, Structural)]
pub enum SamosborError {
    OutOfBorders,
    Collision,
    NoSuchUnit,
    NoSuchClient,
    NoEmptyTiles,
    UnexpectedInput,
    InternalLogicError,
    AlreadyHere,
    TilesNotANeighbors,
}

/// A ruling of the game: a deterministic mutation of the world.
#[derive(Debug, Clone, Copy, PartialEq, Eq, Structural)]
pub enum Event {
    Step { unit: Unit, direction: Direction },
    AddUnit { unit: Unit, position: Position },
    RemoveUnit(Unit),
    ClientConnect(Unit),
    ClientDisconnect(Unit),
}

/// What a client wants to do.
#[derive(Debug, Clone, Copy, PartialEq, Eq, Structural)]
pub enum Intention {
    GoToPosition { unit: Unit, position: Position },
    ClientConnect(Unit),
    ClientDisconnect(Unit),
}

/// One message between the parts of the game: an event, an intention, a
/// whole world snapshot for a newcomer, or an error.
#[derive(Debug, Clone)]
pub enum SamosborMessage {
    SmsbrEvent(Event),
    SmsbrIntention(Intention),
    SmsbrState(Unit, WorldState),
    SmsbrError(SamosborError),
}

} // verus!

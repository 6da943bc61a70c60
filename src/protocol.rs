//! Byte-stream command protocol.
//!
//! A frame is `START_BYTE, ID, [PAYLOAD], CHECKSUM`, where the payload byte is
//! present only for payload-bearing IDs and the checksum is the wrapping sum of
//! the ID and payload bytes.
use vstd::prelude::*;

verus! {

/// Sync byte that opens every frame.
pub const START_BYTE: u8 = 0xA5;

pub const MSG_M1_EXTEND: u8 = 0x30;
pub const MSG_M1_RETRACT: u8 = 0x31;
pub const MSG_M1_BRAKE: u8 = 0x32;
pub const MSG_M1_SET_POSITION: u8 = 0x33;

pub const MSG_M2_EXTEND: u8 = 0x40;
pub const MSG_M2_RETRACT: u8 = 0x41;
pub const MSG_M2_BRAKE: u8 = 0x42;
pub const MSG_M2_SET_POSITION: u8 = 0x43;

pub const MSG_PING: u8 = 0x50;

/// Outbound telemetry ID; never accepted by the parser.
pub const MSG_TELEMETRY: u8 = 0x60;

/// A fully validated command for one of the two actuators.
#[derive(Clone, Copy, Debug, PartialEq, Eq, Structural)]
pub enum Command {
    Ping,
    M1Extend(u8),
    M1Retract(u8),
    M1Brake,
    M1SetPosition(u8),
    M2Extend(u8),
    M2Retract(u8),
    M2Brake,
    M2SetPosition(u8),
}

/// IDs that carry exactly one payload byte.
pub open spec fn id_has_payload(id: u8) -> bool {
    id == MSG_M1_EXTEND || id == MSG_M1_RETRACT || id == MSG_M1_SET_POSITION
        || id == MSG_M2_EXTEND || id == MSG_M2_RETRACT || id == MSG_M2_SET_POSITION
}

/// IDs that carry no payload.
pub open spec fn id_without_payload(id: u8) -> bool {
    id == MSG_M1_BRAKE || id == MSG_M2_BRAKE || id == MSG_PING
}

/// The wire ID of a command.
pub open spec fn command_id(c: Command) -> u8 {
    match c {
        Command::Ping => MSG_PING,
        Command::M1Extend(_) => MSG_M1_EXTEND,
        Command::M1Retract(_) => MSG_M1_RETRACT,
        Command::M1Brake => MSG_M1_BRAKE,
        Command::M1SetPosition(_) => MSG_M1_SET_POSITION,
        Command::M2Extend(_) => MSG_M2_EXTEND,
        Command::M2Retract(_) => MSG_M2_RETRACT,
        Command::M2Brake => MSG_M2_BRAKE,
        Command::M2SetPosition(_) => MSG_M2_SET_POSITION,
    }
}

/// The payload byte of a command, if its ID carries one.
pub open spec fn command_payload(c: Command) -> Option<u8> {
    match c {
        Command::M1Extend(p) | Command::M1Retract(p) | Command::M1SetPosition(p)
        | Command::M2Extend(p) | Command::M2Retract(p) | Command::M2SetPosition(p) => Some(p),
        _ => None,
    }
}

/// The command that an ID and payload stand for, if the pair is well formed.
pub open spec fn command_of(id: u8, payload: Option<u8>) -> Option<Command> {
    match payload {
        Some(p) => if id == MSG_M1_EXTEND {
            Some(Command::M1Extend(p))
        } else if id == MSG_M1_RETRACT {
            Some(Command::M1Retract(p))
        } else if id == MSG_M1_SET_POSITION {
            Some(Command::M1SetPosition(p))
        } else if id == MSG_M2_EXTEND {
            Some(Command::M2Extend(p))
        } else if id == MSG_M2_RETRACT {
            Some(Command::M2Retract(p))
        } else if id == MSG_M2_SET_POSITION {
            Some(Command::M2SetPosition(p))
        } else {
            None
        },
        None => if id == MSG_PING {
            Some(Command::Ping)
        } else if id == MSG_M1_BRAKE {
            Some(Command::M1Brake)
        } else if id == MSG_M2_BRAKE {
            Some(Command::M2Brake)
        } else {
            None
        },
    }
}

/// Checksum of a frame: the ID plus the payload (zero when absent), mod 256.
pub open spec fn frame_checksum(id: u8, payload: Option<u8>) -> u8 {
    match payload {
        Some(p) => ((id as nat + p as nat) % 256) as u8,
        None => id,
    }
}

/// The bytes of the frame that carries `c`.
pub open spec fn frame(c: Command) -> Seq<u8> {
    let id = command_id(c);
    match command_payload(c) {
        Some(p) => seq![START_BYTE, id, p, frame_checksum(id, Some(p))],
        None => seq![START_BYTE, id, frame_checksum(id, None)],
    }
}

/// Where the parser stands within a frame.
#[derive(Clone, Copy, Debug, PartialEq, Eq, Structural)]
pub enum ParseState {
    WaitStart,
    WaitId,
    WaitPayload { id: u8 },
    WaitChecksum { id: u8, payload: Option<u8> },
}

/// One transition of the parser: the next state and the command completed, if any.
pub open spec fn next(s: ParseState, byte: u8) -> (ParseState, Option<Command>) {
    match s {
        ParseState::WaitStart => if byte == START_BYTE {
            (ParseState::WaitId, None)
        } else {
            (ParseState::WaitStart, None)
        },
        ParseState::WaitId => if id_has_payload(byte) {
            (ParseState::WaitPayload { id: byte }, None)
        } else if id_without_payload(byte) {
            (ParseState::WaitChecksum { id: byte, payload: None }, None)
        } else {
            (ParseState::WaitStart, None)
        },
        ParseState::WaitPayload { id } => (ParseState::WaitChecksum { id, payload: Some(byte) }, None),
        ParseState::WaitChecksum { id, payload } => if byte == frame_checksum(id, payload) {
            (ParseState::WaitStart, command_of(id, payload))
        } else {
            (ParseState::WaitStart, None)
        },
    }
}

/// The state after feeding `bytes` one at a time, starting from `s`.
pub open spec fn state_after(s: ParseState, bytes: Seq<u8>) -> ParseState
    decreases bytes.len(),
{
    if bytes.len() == 0 {
        s
    } else {
        state_after(next(s, bytes[0]).0, bytes.drop_first())
    }
}

/// What each `push` returns while `bytes` are fed one at a time, starting from `s`.
pub open spec fn outputs(s: ParseState, bytes: Seq<u8>) -> Seq<Option<Command>>
    decreases bytes.len(),
{
    if bytes.len() == 0 {
        Seq::empty()
    } else {
        seq![next(s, bytes[0]).1] + outputs(next(s, bytes[0]).0, bytes.drop_first())
    }
}

/// Stream parser for the command protocol. Invalid frames are dropped
/// silently and the parser waits for the next start byte.
pub struct Parser {
    state: ParseState,
}

impl View for Parser {
    type V = ParseState;

    closed spec fn view(&self) -> ParseState {
        self.state
    }
}

impl Parser {
    /// A parser waiting for a start byte.
    pub fn new() -> (r: Self)
        ensures
            r@ == ParseState::WaitStart,
    {
        Parser { state: ParseState::WaitStart }
    }

    /// Feeds one byte; returns the command whose frame this byte completes.
    pub fn push(&mut self, byte: u8) -> (r: Option<Command>)
        ensures
            (final(self)@, r) == next(old(self)@, byte),
    {
        match self.state {
            ParseState::WaitStart => {
                if byte == START_BYTE {
                    self.state = ParseState::WaitId;
                }
                None
            },
            ParseState::WaitId => {
                if byte == MSG_M1_EXTEND || byte == MSG_M1_RETRACT || byte == MSG_M1_SET_POSITION
                    || byte == MSG_M2_EXTEND || byte == MSG_M2_RETRACT || byte
                    == MSG_M2_SET_POSITION {
                    self.state = ParseState::WaitPayload { id: byte };
                } else if byte == MSG_M1_BRAKE || byte == MSG_M2_BRAKE || byte == MSG_PING {
                    self.state = ParseState::WaitChecksum { id: byte, payload: None };
                } else {
                    self.state = ParseState::WaitStart;
                }
                None
            },
            ParseState::WaitPayload { id } => {
                self.state = ParseState::WaitChecksum { id, payload: Some(byte) };
                None
            },
            ParseState::WaitChecksum { id, payload } => {
                let expected = match payload {
                    Some(p) => id.wrapping_add(p),
                    None => id,
                };
                self.state = ParseState::WaitStart;
                if byte != expected {
                    return None;
                }
                match payload {
                    Some(p) => {
                        if id == MSG_M1_EXTEND {
                            Some(Command::M1Extend(p))
                        } else if id == MSG_M1_RETRACT {
                            Some(Command::M1Retract(p))
                        } else if id == MSG_M1_SET_POSITION {
                            Some(Command::M1SetPosition(p))
                        } else if id == MSG_M2_EXTEND {
                            Some(Command::M2Extend(p))
                        } else if id == MSG_M2_RETRACT {
                            Some(Command::M2Retract(p))
                        } else if id == MSG_M2_SET_POSITION {
                            Some(Command::M2SetPosition(p))
                        } else {
                            None
                        }
                    },
                    None => {
                        if id == MSG_PING {
                            Some(Command::Ping)
                        } else if id == MSG_M1_BRAKE {
                            Some(Command::M1Brake)
                        } else if id == MSG_M2_BRAKE {
                            Some(Command::M2Brake)
                        } else {
                            None
                        }
                    },
                }
            },
        }
    }
}

/// A valid frame fed to a parser that waits for a start byte yields its
/// command exactly once, at the last byte, and leaves the parser waiting for
/// the next start byte.
pub proof fn lemma_valid_frame_accepted(c: Command)
    ensures
        outputs(ParseState::WaitStart, frame(c)).len() == frame(c).len(),
        outputs(ParseState::WaitStart, frame(c)).last() == Some(c),
        forall|i: int|
            0 <= i < frame(c).len() - 1 ==> #[trigger] outputs(
                ParseState::WaitStart,
                frame(c),
            )[i] == None::<Command>,
        state_after(ParseState::WaitStart, frame(c)) == ParseState::WaitStart,
{
    reveal_with_fuel(outputs, 5);
    reveal_with_fuel(state_after, 5);
    let f = frame(c);
    lemma_unfold_frame_bytes(f);
}

/// A frame whose checksum byte is replaced by any other value yields no
/// command at any byte and leaves the parser waiting for a start byte, as it
/// was before the frame.
pub proof fn lemma_corrupt_frame_dropped(c: Command, bad: u8)
    requires
        bad != frame(c).last(),
    ensures
        forall|i: int|
            0 <= i < frame(c).len() ==> #[trigger] outputs(
                ParseState::WaitStart,
                frame(c).update(frame(c).len() - 1, bad),
            )[i] == None::<Command>,
        outputs(ParseState::WaitStart, frame(c).update(frame(c).len() - 1, bad)).len()
            == frame(c).len(),
        state_after(ParseState::WaitStart, frame(c).update(frame(c).len() - 1, bad))
            == ParseState::WaitStart,
{
    reveal_with_fuel(outputs, 5);
    reveal_with_fuel(state_after, 5);
    let f = frame(c).update(frame(c).len() - 1, bad);
    lemma_unfold_frame_bytes(f);
}

proof fn lemma_unfold_frame_bytes(f: Seq<u8>)
    requires
        f.len() == 3 || f.len() == 4,
    ensures
        f.drop_first() =~= f.subrange(1, f.len() as int),
        f.drop_first().drop_first() =~= f.subrange(2, f.len() as int),
        f.drop_first().drop_first().drop_first() =~= f.subrange(3, f.len() as int),
        f.len() == 3 ==> f.drop_first().drop_first().drop_first() =~= Seq::<u8>::empty(),
        f.len() == 4 ==> f.drop_first().drop_first().drop_first().drop_first()
            =~= Seq::<u8>::empty(),
{
}

} // verus!

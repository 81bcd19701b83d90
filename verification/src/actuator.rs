//! What is recorded of one actuator: the state it reported, the command it was
//! sent, and how it was configured.
//!
//! Real numbers are held as IEEE 754 bit patterns: 64 bits wide in a `u64`,
//! 32 bits wide in a `u32`.

use crate::fixed::{
    fixed32_field, lemma_fixed32_field_complete, lemma_fixed32_field_sound,
    lemma_opt_fixed32_complete, lemma_opt_fixed32_sound, lemma_opt_fixed64_complete,
    lemma_opt_fixed64_sound, opt_fixed32_field, opt_fixed64_field, parse_fixed32_field,
    parse_opt_fixed32_field, parse_opt_fixed64_field, put_fixed32_field, put_opt_fixed32_field,
    put_opt_fixed64_field, take_fixed32_field, take_opt_fixed32_field, take_opt_fixed64_field,
};
use crate::text::{
    lemma_opt_text_complete, lemma_opt_text_sound, opt_text, opt_text_field, parse_opt_text_field,
    put_opt_text_field, take_opt_text_field,
};
use crate::wire::{
    flag_value, lemma_at_all, lemma_at_bounds, lemma_at_split, lemma_at_whole,
    lemma_flag_field_complete, lemma_flag_field_sound, lemma_u32_field_complete,
    lemma_u32_field_sound, parse_flag_field, parse_u32_field, put_flag_field, put_uint_field,
    take_flag_field, take_u32_field, uint_field,
};
use vstd::prelude::*;

verus! {

/// The state that one actuator reported. The identifier tells the actuators of
/// a frame apart; each measured quantity may be absent.
#[derive(Clone, Copy, Debug, PartialEq, Eq)]
pub struct ActuatorState {
    pub actuator_id: u32,
    pub online: bool,
    pub position: Option<u64>,
    pub velocity: Option<u64>,
    pub torque: Option<u64>,
    pub temperature: Option<u64>,
    /// 32 bits wide.
    pub voltage: Option<u32>,
    /// 32 bits wide.
    pub current: Option<u32>,
}

/// The command sent to one actuator. All three targets are always there, 32
/// bits wide each.
#[derive(Clone, Copy, Debug, PartialEq, Eq)]
pub struct ActuatorCommand {
    pub actuator_id: u32,
    pub position: u32,
    pub velocity: u32,
    pub effort: u32,
}

/// How one actuator was configured: gains and a torque limit, each of which
/// may be absent, and a name for people to read.
#[derive(Clone, Debug, PartialEq, Eq)]
pub struct ActuatorConfig {
    pub actuator_id: u32,
    pub kp: Option<u64>,
    pub kd: Option<u64>,
    pub ki: Option<u64>,
    pub max_torque: Option<u64>,
    pub name: Option<String>,
}

/// A configuration as a mathematical value.
pub struct ActuatorConfigView {
    pub actuator_id: u32,
    pub kp: Option<u64>,
    pub kd: Option<u64>,
    pub ki: Option<u64>,
    pub max_torque: Option<u64>,
    pub name: Option<Seq<char>>,
}

impl View for ActuatorConfig {
    type V = ActuatorConfigView;

    open spec fn view(&self) -> ActuatorConfigView {
        ActuatorConfigView {
            actuator_id: self.actuator_id,
            kp: self.kp,
            kd: self.kd,
            ki: self.ki,
            max_torque: self.max_torque,
            name: opt_text(self.name),
        }
    }
}

impl Default for ActuatorState {
    /// The state of actuator zero: offline, with nothing measured.
    fn default() -> (st: ActuatorState)
        ensures
            st == (ActuatorState {
                actuator_id: 0,
                online: false,
                position: None,
                velocity: None,
                torque: None,
                temperature: None,
                voltage: None,
                current: None,
            }),
    {
        ActuatorState {
            actuator_id: 0,
            online: false,
            position: None,
            velocity: None,
            torque: None,
            temperature: None,
            voltage: None,
            current: None,
        }
    }
}

impl Default for ActuatorCommand {
    /// The command for actuator zero with all three targets at zero.
    fn default() -> (c: ActuatorCommand)
        ensures
            c == (ActuatorCommand { actuator_id: 0, position: 0, velocity: 0, effort: 0 }),
    {
        ActuatorCommand { actuator_id: 0, position: 0, velocity: 0, effort: 0 }
    }
}

impl Default for ActuatorConfig {
    /// The configuration of actuator zero with nothing set.
    fn default() -> (c: ActuatorConfig)
        ensures
            c == (ActuatorConfig {
                actuator_id: 0,
                kp: None,
                kd: None,
                ki: None,
                max_torque: None,
                name: None,
            }),
    {
        ActuatorConfig {
            actuator_id: 0,
            kp: None,
            kd: None,
            ki: None,
            max_torque: None,
            name: None,
        }
    }
}

/// Key of field 1, a varint.
pub const KEY_ID: u8 = 0x08;

/// Key of field 2, 64 bits.
pub const KEY_KP: u8 = 0x11;

/// Key of field 3, 64 bits.
pub const KEY_KD: u8 = 0x19;

/// Key of field 4, 64 bits.
pub const KEY_KI: u8 = 0x21;

/// Key of field 5, 64 bits.
pub const KEY_MAX_TORQUE: u8 = 0x29;

/// Key of field 6, length-delimited.
pub const KEY_NAME: u8 = 0x32;

/// Key of field 2, a varint.
pub const KEY_ONLINE: u8 = 0x10;

/// Key of field 3, 64 bits.
pub const KEY_STATE_POSITION: u8 = 0x19;

/// Key of field 4, 64 bits.
pub const KEY_STATE_VELOCITY: u8 = 0x21;

/// Key of field 5, 64 bits.
pub const KEY_TORQUE: u8 = 0x29;

/// Key of field 6, 64 bits.
pub const KEY_TEMPERATURE: u8 = 0x31;

/// Key of field 7, 32 bits.
pub const KEY_VOLTAGE: u8 = 0x3D;

/// Key of field 8, 32 bits.
pub const KEY_CURRENT: u8 = 0x45;

/// Key of field 2, 32 bits.
pub const KEY_COMMAND_POSITION: u8 = 0x15;

/// Key of field 3, 32 bits.
pub const KEY_COMMAND_VELOCITY: u8 = 0x1D;

/// Key of field 4, 32 bits.
pub const KEY_EFFORT: u8 = 0x25;

/// A state on the wire: identifier and online flag, then each measured
/// quantity that is present.
pub open spec fn state_bytes(st: ActuatorState) -> Seq<u8> {
    uint_field(KEY_ID, st.actuator_id as u64) + uint_field(KEY_ONLINE, flag_value(st.online))
        + opt_fixed64_field(KEY_STATE_POSITION, st.position) + opt_fixed64_field(
        KEY_STATE_VELOCITY,
        st.velocity,
    ) + opt_fixed64_field(KEY_TORQUE, st.torque) + opt_fixed64_field(
        KEY_TEMPERATURE,
        st.temperature,
    ) + opt_fixed32_field(KEY_VOLTAGE, st.voltage) + opt_fixed32_field(KEY_CURRENT, st.current)
}

/// The state that `p` holds, where `p` is one state and nothing more.
#[verifier::opaque]
pub open spec fn parse_state(p: Seq<u8>) -> Option<ActuatorState> {
    match parse_u32_field(p, 0, KEY_ID) {
        Some((actuator_id, a)) => match parse_flag_field(p, a, KEY_ONLINE) {
            Some((online, b)) => match parse_opt_fixed64_field(p, b, KEY_STATE_POSITION) {
                Some((position, c)) => match parse_opt_fixed64_field(p, c, KEY_STATE_VELOCITY) {
                    Some((velocity, d)) => match parse_opt_fixed64_field(p, d, KEY_TORQUE) {
                        Some((torque, e)) => match parse_opt_fixed64_field(
                            p,
                            e,
                            KEY_TEMPERATURE,
                        ) {
                            Some((temperature, f)) => match parse_opt_fixed32_field(
                                p,
                                f,
                                KEY_VOLTAGE,
                            ) {
                                Some((voltage, g)) => match parse_opt_fixed32_field(
                                    p,
                                    g,
                                    KEY_CURRENT,
                                ) {
                                    Some((current, h)) => if h == p.len() {
                                        Some(
                                            ActuatorState {
                                                actuator_id,
                                                online,
                                                position,
                                                velocity,
                                                torque,
                                                temperature,
                                                voltage,
                                                current,
                                            },
                                        )
                                    } else {
                                        None
                                    },
                                    None => None,
                                },
                                None => None,
                            },
                            None => None,
                        },
                        None => None,
                    },
                    None => None,
                },
                None => None,
            },
            None => None,
        },
        None => None,
    }
}

/// A state's bytes are read back as that state.
#[verifier::rlimit(30)]
pub proof fn lemma_state_complete(st: ActuatorState)
    ensures
        parse_state(state_bytes(st)) == Some(st),
{
    reveal(parse_state);
    let p = state_bytes(st);
    let f1 = uint_field(KEY_ID, st.actuator_id as u64);
    let f2 = uint_field(KEY_ONLINE, flag_value(st.online));
    let f3 = opt_fixed64_field(KEY_STATE_POSITION, st.position);
    let f4 = opt_fixed64_field(KEY_STATE_VELOCITY, st.velocity);
    let f5 = opt_fixed64_field(KEY_TORQUE, st.torque);
    let f6 = opt_fixed64_field(KEY_TEMPERATURE, st.temperature);
    let f7 = opt_fixed32_field(KEY_VOLTAGE, st.voltage);
    let f8 = opt_fixed32_field(KEY_CURRENT, st.current);
    lemma_at_whole(p);
    lemma_at_split(p, 0, f1 + f2 + f3 + f4 + f5 + f6 + f7, f8);
    lemma_at_split(p, 0, f1 + f2 + f3 + f4 + f5 + f6, f7);
    lemma_at_split(p, 0, f1 + f2 + f3 + f4 + f5, f6);
    lemma_at_split(p, 0, f1 + f2 + f3 + f4, f5);
    lemma_at_split(p, 0, f1 + f2 + f3, f4);
    lemma_at_split(p, 0, f1 + f2, f3);
    lemma_at_split(p, 0, f1, f2);
    let a = f1.len() as int;
    let b = a + f2.len();
    let c = b + f3.len();
    let d = c + f4.len();
    let e = d + f5.len();
    let f = e + f6.len();
    let g = f + f7.len();
    lemma_opt_fixed32_complete(p, g, KEY_CURRENT, st.current);
    lemma_opt_fixed32_complete(p, f, KEY_VOLTAGE, st.voltage);
    lemma_opt_fixed64_complete(p, e, KEY_TEMPERATURE, st.temperature);
    lemma_opt_fixed64_complete(p, d, KEY_TORQUE, st.torque);
    lemma_opt_fixed64_complete(p, c, KEY_STATE_VELOCITY, st.velocity);
    lemma_opt_fixed64_complete(p, b, KEY_STATE_POSITION, st.position);
    lemma_flag_field_complete(p, a, KEY_ONLINE, st.online);
    lemma_u32_field_complete(p, 0, KEY_ID, st.actuator_id);
}

/// Bytes that read as a state are that state's bytes.
#[verifier::rlimit(30)]
pub proof fn lemma_state_sound(p: Seq<u8>)
    requires
        parse_state(p) is Some,
    ensures
        p == state_bytes(parse_state(p).unwrap()),
{
    reveal(parse_state);
    let st = parse_state(p).unwrap();
    let f1 = uint_field(KEY_ID, st.actuator_id as u64);
    let f2 = uint_field(KEY_ONLINE, flag_value(st.online));
    let f3 = opt_fixed64_field(KEY_STATE_POSITION, st.position);
    let f4 = opt_fixed64_field(KEY_STATE_VELOCITY, st.velocity);
    let f5 = opt_fixed64_field(KEY_TORQUE, st.torque);
    let f6 = opt_fixed64_field(KEY_TEMPERATURE, st.temperature);
    let f7 = opt_fixed32_field(KEY_VOLTAGE, st.voltage);
    let f8 = opt_fixed32_field(KEY_CURRENT, st.current);
    lemma_u32_field_sound(p, 0, KEY_ID);
    let a = parse_u32_field(p, 0, KEY_ID).unwrap().1;
    lemma_flag_field_sound(p, a, KEY_ONLINE);
    let b = parse_flag_field(p, a, KEY_ONLINE).unwrap().1;
    lemma_opt_fixed64_sound(p, b, KEY_STATE_POSITION);
    let c = parse_opt_fixed64_field(p, b, KEY_STATE_POSITION).unwrap().1;
    lemma_opt_fixed64_sound(p, c, KEY_STATE_VELOCITY);
    let d = parse_opt_fixed64_field(p, c, KEY_STATE_VELOCITY).unwrap().1;
    lemma_opt_fixed64_sound(p, d, KEY_TORQUE);
    let e = parse_opt_fixed64_field(p, d, KEY_TORQUE).unwrap().1;
    lemma_opt_fixed64_sound(p, e, KEY_TEMPERATURE);
    let f = parse_opt_fixed64_field(p, e, KEY_TEMPERATURE).unwrap().1;
    lemma_opt_fixed32_sound(p, f, KEY_VOLTAGE);
    let g = parse_opt_fixed32_field(p, f, KEY_VOLTAGE).unwrap().1;
    lemma_opt_fixed32_sound(p, g, KEY_CURRENT);
    lemma_at_split(p, 0, f1, f2);
    lemma_at_split(p, 0, f1 + f2, f3);
    lemma_at_split(p, 0, f1 + f2 + f3, f4);
    lemma_at_split(p, 0, f1 + f2 + f3 + f4, f5);
    lemma_at_split(p, 0, f1 + f2 + f3 + f4 + f5, f6);
    lemma_at_split(p, 0, f1 + f2 + f3 + f4 + f5 + f6, f7);
    lemma_at_split(p, 0, f1 + f2 + f3 + f4 + f5 + f6 + f7, f8);
    lemma_at_all(p, state_bytes(st));
}

impl ActuatorState {
    /// Appends the state's bytes to `buf`.
    pub fn encode(&self, buf: &mut Vec<u8>)
        ensures
            final(buf)@ == old(buf)@ + state_bytes(*self),
    {
        put_uint_field(buf, KEY_ID, self.actuator_id as u64);
        put_flag_field(buf, KEY_ONLINE, self.online);
        put_opt_fixed64_field(buf, KEY_STATE_POSITION, self.position);
        put_opt_fixed64_field(buf, KEY_STATE_VELOCITY, self.velocity);
        put_opt_fixed64_field(buf, KEY_TORQUE, self.torque);
        put_opt_fixed64_field(buf, KEY_TEMPERATURE, self.temperature);
        put_opt_fixed32_field(buf, KEY_VOLTAGE, self.voltage);
        put_opt_fixed32_field(buf, KEY_CURRENT, self.current);
        assert(final(buf)@ =~= old(buf)@ + state_bytes(*self));
    }

    /// Reads the state that `bytes` holds; `None` unless `bytes` is exactly
    /// what `encode` writes for some state.
    pub fn decode(bytes: &[u8]) -> (res: Option<ActuatorState>)
        ensures
            res == parse_state(bytes@),
            res matches Some(st) ==> bytes@ == state_bytes(st),
            res is None ==> forall|st: ActuatorState| bytes@ != state_bytes(st),
    {
        proof {
            reveal(parse_state);
            if parse_state(bytes@) is Some {
                lemma_state_sound(bytes@);
            } else {
                assert forall|st: ActuatorState| bytes@ != state_bytes(st) by {
                    lemma_state_complete(st);
                }
            }
        }
        let (actuator_id, a) = match take_u32_field(bytes, 0, KEY_ID) {
            Some(r) => r,
            None => { return None; },
        };
        let (online, b) = match take_flag_field(bytes, a, KEY_ONLINE) {
            Some(r) => r,
            None => { return None; },
        };
        let (position, c) = match take_opt_fixed64_field(bytes, b, KEY_STATE_POSITION) {
            Some(r) => r,
            None => { return None; },
        };
        let (velocity, d) = match take_opt_fixed64_field(bytes, c, KEY_STATE_VELOCITY) {
            Some(r) => r,
            None => { return None; },
        };
        let (torque, e) = match take_opt_fixed64_field(bytes, d, KEY_TORQUE) {
            Some(r) => r,
            None => { return None; },
        };
        let (temperature, f) = match take_opt_fixed64_field(bytes, e, KEY_TEMPERATURE) {
            Some(r) => r,
            None => { return None; },
        };
        let (voltage, g) = match take_opt_fixed32_field(bytes, f, KEY_VOLTAGE) {
            Some(r) => r,
            None => { return None; },
        };
        let (current, h) = match take_opt_fixed32_field(bytes, g, KEY_CURRENT) {
            Some(r) => r,
            None => { return None; },
        };
        if h == bytes.len() {
            Some(
                ActuatorState {
                    actuator_id,
                    online,
                    position,
                    velocity,
                    torque,
                    temperature,
                    voltage,
                    current,
                },
            )
        } else {
            None
        }
    }
}

/// A command on the wire: identifier, then the three targets, each a 32-bit
/// field.
pub open spec fn command_bytes(c: ActuatorCommand) -> Seq<u8> {
    uint_field(KEY_ID, c.actuator_id as u64) + fixed32_field(KEY_COMMAND_POSITION, c.position)
        + fixed32_field(KEY_COMMAND_VELOCITY, c.velocity) + fixed32_field(KEY_EFFORT, c.effort)
}

/// The command that `p` holds, where `p` is one command and nothing more.
#[verifier::opaque]
pub open spec fn parse_command(p: Seq<u8>) -> Option<ActuatorCommand> {
    match parse_u32_field(p, 0, KEY_ID) {
        Some((actuator_id, a)) => match parse_fixed32_field(p, a, KEY_COMMAND_POSITION) {
            Some((position, b)) => match parse_fixed32_field(p, b, KEY_COMMAND_VELOCITY) {
                Some((velocity, c)) => match parse_fixed32_field(p, c, KEY_EFFORT) {
                    Some((effort, d)) => if d == p.len() {
                        Some(ActuatorCommand { actuator_id, position, velocity, effort })
                    } else {
                        None
                    },
                    None => None,
                },
                None => None,
            },
            None => None,
        },
        None => None,
    }
}

/// A command's bytes are read back as that command.
pub proof fn lemma_command_complete(c: ActuatorCommand)
    ensures
        parse_command(command_bytes(c)) == Some(c),
{
    reveal(parse_command);
    let p = command_bytes(c);
    let f1 = uint_field(KEY_ID, c.actuator_id as u64);
    let f2 = fixed32_field(KEY_COMMAND_POSITION, c.position);
    let f3 = fixed32_field(KEY_COMMAND_VELOCITY, c.velocity);
    let f4 = fixed32_field(KEY_EFFORT, c.effort);
    lemma_at_whole(p);
    lemma_at_split(p, 0, f1 + f2 + f3, f4);
    lemma_at_split(p, 0, f1 + f2, f3);
    lemma_at_split(p, 0, f1, f2);
    let a = f1.len() as int;
    lemma_u32_field_complete(p, 0, KEY_ID, c.actuator_id);
    lemma_fixed32_field_complete(p, a, KEY_COMMAND_POSITION, c.position);
    lemma_fixed32_field_complete(p, a + 5, KEY_COMMAND_VELOCITY, c.velocity);
    lemma_fixed32_field_complete(p, a + 10, KEY_EFFORT, c.effort);
}

/// Bytes that read as a command are that command's bytes.
pub proof fn lemma_command_sound(p: Seq<u8>)
    requires
        parse_command(p) is Some,
    ensures
        p == command_bytes(parse_command(p).unwrap()),
{
    reveal(parse_command);
    let c = parse_command(p).unwrap();
    let f1 = uint_field(KEY_ID, c.actuator_id as u64);
    let f2 = fixed32_field(KEY_COMMAND_POSITION, c.position);
    let f3 = fixed32_field(KEY_COMMAND_VELOCITY, c.velocity);
    let f4 = fixed32_field(KEY_EFFORT, c.effort);
    lemma_u32_field_sound(p, 0, KEY_ID);
    let a = parse_u32_field(p, 0, KEY_ID).unwrap().1;
    lemma_fixed32_field_sound(p, a, KEY_COMMAND_POSITION);
    lemma_fixed32_field_sound(p, a + 5, KEY_COMMAND_VELOCITY);
    lemma_fixed32_field_sound(p, a + 10, KEY_EFFORT);
    lemma_at_split(p, 0, f1, f2);
    lemma_at_split(p, 0, f1 + f2, f3);
    lemma_at_split(p, 0, f1 + f2 + f3, f4);
    lemma_at_all(p, command_bytes(c));
}

impl ActuatorCommand {
    /// Appends the command's bytes to `buf`.
    pub fn encode(&self, buf: &mut Vec<u8>)
        ensures
            final(buf)@ == old(buf)@ + command_bytes(*self),
    {
        put_uint_field(buf, KEY_ID, self.actuator_id as u64);
        put_fixed32_field(buf, KEY_COMMAND_POSITION, self.position);
        put_fixed32_field(buf, KEY_COMMAND_VELOCITY, self.velocity);
        put_fixed32_field(buf, KEY_EFFORT, self.effort);
        assert(final(buf)@ =~= old(buf)@ + command_bytes(*self));
    }

    /// Reads the command that `bytes` holds; `None` unless `bytes` is exactly
    /// what `encode` writes for some command.
    pub fn decode(bytes: &[u8]) -> (res: Option<ActuatorCommand>)
        ensures
            res == parse_command(bytes@),
            res matches Some(c) ==> bytes@ == command_bytes(c),
            res is None ==> forall|c: ActuatorCommand| bytes@ != command_bytes(c),
    {
        proof {
            reveal(parse_command);
            if parse_command(bytes@) is Some {
                lemma_command_sound(bytes@);
            } else {
                assert forall|c: ActuatorCommand| bytes@ != command_bytes(c) by {
                    lemma_command_complete(c);
                }
            }
        }
        let (actuator_id, a) = match take_u32_field(bytes, 0, KEY_ID) {
            Some(r) => r,
            None => { return None; },
        };
        let (position, b) = match take_fixed32_field(bytes, a, KEY_COMMAND_POSITION) {
            Some(r) => r,
            None => { return None; },
        };
        let (velocity, c) = match take_fixed32_field(bytes, b, KEY_COMMAND_VELOCITY) {
            Some(r) => r,
            None => { return None; },
        };
        let (effort, d) = match take_fixed32_field(bytes, c, KEY_EFFORT) {
            Some(r) => r,
            None => { return None; },
        };
        if d == bytes.len() {
            Some(ActuatorCommand { actuator_id, position, velocity, effort })
        } else {
            None
        }
    }
}

/// A configuration on the wire: identifier, then each gain and the limit
/// where present, then the name where present.
pub open spec fn config_bytes(c: ActuatorConfigView) -> Seq<u8> {
    uint_field(KEY_ID, c.actuator_id as u64) + opt_fixed64_field(KEY_KP, c.kp)
        + opt_fixed64_field(KEY_KD, c.kd) + opt_fixed64_field(KEY_KI, c.ki) + opt_fixed64_field(
        KEY_MAX_TORQUE,
        c.max_torque,
    ) + opt_text_field(KEY_NAME, c.name)
}

/// The configuration that `p` holds, where `p` is one configuration and
/// nothing more.
#[verifier::opaque]
pub open spec fn parse_config(p: Seq<u8>) -> Option<ActuatorConfigView> {
    match parse_u32_field(p, 0, KEY_ID) {
        Some((actuator_id, a)) => match parse_opt_fixed64_field(p, a, KEY_KP) {
            Some((kp, b)) => match parse_opt_fixed64_field(p, b, KEY_KD) {
                Some((kd, c)) => match parse_opt_fixed64_field(p, c, KEY_KI) {
                    Some((ki, d)) => match parse_opt_fixed64_field(p, d, KEY_MAX_TORQUE) {
                        Some((max_torque, e)) => match parse_opt_text_field(p, e, KEY_NAME) {
                            Some((name, f)) => if f == p.len() {
                                Some(
                                    ActuatorConfigView {
                                        actuator_id,
                                        kp,
                                        kd,
                                        ki,
                                        max_torque,
                                        name,
                                    },
                                )
                            } else {
                                None
                            },
                            None => None,
                        },
                        None => None,
                    },
                    None => None,
                },
                None => None,
            },
            None => None,
        },
        None => None,
    }
}

/// A configuration's bytes are read back as that configuration.
#[verifier::rlimit(30)]
pub proof fn lemma_config_complete(c: ActuatorConfigView)
    ensures
        parse_config(config_bytes(c)) == Some(c),
{
    reveal(parse_config);
    let p = config_bytes(c);
    let f1 = uint_field(KEY_ID, c.actuator_id as u64);
    let f2 = opt_fixed64_field(KEY_KP, c.kp);
    let f3 = opt_fixed64_field(KEY_KD, c.kd);
    let f4 = opt_fixed64_field(KEY_KI, c.ki);
    let f5 = opt_fixed64_field(KEY_MAX_TORQUE, c.max_torque);
    let f6 = opt_text_field(KEY_NAME, c.name);
    lemma_at_whole(p);
    lemma_at_split(p, 0, f1 + f2 + f3 + f4 + f5, f6);
    lemma_at_split(p, 0, f1 + f2 + f3 + f4, f5);
    lemma_at_split(p, 0, f1 + f2 + f3, f4);
    lemma_at_split(p, 0, f1 + f2, f3);
    lemma_at_split(p, 0, f1, f2);
    let a = f1.len() as int;
    let b = a + f2.len();
    let cc = b + f3.len();
    let d = cc + f4.len();
    let e = d + f5.len();
    lemma_opt_text_complete(p, e, KEY_NAME, c.name);
    lemma_opt_fixed64_complete(p, d, KEY_MAX_TORQUE, c.max_torque);
    lemma_opt_fixed64_complete(p, cc, KEY_KI, c.ki);
    lemma_opt_fixed64_complete(p, b, KEY_KD, c.kd);
    lemma_opt_fixed64_complete(p, a, KEY_KP, c.kp);
    lemma_u32_field_complete(p, 0, KEY_ID, c.actuator_id);
}

/// Bytes that read as a configuration are that configuration's bytes.
#[verifier::rlimit(30)]
pub proof fn lemma_config_sound(p: Seq<u8>)
    requires
        parse_config(p) is Some,
    ensures
        p == config_bytes(parse_config(p).unwrap()),
{
    reveal(parse_config);
    let c = parse_config(p).unwrap();
    let f1 = uint_field(KEY_ID, c.actuator_id as u64);
    let f2 = opt_fixed64_field(KEY_KP, c.kp);
    let f3 = opt_fixed64_field(KEY_KD, c.kd);
    let f4 = opt_fixed64_field(KEY_KI, c.ki);
    let f5 = opt_fixed64_field(KEY_MAX_TORQUE, c.max_torque);
    let f6 = opt_text_field(KEY_NAME, c.name);
    lemma_u32_field_sound(p, 0, KEY_ID);
    let a = parse_u32_field(p, 0, KEY_ID).unwrap().1;
    lemma_at_bounds(p, 0, f1);
    lemma_opt_fixed64_sound(p, a, KEY_KP);
    let b = parse_opt_fixed64_field(p, a, KEY_KP).unwrap().1;
    lemma_at_bounds(p, a, f2);
    lemma_opt_fixed64_sound(p, b, KEY_KD);
    let cc = parse_opt_fixed64_field(p, b, KEY_KD).unwrap().1;
    lemma_at_bounds(p, b, f3);
    lemma_opt_fixed64_sound(p, cc, KEY_KI);
    let d = parse_opt_fixed64_field(p, cc, KEY_KI).unwrap().1;
    lemma_at_bounds(p, cc, f4);
    lemma_opt_fixed64_sound(p, d, KEY_MAX_TORQUE);
    let e = parse_opt_fixed64_field(p, d, KEY_MAX_TORQUE).unwrap().1;
    lemma_at_bounds(p, d, f5);
    lemma_opt_text_sound(p, e, KEY_NAME);
    lemma_at_split(p, 0, f1, f2);
    lemma_at_split(p, 0, f1 + f2, f3);
    lemma_at_split(p, 0, f1 + f2 + f3, f4);
    lemma_at_split(p, 0, f1 + f2 + f3 + f4, f5);
    lemma_at_split(p, 0, f1 + f2 + f3 + f4 + f5, f6);
    lemma_at_all(p, config_bytes(c));
}

impl ActuatorConfig {
    /// Appends the configuration's bytes to `buf`.
    pub fn encode(&self, buf: &mut Vec<u8>)
        ensures
            final(buf)@ == old(buf)@ + config_bytes(self@),
    {
        put_uint_field(buf, KEY_ID, self.actuator_id as u64);
        put_opt_fixed64_field(buf, KEY_KP, self.kp);
        put_opt_fixed64_field(buf, KEY_KD, self.kd);
        put_opt_fixed64_field(buf, KEY_KI, self.ki);
        put_opt_fixed64_field(buf, KEY_MAX_TORQUE, self.max_torque);
        put_opt_text_field(buf, KEY_NAME, &self.name);
        assert(final(buf)@ =~= old(buf)@ + config_bytes(self@));
    }

    /// Reads the configuration that `bytes` holds; `None` unless `bytes` is
    /// exactly what `encode` writes for some configuration.
    pub fn decode(bytes: &[u8]) -> (res: Option<ActuatorConfig>)
        ensures
            res is Some <==> parse_config(bytes@) is Some,
            res matches Some(c) ==> parse_config(bytes@) == Some(c@) && bytes@ == config_bytes(
                c@,
            ),
            res is None ==> forall|c: ActuatorConfigView| bytes@ != config_bytes(c),
    {
        proof {
            reveal(parse_config);
            if parse_config(bytes@) is Some {
                lemma_config_sound(bytes@);
            } else {
                assert forall|c: ActuatorConfigView| bytes@ != config_bytes(c) by {
                    if bytes@ == config_bytes(c) {
                        lemma_config_complete(c);
                    }
                }
            }
        }
        let (actuator_id, a) = match take_u32_field(bytes, 0, KEY_ID) {
            Some(r) => r,
            None => { return None; },
        };
        let (kp, b) = match take_opt_fixed64_field(bytes, a, KEY_KP) {
            Some(r) => r,
            None => { return None; },
        };
        let (kd, c) = match take_opt_fixed64_field(bytes, b, KEY_KD) {
            Some(r) => r,
            None => { return None; },
        };
        let (ki, d) = match take_opt_fixed64_field(bytes, c, KEY_KI) {
            Some(r) => r,
            None => { return None; },
        };
        let (max_torque, e) = match take_opt_fixed64_field(bytes, d, KEY_MAX_TORQUE) {
            Some(r) => r,
            None => { return None; },
        };
        let (name, f) = match take_opt_text_field(bytes, e, KEY_NAME) {
            Some(r) => r,
            None => { return None; },
        };
        if f == bytes.len() {
            Some(ActuatorConfig { actuator_id, kp, kd, ki, max_torque, name })
        } else {
            None
        }
    }
}

} // verus!

//! One frame of a recording: what was sampled at one instant.

use crate::actuator::{
    command_bytes, config_bytes, lemma_command_complete, lemma_command_sound,
    lemma_config_complete, lemma_config_sound, lemma_state_complete, lemma_state_sound,
    parse_command, parse_config, parse_state, state_bytes, ActuatorCommand, ActuatorConfig,
    ActuatorConfigView, ActuatorState,
};
use crate::imu::{
    lemma_opt_imu_complete, lemma_opt_imu_sound, opt_imu_field, parse_opt_imu_field,
    put_opt_imu_field, take_opt_imu_field, ImuValues,
};
use crate::wire::{
    at, lemma_at_bounds, lemma_at_split, lemma_len_field_sound, lemma_repeated_complete,
    lemma_repeated_sound, lemma_uint_field_complete, lemma_uint_field_sound,
    parse_repeated_field, parse_uint_field, peek_key, put_len_field, put_uint_field,
    repeated_field, take_len_field, take_uint_field, uint_field,
};
use vstd::prelude::*;
use vstd::slice::slice_subrange;

verus! {

/// One sample: the states, configurations and commands of the actuators that
/// were seen, each list in the order given, the inertial readings if there
/// were any, and the time of the sample. Neighbouring frames need not speak of
/// the same actuators.
#[derive(Clone, Debug, PartialEq, Eq)]
pub struct KRecFrame {
    pub timestamp: u64,
    pub actuator_states: Vec<ActuatorState>,
    pub actuator_configs: Vec<ActuatorConfig>,
    pub actuator_commands: Vec<ActuatorCommand>,
    pub imu_values: Option<ImuValues>,
}

/// A frame as a mathematical value.
pub struct KRecFrameView {
    pub timestamp: u64,
    pub actuator_states: Seq<ActuatorState>,
    pub actuator_configs: Seq<ActuatorConfigView>,
    pub actuator_commands: Seq<ActuatorCommand>,
    pub imu_values: Option<ImuValues>,
}

/// The configurations of a list as mathematical values.
pub open spec fn configs_view(v: Seq<ActuatorConfig>) -> Seq<ActuatorConfigView> {
    Seq::new(v.len(), |i: int| v[i]@)
}

impl View for KRecFrame {
    type V = KRecFrameView;

    open spec fn view(&self) -> KRecFrameView {
        KRecFrameView {
            timestamp: self.timestamp,
            actuator_states: self.actuator_states@,
            actuator_configs: configs_view(self.actuator_configs@),
            actuator_commands: self.actuator_commands@,
            imu_values: self.imu_values,
        }
    }
}

/// Key of field 1, length-delimited.
impl Default for KRecFrame {
    /// The frame at time zero that holds nothing.
    fn default() -> (f: KRecFrame)
        ensures
            f.timestamp == 0,
            f.actuator_states@.len() == 0,
            f.actuator_configs@.len() == 0,
            f.actuator_commands@.len() == 0,
            f.imu_values is None,
    {
        KRecFrame {
            timestamp: 0,
            actuator_states: Vec::new(),
            actuator_configs: Vec::new(),
            actuator_commands: Vec::new(),
            imu_values: None,
        }
    }
}

pub const KEY_STATES: u8 = 0x0A;

/// Key of field 2, length-delimited.
pub const KEY_CONFIGS: u8 = 0x12;

/// Key of field 3, length-delimited.
pub const KEY_COMMANDS: u8 = 0x1A;

/// Key of field 4, length-delimited.
pub const KEY_IMU: u8 = 0x22;

/// Key of field 5, a varint.
pub const KEY_TIMESTAMP: u8 = 0x28;

/// A state's bytes, as a function.
pub open spec fn state_enc() -> spec_fn(ActuatorState) -> Seq<u8> {
    |st: ActuatorState| state_bytes(st)
}

/// The reading of a state, as a function.
pub open spec fn state_dec() -> spec_fn(Seq<u8>) -> Option<ActuatorState> {
    |p: Seq<u8>| parse_state(p)
}

/// A configuration's bytes, as a function.
pub open spec fn config_enc() -> spec_fn(ActuatorConfigView) -> Seq<u8> {
    |c: ActuatorConfigView| config_bytes(c)
}

/// The reading of a configuration, as a function.
pub open spec fn config_dec() -> spec_fn(Seq<u8>) -> Option<ActuatorConfigView> {
    |p: Seq<u8>| parse_config(p)
}

/// A command's bytes, as a function.
pub open spec fn command_enc() -> spec_fn(ActuatorCommand) -> Seq<u8> {
    |c: ActuatorCommand| command_bytes(c)
}

/// The reading of a command, as a function.
pub open spec fn command_dec() -> spec_fn(Seq<u8>) -> Option<ActuatorCommand> {
    |p: Seq<u8>| parse_command(p)
}

/// The states of a frame on the wire: one field for each, in order.
pub open spec fn states_field(items: Seq<ActuatorState>) -> Seq<u8> {
    repeated_field(KEY_STATES, items, state_enc())
}

/// The configurations of a frame on the wire: one field for each, in order.
pub open spec fn configs_field(items: Seq<ActuatorConfigView>) -> Seq<u8> {
    repeated_field(KEY_CONFIGS, items, config_enc())
}

/// The commands of a frame on the wire: one field for each, in order.
pub open spec fn commands_field(items: Seq<ActuatorCommand>) -> Seq<u8> {
    repeated_field(KEY_COMMANDS, items, command_enc())
}

/// The states that stand at `pos`, and the position behind them.
pub open spec fn parse_states(s: Seq<u8>, pos: int) -> Option<(Seq<ActuatorState>, int)> {
    parse_repeated_field(s, pos, KEY_STATES, state_dec())
}

/// The configurations that stand at `pos`, and the position behind them.
pub open spec fn parse_configs(s: Seq<u8>, pos: int) -> Option<(Seq<ActuatorConfigView>, int)> {
    parse_repeated_field(s, pos, KEY_CONFIGS, config_dec())
}

/// The commands that stand at `pos`, and the position behind them.
pub open spec fn parse_commands(s: Seq<u8>, pos: int) -> Option<(Seq<ActuatorCommand>, int)> {
    parse_repeated_field(s, pos, KEY_COMMANDS, command_dec())
}

/// A frame on the wire: one field for each state, then one for each
/// configuration, then one for each command, then the inertial readings where
/// present, then the timestamp. The timestamp is always written and closes the
/// frame, so a reader knows where it ends.
#[verifier::opaque]
pub open spec fn frame_bytes(f: KRecFrameView) -> Seq<u8> {
    states_field(f.actuator_states) + configs_field(f.actuator_configs) + commands_field(
        f.actuator_commands,
    ) + opt_imu_field(KEY_IMU, f.imu_values) + uint_field(KEY_TIMESTAMP, f.timestamp)
}

/// The frame that stands at `pos`, and the position behind it.
#[verifier::opaque]
pub open spec fn parse_frame(s: Seq<u8>, pos: int) -> Option<(KRecFrameView, int)> {
    match parse_states(s, pos) {
        Some((actuator_states, a)) => match parse_configs(s, a) {
            Some((actuator_configs, b)) => match parse_commands(s, b) {
                Some((actuator_commands, c)) => match parse_opt_imu_field(s, c, KEY_IMU) {
                    Some((imu_values, d)) => match parse_uint_field(s, d, KEY_TIMESTAMP) {
                        Some((timestamp, e)) => Some(
                            (
                                KRecFrameView {
                                    timestamp,
                                    actuator_states,
                                    actuator_configs,
                                    actuator_commands,
                                    imu_values,
                                },
                                e,
                            ),
                        ),
                        None => None,
                    },
                    None => None,
                },
                None => None,
            },
            None => None,
        },
        None => None,
    }
}

/// Every state's bytes are read back as that state.
proof fn lemma_states_read_back(items: Seq<ActuatorState>)
    ensures
        forall|i: int|
            0 <= i < items.len() ==> state_dec()(state_enc()(#[trigger] items[i])) == Some(
                items[i],
            ),
{
    assert forall|i: int| 0 <= i < items.len() implies state_dec()(
        state_enc()(#[trigger] items[i]),
    ) == Some(items[i]) by {
        lemma_state_complete(items[i]);
    }
}

/// Every command's bytes are read back as that command.
proof fn lemma_commands_read_back(items: Seq<ActuatorCommand>)
    ensures
        forall|i: int|
            0 <= i < items.len() ==> command_dec()(command_enc()(#[trigger] items[i])) == Some(
                items[i],
            ),
{
    assert forall|i: int| 0 <= i < items.len() implies command_dec()(
        command_enc()(#[trigger] items[i]),
    ) == Some(items[i]) by {
        lemma_command_complete(items[i]);
    }
}

/// Every configuration's bytes are read back as that configuration.
proof fn lemma_configs_read_back(items: Seq<ActuatorConfigView>)
    ensures
        forall|i: int|
            0 <= i < items.len() ==> config_dec()(config_enc()(#[trigger] items[i])) == Some(
                items[i],
            ),
{
    assert forall|i: int| 0 <= i < items.len() implies config_dec()(
        config_enc()(#[trigger] items[i]),
    ) == Some(items[i]) by {
        lemma_config_complete(items[i]);
    }
}

/// Bytes that read as a state are that state's bytes.
proof fn lemma_state_dec_sound()
    ensures
        forall|p: Seq<u8>| #[trigger]
            state_dec()(p) is Some ==> state_enc()(state_dec()(p).unwrap()) == p,
{
    assert forall|p: Seq<u8>| #[trigger] state_dec()(p) is Some implies state_enc()(
        state_dec()(p).unwrap(),
    ) == p by {
        lemma_state_sound(p);
    }
}

/// Bytes that read as a configuration are that configuration's bytes.
proof fn lemma_config_dec_sound()
    ensures
        forall|p: Seq<u8>| #[trigger]
            config_dec()(p) is Some ==> config_enc()(config_dec()(p).unwrap()) == p,
{
    assert forall|p: Seq<u8>| #[trigger] config_dec()(p) is Some implies config_enc()(
        config_dec()(p).unwrap(),
    ) == p by {
        lemma_config_sound(p);
    }
}

/// Bytes that read as a command are that command's bytes.
proof fn lemma_command_dec_sound()
    ensures
        forall|p: Seq<u8>| #[trigger]
            command_dec()(p) is Some ==> command_enc()(command_dec()(p).unwrap()) == p,
{
    assert forall|p: Seq<u8>| #[trigger] command_dec()(p) is Some implies command_enc()(
        command_dec()(p).unwrap(),
    ) == p by {
        lemma_command_sound(p);
    }
}

/// A frame's bytes are read back as that frame, whatever follows them.
#[verifier::rlimit(30)]
pub proof fn lemma_frame_complete(s: Seq<u8>, pos: int, f: KRecFrameView)
    requires
        at(s, pos, frame_bytes(f)),
    ensures
        parse_frame(s, pos) == Some((f, pos + frame_bytes(f).len())),
{
    reveal(frame_bytes);
    reveal(parse_frame);
    let f1 = states_field(f.actuator_states);
    let f2 = configs_field(f.actuator_configs);
    let f3 = commands_field(f.actuator_commands);
    let f4 = opt_imu_field(KEY_IMU, f.imu_values);
    let f5 = uint_field(KEY_TIMESTAMP, f.timestamp);
    lemma_at_split(s, pos, f1 + f2 + f3 + f4, f5);
    lemma_at_split(s, pos, f1 + f2 + f3, f4);
    lemma_at_split(s, pos, f1 + f2, f3);
    lemma_at_split(s, pos, f1, f2);
    let a = pos + f1.len();
    let b = a + f2.len();
    let c = b + f3.len();
    let d = c + f4.len();
    lemma_uint_field_complete(s, d, KEY_TIMESTAMP, f.timestamp);
    lemma_opt_imu_complete(s, c, KEY_IMU, f.imu_values);
    lemma_commands_read_back(f.actuator_commands);
    lemma_repeated_complete(s, b, KEY_COMMANDS, f.actuator_commands, command_enc(), command_dec());
    lemma_configs_read_back(f.actuator_configs);
    lemma_repeated_complete(s, a, KEY_CONFIGS, f.actuator_configs, config_enc(), config_dec());
    lemma_states_read_back(f.actuator_states);
    lemma_repeated_complete(s, pos, KEY_STATES, f.actuator_states, state_enc(), state_dec());
}

/// What is read as a frame at `pos` is that frame's bytes, and they end where
/// the reading ended.
#[verifier::rlimit(30)]
pub proof fn lemma_frame_sound(s: Seq<u8>, pos: int)
    requires
        0 <= pos <= s.len(),
        parse_frame(s, pos) is Some,
    ensures
        at(s, pos, frame_bytes(parse_frame(s, pos).unwrap().0)),
        parse_frame(s, pos).unwrap().1 == pos + frame_bytes(parse_frame(s, pos).unwrap().0).len(),
        frame_bytes(parse_frame(s, pos).unwrap().0).len() > 0,
{
    reveal(frame_bytes);
    reveal(parse_frame);
    let f = parse_frame(s, pos).unwrap().0;
    let f1 = states_field(f.actuator_states);
    let f2 = configs_field(f.actuator_configs);
    let f3 = commands_field(f.actuator_commands);
    let f4 = opt_imu_field(KEY_IMU, f.imu_values);
    let f5 = uint_field(KEY_TIMESTAMP, f.timestamp);
    lemma_state_dec_sound();
    lemma_repeated_sound(s, pos, KEY_STATES, state_enc(), state_dec());
    let a = parse_states(s, pos).unwrap().1;
    lemma_at_bounds(s, pos, f1);
    lemma_config_dec_sound();
    lemma_repeated_sound(s, a, KEY_CONFIGS, config_enc(), config_dec());
    let b = parse_configs(s, a).unwrap().1;
    lemma_at_bounds(s, a, f2);
    lemma_command_dec_sound();
    lemma_repeated_sound(s, b, KEY_COMMANDS, command_enc(), command_dec());
    let c = parse_commands(s, b).unwrap().1;
    lemma_at_bounds(s, b, f3);
    lemma_opt_imu_sound(s, c, KEY_IMU);
    let d = parse_opt_imu_field(s, c, KEY_IMU).unwrap().1;
    lemma_uint_field_sound(s, d, KEY_TIMESTAMP);
    lemma_at_split(s, pos, f1, f2);
    lemma_at_split(s, pos, f1 + f2, f3);
    lemma_at_split(s, pos, f1 + f2 + f3, f4);
    lemma_at_split(s, pos, f1 + f2 + f3 + f4, f5);
}

/// Appends one field named `KEY_STATES` for each item, in order.
fn put_states(buf: &mut Vec<u8>, items: &Vec<ActuatorState>)
    ensures
        final(buf)@ == old(buf)@ + states_field(items@),
{
    let ghost start = buf@;
    let ghost all = items@;
    let mut i: usize = 0;
    proof {
        assert(all.take(0) =~= Seq::empty());
        assert(buf@ =~= start + Seq::<u8>::empty());
    }
    while i < items.len()
        invariant
            i <= items.len(),
            all == items@,
            all.len() == items.len(),
            buf@ == start + states_field(all.take(i as int)),
        decreases items.len() - i,
    {
        let mut payload: Vec<u8> = Vec::new();
        items[i].encode(&mut payload);
        assert(payload@ =~= state_bytes(items@[i as int]));
        put_len_field(buf, KEY_STATES, payload.as_slice());
        proof {
            let t = all.take(i + 1);
            assert(t.drop_last() =~= all.take(i as int));
            assert(t.last() == all[i as int]);
            assert(buf@ =~= start + states_field(t));
        }
        i += 1;
    }
    proof {
        assert(all.take(i as int) =~= all);
    }
}

/// Appends one field named `KEY_CONFIGS` for each item, in order.
fn put_configs(buf: &mut Vec<u8>, items: &Vec<ActuatorConfig>)
    ensures
        final(buf)@ == old(buf)@ + configs_field(configs_view(items@)),
{
    let ghost start = buf@;
    let ghost all = configs_view(items@);
    let mut i: usize = 0;
    proof {
        assert(all.take(0) =~= Seq::empty());
        assert(buf@ =~= start + Seq::<u8>::empty());
    }
    while i < items.len()
        invariant
            i <= items.len(),
            all == configs_view(items@),
            all.len() == items.len(),
            buf@ == start + configs_field(all.take(i as int)),
        decreases items.len() - i,
    {
        let mut payload: Vec<u8> = Vec::new();
        items[i].encode(&mut payload);
        assert(payload@ =~= config_bytes(items@[i as int]@));
        put_len_field(buf, KEY_CONFIGS, payload.as_slice());
        proof {
            let t = all.take(i + 1);
            assert(t.drop_last() =~= all.take(i as int));
            assert(t.last() == all[i as int]);
            assert(buf@ =~= start + configs_field(t));
        }
        i += 1;
    }
    proof {
        assert(all.take(i as int) =~= all);
    }
}

/// Appends one field named `KEY_COMMANDS` for each item, in order.
fn put_commands(buf: &mut Vec<u8>, items: &Vec<ActuatorCommand>)
    ensures
        final(buf)@ == old(buf)@ + commands_field(items@),
{
    let ghost start = buf@;
    let ghost all = items@;
    let mut i: usize = 0;
    proof {
        assert(all.take(0) =~= Seq::empty());
        assert(buf@ =~= start + Seq::<u8>::empty());
    }
    while i < items.len()
        invariant
            i <= items.len(),
            all == items@,
            all.len() == items.len(),
            buf@ == start + commands_field(all.take(i as int)),
        decreases items.len() - i,
    {
        let mut payload: Vec<u8> = Vec::new();
        items[i].encode(&mut payload);
        assert(payload@ =~= command_bytes(items@[i as int]));
        put_len_field(buf, KEY_COMMANDS, payload.as_slice());
        proof {
            let t = all.take(i + 1);
            assert(t.drop_last() =~= all.take(i as int));
            assert(t.last() == all[i as int]);
            assert(buf@ =~= start + commands_field(t));
        }
        i += 1;
    }
    proof {
        assert(all.take(i as int) =~= all);
    }
}

/// Reads the run of fields named `KEY_STATES` that starts at `pos`.
fn take_states(buf: &[u8], pos: usize) -> (res: Option<(Vec<ActuatorState>, usize)>)
    ensures
        res is Some <==> parse_states(buf@, pos as int) is Some,
        res matches Some((v, end)) ==> parse_states(buf@, pos as int)
            == Some((v@, end as int)),
{
    let mut out: Vec<ActuatorState> = Vec::new();
    let mut p = pos;
    proof {
        let r = parse_states(buf@, pos as int);
        if r is Some {
            assert(Seq::empty() + r.unwrap().0 =~= r.unwrap().0);
        }
        assert(out@ =~= Seq::empty());
    }
    while peek_key(buf, p, KEY_STATES)
        invariant
            parse_states(buf@, pos as int) is Some
                <==> parse_states(buf@, p as int) is Some,
            parse_states(buf@, p as int) matches Some((rest, e))
                ==> parse_states(buf@, pos as int) == Some(
                (out@ + rest, e),
            ),
        decreases buf@.len() - p,
    {
        let (a, b) = match take_len_field(buf, p, KEY_STATES) {
            Some(r) => r,
            None => { return None; },
        };
        proof {
            lemma_len_field_sound(buf@, p as int, KEY_STATES);
        }
        let item = match ActuatorState::decode(slice_subrange(buf, a, b)) {
            Some(x) => x,
            None => { return None; },
        };
        let ghost prev = out@;
        let ghost shown = item;
        proof {
            let next = parse_states(buf@, b as int);
            if next is Some {
                let (rest, e) = next.unwrap();
                assert(prev.push(shown) + rest =~= prev + (seq![shown] + rest));
            }
        }
        out.push(item);
        proof {
            assert(out@ =~= prev.push(shown));
        }
        p = b;
    }
    proof {
        assert(out@ + Seq::empty() =~= out@);
    }
    Some((out, p))
}

/// Reads the run of fields named `KEY_CONFIGS` that starts at `pos`.
fn take_configs(buf: &[u8], pos: usize) -> (res: Option<(Vec<ActuatorConfig>, usize)>)
    ensures
        res is Some <==> parse_configs(buf@, pos as int) is Some,
        res matches Some((v, end)) ==> parse_configs(buf@, pos as int)
            == Some((configs_view(v@), end as int)),
{
    let mut out: Vec<ActuatorConfig> = Vec::new();
    let mut p = pos;
    proof {
        let r = parse_configs(buf@, pos as int);
        if r is Some {
            assert(Seq::empty() + r.unwrap().0 =~= r.unwrap().0);
        }
        assert(configs_view(out@) =~= Seq::empty());
    }
    while peek_key(buf, p, KEY_CONFIGS)
        invariant
            parse_configs(buf@, pos as int) is Some
                <==> parse_configs(buf@, p as int) is Some,
            parse_configs(buf@, p as int) matches Some((rest, e))
                ==> parse_configs(buf@, pos as int) == Some(
                (configs_view(out@) + rest, e),
            ),
        decreases buf@.len() - p,
    {
        let (a, b) = match take_len_field(buf, p, KEY_CONFIGS) {
            Some(r) => r,
            None => { return None; },
        };
        proof {
            lemma_len_field_sound(buf@, p as int, KEY_CONFIGS);
        }
        let item = match ActuatorConfig::decode(slice_subrange(buf, a, b)) {
            Some(x) => x,
            None => { return None; },
        };
        let ghost prev = configs_view(out@);
        let ghost shown = item@;
        proof {
            let next = parse_configs(buf@, b as int);
            if next is Some {
                let (rest, e) = next.unwrap();
                assert(prev.push(shown) + rest =~= prev + (seq![shown] + rest));
            }
        }
        out.push(item);
        proof {
            assert(configs_view(out@) =~= prev.push(shown));
        }
        p = b;
    }
    proof {
        assert(configs_view(out@) + Seq::empty() =~= configs_view(out@));
    }
    Some((out, p))
}

/// Reads the run of fields named `KEY_COMMANDS` that starts at `pos`.
fn take_commands(buf: &[u8], pos: usize) -> (res: Option<(Vec<ActuatorCommand>, usize)>)
    ensures
        res is Some <==> parse_commands(buf@, pos as int) is Some,
        res matches Some((v, end)) ==> parse_commands(buf@, pos as int)
            == Some((v@, end as int)),
{
    let mut out: Vec<ActuatorCommand> = Vec::new();
    let mut p = pos;
    proof {
        let r = parse_commands(buf@, pos as int);
        if r is Some {
            assert(Seq::empty() + r.unwrap().0 =~= r.unwrap().0);
        }
        assert(out@ =~= Seq::empty());
    }
    while peek_key(buf, p, KEY_COMMANDS)
        invariant
            parse_commands(buf@, pos as int) is Some
                <==> parse_commands(buf@, p as int) is Some,
            parse_commands(buf@, p as int) matches Some((rest, e))
                ==> parse_commands(buf@, pos as int) == Some(
                (out@ + rest, e),
            ),
        decreases buf@.len() - p,
    {
        let (a, b) = match take_len_field(buf, p, KEY_COMMANDS) {
            Some(r) => r,
            None => { return None; },
        };
        proof {
            lemma_len_field_sound(buf@, p as int, KEY_COMMANDS);
        }
        let item = match ActuatorCommand::decode(slice_subrange(buf, a, b)) {
            Some(x) => x,
            None => { return None; },
        };
        let ghost prev = out@;
        let ghost shown = item;
        proof {
            let next = parse_commands(buf@, b as int);
            if next is Some {
                let (rest, e) = next.unwrap();
                assert(prev.push(shown) + rest =~= prev + (seq![shown] + rest));
            }
        }
        out.push(item);
        proof {
            assert(out@ =~= prev.push(shown));
        }
        p = b;
    }
    proof {
        assert(out@ + Seq::empty() =~= out@);
    }
    Some((out, p))
}

impl KRecFrame {
    /// Appends the frame's bytes to `buf`.
    pub fn encode(&self, buf: &mut Vec<u8>)
        ensures
            final(buf)@ == old(buf)@ + frame_bytes(self@),
    {
        put_states(buf, &self.actuator_states);
        put_configs(buf, &self.actuator_configs);
        put_commands(buf, &self.actuator_commands);
        put_opt_imu_field(buf, KEY_IMU, &self.imu_values);
        put_uint_field(buf, KEY_TIMESTAMP, self.timestamp);
        reveal(frame_bytes);
        assert(final(buf)@ =~= old(buf)@ + frame_bytes(self@));
    }

    /// Reads the frame that stands in `buf` at `pos`, and gives it with the
    /// position behind it; `None` where no frame's bytes stand there.
    pub fn decode_at(buf: &[u8], pos: usize) -> (res: Option<(KRecFrame, usize)>)
        ensures
            res is Some <==> parse_frame(buf@, pos as int) is Some,
            res matches Some((f, end)) ==> parse_frame(buf@, pos as int) == Some(
                (f@, end as int),
            ),
            res matches Some((f, end)) ==> pos < end <= buf@.len() && buf@.subrange(
                pos as int,
                end as int,
            ) == frame_bytes(f@),
            res is None ==> forall|f: KRecFrameView| !at(buf@, pos as int, frame_bytes(f)),
    {
        proof {
            reveal(parse_frame);
            if parse_frame(buf@, pos as int) is Some {
                lemma_frame_sound(buf@, pos as int);
                let f = parse_frame(buf@, pos as int).unwrap().0;
                lemma_at_bounds(buf@, pos as int, frame_bytes(f));
                reveal(at);
            } else {
                assert forall|f: KRecFrameView| !at(buf@, pos as int, frame_bytes(f)) by {
                    if at(buf@, pos as int, frame_bytes(f)) {
                        lemma_frame_complete(buf@, pos as int, f);
                    }
                }
            }
        }
        let (actuator_states, a) = match take_states(buf, pos) {
            Some(r) => r,
            None => { return None; },
        };
        let (actuator_configs, b) = match take_configs(buf, a) {
            Some(r) => r,
            None => { return None; },
        };
        let (actuator_commands, c) = match take_commands(buf, b) {
            Some(r) => r,
            None => { return None; },
        };
        let (imu_values, d) = match take_opt_imu_field(buf, c, KEY_IMU) {
            Some(r) => r,
            None => { return None; },
        };
        let (timestamp, e) = match take_uint_field(buf, d, KEY_TIMESTAMP) {
            Some(r) => r,
            None => { return None; },
        };
        Some(
            (
                KRecFrame {
                    timestamp,
                    actuator_states,
                    actuator_configs,
                    actuator_commands,
                    imu_values,
                },
                e,
            ),
        )
    }
}

} // verus!


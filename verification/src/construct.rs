//! Building the records, in two ways: from fields given by name, where a field
//! left out takes its default, and from one list of values in the fields'
//! order, which must have exactly as many values as there are fields.

use crate::actuator::{ActuatorCommand, ActuatorConfig, ActuatorConfigView, ActuatorState};
use crate::imu::{ImuQuaternion, ImuValues, Vec3, ONE_BITS};
use vstd::prelude::*;

verus! {

/// One value of a list from which a record is built.
#[derive(Clone, Debug, PartialEq, Eq)]
pub enum Value {
    /// No value: the field is absent.
    Absent,
    Flag(bool),
    /// A real number, as the bit pattern of its 64-bit form and that of its
    /// 32-bit form; a field takes the one of its own width.
    Number { double: u64, single: u32 },
    Text(String),
    Vector(Vec3),
    Rotation(ImuQuaternion),
}

/// Why a record could not be built from a list of values.
#[derive(Clone, Copy, Debug, PartialEq, Eq)]
pub enum ConstructError {
    /// The list has `found` values where the record has `expected` fields.
    WrongLength { expected: usize, found: usize },
    /// The value at `index`, the first such, is of no kind that its field takes.
    WrongType { index: usize },
}

/// The value of `o`, or `default` where there is none.
pub open spec fn or64(o: Option<u64>, default: u64) -> u64 {
    match o {
        Some(v) => v,
        None => default,
    }
}

/// The value of `o`, or `default` where there is none.
pub open spec fn or32(o: Option<u32>, default: u32) -> u32 {
    match o {
        Some(v) => v,
        None => default,
    }
}

/// What a field that takes a 64-bit number makes of `v`, `None` where it takes
/// no such value.
pub open spec fn as_double(v: Value) -> Option<Option<u64>> {
    match v {
        Value::Absent => Some(None),
        Value::Number { double, single } => Some(Some(double)),
        _ => None,
    }
}

/// What a field that takes a 32-bit number makes of `v`.
pub open spec fn as_single(v: Value) -> Option<Option<u32>> {
    match v {
        Value::Absent => Some(None),
        Value::Number { double, single } => Some(Some(single)),
        _ => None,
    }
}

/// What a field that takes a text makes of `v`.
pub open spec fn as_text(v: Value) -> Option<Option<Seq<char>>> {
    match v {
        Value::Absent => Some(None),
        Value::Text(t) => Some(Some(t@)),
        _ => None,
    }
}

/// What a field that takes a vector makes of `v`.
pub open spec fn as_vector(v: Value) -> Option<Option<Vec3>> {
    match v {
        Value::Absent => Some(None),
        Value::Vector(x) => Some(Some(x)),
        _ => None,
    }
}

/// What a field that takes a rotation makes of `v`.
pub open spec fn as_rotation(v: Value) -> Option<Option<ImuQuaternion>> {
    match v {
        Value::Absent => Some(None),
        Value::Rotation(q) => Some(Some(q)),
        _ => None,
    }
}

/// What a field that takes a flag and cannot be absent makes of `v`.
pub open spec fn as_flag(v: Value) -> Option<bool> {
    match v {
        Value::Flag(b) => Some(b),
        _ => None,
    }
}

/// Reads a value for a field that takes a 64-bit number.
fn take_double(v: &Value) -> (res: Option<Option<u64>>)
    ensures
        res == as_double(*v),
{
    match v {
        Value::Absent => Some(None),
        Value::Number { double, single: _ } => Some(Some(*double)),
        _ => None,
    }
}

/// Reads a value for a field that takes a 32-bit number.
fn take_single(v: &Value) -> (res: Option<Option<u32>>)
    ensures
        res == as_single(*v),
{
    match v {
        Value::Absent => Some(None),
        Value::Number { double: _, single } => Some(Some(*single)),
        _ => None,
    }
}

/// Reads a value for a field that takes a vector.
fn take_vector(v: &Value) -> (res: Option<Option<Vec3>>)
    ensures
        res == as_vector(*v),
{
    match v {
        Value::Absent => Some(None),
        Value::Vector(x) => Some(Some(*x)),
        _ => None,
    }
}

/// Reads a value for a field that takes a rotation.
fn take_rotation(v: &Value) -> (res: Option<Option<ImuQuaternion>>)
    ensures
        res == as_rotation(*v),
{
    match v {
        Value::Absent => Some(None),
        Value::Rotation(q) => Some(Some(*q)),
        _ => None,
    }
}

impl Vec3 {
    /// The vector with the components given; one left out is zero.
    pub fn new(x: Option<u64>, y: Option<u64>, z: Option<u64>) -> (res: Vec3)
        ensures
            res == (Vec3 { x: or64(x, 0), y: or64(y, 0), z: or64(z, 0) }),
    {
        Vec3 {
            x: match x {
                Some(v) => v,
                None => 0,
            },
            y: match y {
                Some(v) => v,
                None => 0,
            },
            z: match z {
                Some(v) => v,
                None => 0,
            },
        }
    }

    /// The vector whose components are the three values, in the order x, y, z.
    pub fn from_values(values: &[u64]) -> (res: Result<Vec3, ConstructError>)
        ensures
            res == if values@.len() == 3 {
                Ok::<Vec3, ConstructError>(Vec3 { x: values@[0], y: values@[1], z: values@[2] })
            } else {
                Err::<Vec3, ConstructError>(
                    ConstructError::WrongLength { expected: 3, found: values@.len() as usize },
                )
            },
    {
        if values.len() != 3 {
            return Err(ConstructError::WrongLength { expected: 3, found: values.len() });
        }
        Ok(Vec3 { x: values[0], y: values[1], z: values[2] })
    }
}

impl ImuQuaternion {
    /// The quaternion with the components given; of those left out, x, y and z
    /// are zero and w is one, so that nothing given is the identity rotation.
    pub fn new(x: Option<u64>, y: Option<u64>, z: Option<u64>, w: Option<u64>) -> (res:
        ImuQuaternion)
        ensures
            res == (ImuQuaternion {
                x: or64(x, 0),
                y: or64(y, 0),
                z: or64(z, 0),
                w: or64(w, ONE_BITS),
            }),
    {
        ImuQuaternion {
            x: match x {
                Some(v) => v,
                None => 0,
            },
            y: match y {
                Some(v) => v,
                None => 0,
            },
            z: match z {
                Some(v) => v,
                None => 0,
            },
            w: match w {
                Some(v) => v,
                None => ONE_BITS,
            },
        }
    }

    /// The quaternion whose components are the four values, in the order x, y,
    /// z, w.
    pub fn from_values(values: &[u64]) -> (res: Result<ImuQuaternion, ConstructError>)
        ensures
            res == if values@.len() == 4 {
                Ok::<ImuQuaternion, ConstructError>(
                    ImuQuaternion { x: values@[0], y: values@[1], z: values@[2], w: values@[3] },
                )
            } else {
                Err::<ImuQuaternion, ConstructError>(
                    ConstructError::WrongLength { expected: 4, found: values@.len() as usize },
                )
            },
    {
        if values.len() != 4 {
            return Err(ConstructError::WrongLength { expected: 4, found: values.len() });
        }
        Ok(ImuQuaternion { x: values[0], y: values[1], z: values[2], w: values[3] })
    }
}

impl ActuatorCommand {
    /// The command for `actuator_id` with the targets given. A command always
    /// holds all three targets: one left out is zero.
    pub fn new(
        actuator_id: u32,
        position: Option<u32>,
        velocity: Option<u32>,
        effort: Option<u32>,
    ) -> (res: ActuatorCommand)
        ensures
            res == (ActuatorCommand {
                actuator_id,
                position: or32(position, 0),
                velocity: or32(velocity, 0),
                effort: or32(effort, 0),
            }),
    {
        ActuatorCommand {
            actuator_id,
            position: match position {
                Some(v) => v,
                None => 0,
            },
            velocity: match velocity {
                Some(v) => v,
                None => 0,
            },
            effort: match effort {
                Some(v) => v,
                None => 0,
            },
        }
    }

    /// The command for `actuator_id` whose targets are the three values, in
    /// the order position, velocity, effort.
    pub fn from_values(actuator_id: u32, values: &[u32]) -> (res: Result<
        ActuatorCommand,
        ConstructError,
    >)
        ensures
            res == if values@.len() == 3 {
                Ok::<ActuatorCommand, ConstructError>(
                    ActuatorCommand {
                        actuator_id,
                        position: values@[0],
                        velocity: values@[1],
                        effort: values@[2],
                    },
                )
            } else {
                Err::<ActuatorCommand, ConstructError>(
                    ConstructError::WrongLength { expected: 3, found: values@.len() as usize },
                )
            },
    {
        if values.len() != 3 {
            return Err(ConstructError::WrongLength { expected: 3, found: values.len() });
        }
        Ok(ActuatorCommand {
            actuator_id,
            position: values[0],
            velocity: values[1],
            effort: values[2],
        })
    }
}

/// The readings that a list of values makes: the four values in the order
/// acceleration, angular rate, magnetic field, orientation.
pub open spec fn imu_from(values: Seq<Value>) -> Result<ImuValues, ConstructError> {
    if values.len() != 4 {
        Err(ConstructError::WrongLength { expected: 4, found: values.len() as usize })
    } else if as_vector(values[0]) is None {
        Err(ConstructError::WrongType { index: 0 })
    } else if as_vector(values[1]) is None {
        Err(ConstructError::WrongType { index: 1 })
    } else if as_vector(values[2]) is None {
        Err(ConstructError::WrongType { index: 2 })
    } else if as_rotation(values[3]) is None {
        Err(ConstructError::WrongType { index: 3 })
    } else {
        Ok(
            ImuValues {
                accel: as_vector(values[0]).unwrap(),
                gyro: as_vector(values[1]).unwrap(),
                mag: as_vector(values[2]).unwrap(),
                quaternion: as_rotation(values[3]).unwrap(),
            },
        )
    }
}

impl ImuValues {
    /// The readings given; one left out is absent.
    pub fn new(
        accel: Option<Vec3>,
        gyro: Option<Vec3>,
        mag: Option<Vec3>,
        quaternion: Option<ImuQuaternion>,
    ) -> (res: ImuValues)
        ensures
            res == (ImuValues { accel, gyro, mag, quaternion }),
    {
        ImuValues { accel, gyro, mag, quaternion }
    }

    /// The readings that the four values make.
    pub fn from_values(values: &[Value]) -> (res: Result<ImuValues, ConstructError>)
        ensures
            res == imu_from(values@),
    {
        if values.len() != 4 {
            return Err(ConstructError::WrongLength { expected: 4, found: values.len() });
        }
        let accel = match take_vector(&values[0]) {
            Some(v) => v,
            None => { return Err(ConstructError::WrongType { index: 0 }); },
        };
        let gyro = match take_vector(&values[1]) {
            Some(v) => v,
            None => { return Err(ConstructError::WrongType { index: 1 }); },
        };
        let mag = match take_vector(&values[2]) {
            Some(v) => v,
            None => { return Err(ConstructError::WrongType { index: 2 }); },
        };
        let quaternion = match take_rotation(&values[3]) {
            Some(v) => v,
            None => { return Err(ConstructError::WrongType { index: 3 }); },
        };
        Ok(ImuValues { accel, gyro, mag, quaternion })
    }
}

/// The state that a list of values makes for `actuator_id`: the seven values
/// in the order online, position, velocity, torque, temperature, voltage,
/// current. The online flag cannot be absent.
pub open spec fn state_from(actuator_id: u32, values: Seq<Value>) -> Result<
    ActuatorState,
    ConstructError,
> {
    if values.len() != 7 {
        Err(ConstructError::WrongLength { expected: 7, found: values.len() as usize })
    } else if as_flag(values[0]) is None {
        Err(ConstructError::WrongType { index: 0 })
    } else if as_double(values[1]) is None {
        Err(ConstructError::WrongType { index: 1 })
    } else if as_double(values[2]) is None {
        Err(ConstructError::WrongType { index: 2 })
    } else if as_double(values[3]) is None {
        Err(ConstructError::WrongType { index: 3 })
    } else if as_double(values[4]) is None {
        Err(ConstructError::WrongType { index: 4 })
    } else if as_single(values[5]) is None {
        Err(ConstructError::WrongType { index: 5 })
    } else if as_single(values[6]) is None {
        Err(ConstructError::WrongType { index: 6 })
    } else {
        Ok(
            ActuatorState {
                actuator_id,
                online: as_flag(values[0]).unwrap(),
                position: as_double(values[1]).unwrap(),
                velocity: as_double(values[2]).unwrap(),
                torque: as_double(values[3]).unwrap(),
                temperature: as_double(values[4]).unwrap(),
                voltage: as_single(values[5]).unwrap(),
                current: as_single(values[6]).unwrap(),
            },
        )
    }
}

impl ActuatorState {
    /// The state of `actuator_id` with the fields given. Without an online
    /// flag the actuator counts as offline; a quantity left out is absent.
    pub fn new(
        actuator_id: u32,
        online: Option<bool>,
        position: Option<u64>,
        velocity: Option<u64>,
        torque: Option<u64>,
        temperature: Option<u64>,
        voltage: Option<u32>,
        current: Option<u32>,
    ) -> (res: ActuatorState)
        ensures
            res == (ActuatorState {
                actuator_id,
                online: online == Some(true),
                position,
                velocity,
                torque,
                temperature,
                voltage,
                current,
            }),
    {
        ActuatorState {
            actuator_id,
            online: match online {
                Some(b) => b,
                None => false,
            },
            position,
            velocity,
            torque,
            temperature,
            voltage,
            current,
        }
    }

    /// The state of `actuator_id` that the seven values make.
    pub fn from_values(actuator_id: u32, values: &[Value]) -> (res: Result<
        ActuatorState,
        ConstructError,
    >)
        ensures
            res == state_from(actuator_id, values@),
    {
        if values.len() != 7 {
            return Err(ConstructError::WrongLength { expected: 7, found: values.len() });
        }
        let online = match &values[0] {
            Value::Flag(b) => *b,
            _ => { return Err(ConstructError::WrongType { index: 0 }); },
        };
        let position = match take_double(&values[1]) {
            Some(v) => v,
            None => { return Err(ConstructError::WrongType { index: 1 }); },
        };
        let velocity = match take_double(&values[2]) {
            Some(v) => v,
            None => { return Err(ConstructError::WrongType { index: 2 }); },
        };
        let torque = match take_double(&values[3]) {
            Some(v) => v,
            None => { return Err(ConstructError::WrongType { index: 3 }); },
        };
        let temperature = match take_double(&values[4]) {
            Some(v) => v,
            None => { return Err(ConstructError::WrongType { index: 4 }); },
        };
        let voltage = match take_single(&values[5]) {
            Some(v) => v,
            None => { return Err(ConstructError::WrongType { index: 5 }); },
        };
        let current = match take_single(&values[6]) {
            Some(v) => v,
            None => { return Err(ConstructError::WrongType { index: 6 }); },
        };
        Ok(
            ActuatorState {
                actuator_id,
                online,
                position,
                velocity,
                torque,
                temperature,
                voltage,
                current,
            },
        )
    }
}

/// The configuration that a list of values makes for `actuator_id`: the five
/// values in the order kp, kd, ki, max torque, name.
pub open spec fn config_from(actuator_id: u32, values: Seq<Value>) -> Result<
    ActuatorConfigView,
    ConstructError,
> {
    if values.len() != 5 {
        Err(ConstructError::WrongLength { expected: 5, found: values.len() as usize })
    } else if as_double(values[0]) is None {
        Err(ConstructError::WrongType { index: 0 })
    } else if as_double(values[1]) is None {
        Err(ConstructError::WrongType { index: 1 })
    } else if as_double(values[2]) is None {
        Err(ConstructError::WrongType { index: 2 })
    } else if as_double(values[3]) is None {
        Err(ConstructError::WrongType { index: 3 })
    } else if as_text(values[4]) is None {
        Err(ConstructError::WrongType { index: 4 })
    } else {
        Ok(
            ActuatorConfigView {
                actuator_id,
                kp: as_double(values[0]).unwrap(),
                kd: as_double(values[1]).unwrap(),
                ki: as_double(values[2]).unwrap(),
                max_torque: as_double(values[3]).unwrap(),
                name: as_text(values[4]).unwrap(),
            },
        )
    }
}

impl ActuatorConfig {
    /// The configuration of `actuator_id` with the fields given; one left out
    /// is absent.
    pub fn new(
        actuator_id: u32,
        kp: Option<u64>,
        kd: Option<u64>,
        ki: Option<u64>,
        max_torque: Option<u64>,
        name: Option<String>,
    ) -> (res: ActuatorConfig)
        ensures
            res == (ActuatorConfig { actuator_id, kp, kd, ki, max_torque, name }),
    {
        ActuatorConfig { actuator_id, kp, kd, ki, max_torque, name }
    }

    /// The configuration of `actuator_id` that the five values make.
    pub fn from_values(actuator_id: u32, values: &[Value]) -> (res: Result<
        ActuatorConfig,
        ConstructError,
    >)
        ensures
            match config_from(actuator_id, values@) {
                Ok(view) => res matches Ok(c) && c@ == view,
                Err(e) => res == Err::<ActuatorConfig, ConstructError>(e),
            },
    {
        if values.len() != 5 {
            return Err(ConstructError::WrongLength { expected: 5, found: values.len() });
        }
        let kp = match take_double(&values[0]) {
            Some(v) => v,
            None => { return Err(ConstructError::WrongType { index: 0 }); },
        };
        let kd = match take_double(&values[1]) {
            Some(v) => v,
            None => { return Err(ConstructError::WrongType { index: 1 }); },
        };
        let ki = match take_double(&values[2]) {
            Some(v) => v,
            None => { return Err(ConstructError::WrongType { index: 2 }); },
        };
        let max_torque = match take_double(&values[3]) {
            Some(v) => v,
            None => { return Err(ConstructError::WrongType { index: 3 }); },
        };
        let name = match &values[4] {
            Value::Absent => None,
            Value::Text(t) => Some(t.clone()),
            _ => { return Err(ConstructError::WrongType { index: 4 }); },
        };
        Ok(ActuatorConfig { actuator_id, kp, kd, ki, max_torque, name })
    }
}

} // verus!

use krec::actuator::{ActuatorCommand, ActuatorConfig, ActuatorState};
use krec::construct::{ConstructError, Value};
use krec::imu::{ImuQuaternion, ImuValues, Vec3};

fn number(v: f64) -> Value {
    Value::Number { double: v.to_bits(), single: (v as f32).to_bits() }
}

#[test]
fn command_without_targets_has_all_three_at_zero() {
    let c = ActuatorCommand::new(4, None, None, None);
    assert_eq!(c.actuator_id, 4);
    assert_eq!(f32::from_bits(c.position), 0.0);
    assert_eq!(f32::from_bits(c.velocity), 0.0);
    assert_eq!(f32::from_bits(c.effort), 0.0);
    assert_eq!(c, ActuatorCommand { actuator_id: 4, position: 0, velocity: 0, effort: 0 });
}

#[test]
fn command_with_some_targets_fills_the_others() {
    let c = ActuatorCommand::new(4, None, Some(1.5f32.to_bits()), None);
    assert_eq!(
        c,
        ActuatorCommand {
            actuator_id: 4,
            position: 0.0f32.to_bits(),
            velocity: 1.5f32.to_bits(),
            effort: 0.0f32.to_bits(),
        }
    );
    let c = ActuatorCommand::new(1, Some(1), Some(2), Some(3));
    assert_eq!(c, ActuatorCommand { actuator_id: 1, position: 1, velocity: 2, effort: 3 });
}

#[test]
fn command_from_three_values() {
    assert_eq!(
        ActuatorCommand::from_values(9, &[1, 2, 3]),
        Ok(ActuatorCommand { actuator_id: 9, position: 1, velocity: 2, effort: 3 })
    );
    assert_eq!(
        ActuatorCommand::from_values(9, &[1, 2]),
        Err(ConstructError::WrongLength { expected: 3, found: 2 })
    );
    assert_eq!(
        ActuatorCommand::from_values(9, &[1, 2, 3, 4]),
        Err(ConstructError::WrongLength { expected: 3, found: 4 })
    );
}

#[test]
fn vector_defaults_to_zero() {
    let v = Vec3::new(None, Some(2.0f64.to_bits()), None);
    assert_eq!(
        (f64::from_bits(v.x), f64::from_bits(v.y), f64::from_bits(v.z)),
        (0.0, 2.0, 0.0)
    );
    assert_eq!(Vec3::new(None, None, None), Vec3::default());
}

#[test]
fn vector_from_three_values() {
    assert_eq!(Vec3::from_values(&[1, 2, 3]), Ok(Vec3 { x: 1, y: 2, z: 3 }));
    assert_eq!(
        Vec3::from_values(&[]),
        Err(ConstructError::WrongLength { expected: 3, found: 0 })
    );
    assert_eq!(
        Vec3::from_values(&[1, 2, 3, 4]),
        Err(ConstructError::WrongLength { expected: 3, found: 4 })
    );
}

#[test]
fn quaternion_defaults_to_the_identity() {
    let q = ImuQuaternion::new(None, None, None, None);
    assert_eq!(
        (f64::from_bits(q.x), f64::from_bits(q.y), f64::from_bits(q.z), f64::from_bits(q.w)),
        (0.0, 0.0, 0.0, 1.0)
    );
    let q = ImuQuaternion::new(Some(1), None, Some(3), Some(4));
    assert_eq!(q, ImuQuaternion { x: 1, y: 0, z: 3, w: 4 });
}

#[test]
fn quaternion_from_four_values() {
    assert_eq!(
        ImuQuaternion::from_values(&[1, 2, 3, 4]),
        Ok(ImuQuaternion { x: 1, y: 2, z: 3, w: 4 })
    );
    assert_eq!(
        ImuQuaternion::from_values(&[1, 2, 3]),
        Err(ConstructError::WrongLength { expected: 4, found: 3 })
    );
}

#[test]
fn readings_from_fields() {
    let v = Vec3 { x: 1, y: 2, z: 3 };
    assert_eq!(
        ImuValues::new(Some(v), None, None, None),
        ImuValues { accel: Some(v), gyro: None, mag: None, quaternion: None }
    );
}

#[test]
fn readings_from_four_values() {
    let v = Vec3 { x: 1, y: 2, z: 3 };
    let q = ImuQuaternion { x: 0, y: 0, z: 0, w: 1 };
    assert_eq!(
        ImuValues::from_values(&[
            Value::Vector(v),
            Value::Absent,
            Value::Absent,
            Value::Rotation(q),
        ]),
        Ok(ImuValues { accel: Some(v), gyro: None, mag: None, quaternion: Some(q) })
    );
    assert_eq!(
        ImuValues::from_values(&[Value::Vector(v), Value::Absent, Value::Absent]),
        Err(ConstructError::WrongLength { expected: 4, found: 3 })
    );
    assert_eq!(
        ImuValues::from_values(&[
            Value::Absent,
            Value::Rotation(q),
            Value::Flag(true),
            Value::Absent,
        ]),
        Err(ConstructError::WrongType { index: 1 })
    );
    assert_eq!(
        ImuValues::from_values(&[Value::Absent, Value::Absent, Value::Absent, Value::Vector(v)]),
        Err(ConstructError::WrongType { index: 3 })
    );
}

#[test]
fn state_from_fields() {
    let s = ActuatorState::new(3, None, Some(1), None, None, None, Some(2), None);
    assert_eq!(
        s,
        ActuatorState {
            actuator_id: 3,
            online: false,
            position: Some(1),
            velocity: None,
            torque: None,
            temperature: None,
            voltage: Some(2),
            current: None,
        }
    );
    assert!(ActuatorState::new(3, Some(true), None, None, None, None, None, None).online);
    assert!(!ActuatorState::new(3, Some(false), None, None, None, None, None, None).online);
}

#[test]
fn state_from_seven_values() {
    let values = [
        Value::Flag(true),
        number(0.5),
        Value::Absent,
        number(-2.0),
        Value::Absent,
        number(24.0),
        Value::Absent,
    ];
    assert_eq!(
        ActuatorState::from_values(5, &values),
        Ok(ActuatorState {
            actuator_id: 5,
            online: true,
            position: Some(0.5f64.to_bits()),
            velocity: None,
            torque: Some((-2.0f64).to_bits()),
            temperature: None,
            voltage: Some(24.0f32.to_bits()),
            current: None,
        })
    );
    assert_eq!(
        ActuatorState::from_values(5, &values[..6]),
        Err(ConstructError::WrongLength { expected: 7, found: 6 })
    );
}

#[test]
fn state_from_values_of_the_wrong_kind() {
    let mut values = vec![Value::Absent; 7];
    assert_eq!(
        ActuatorState::from_values(5, &values),
        Err(ConstructError::WrongType { index: 0 })
    );
    values[0] = Value::Flag(false);
    values[6] = Value::Text("x".to_string());
    assert_eq!(
        ActuatorState::from_values(5, &values),
        Err(ConstructError::WrongType { index: 6 })
    );
    values[2] = Value::Flag(true);
    assert_eq!(
        ActuatorState::from_values(5, &values),
        Err(ConstructError::WrongType { index: 2 })
    );
}

#[test]
fn config_from_fields() {
    let c = ActuatorConfig::new(1, Some(2), None, None, Some(3), Some("hip".to_string()));
    assert_eq!(
        c,
        ActuatorConfig {
            actuator_id: 1,
            kp: Some(2),
            kd: None,
            ki: None,
            max_torque: Some(3),
            name: Some("hip".to_string()),
        }
    );
}

#[test]
fn config_from_five_values() {
    let values = [
        number(10.0),
        Value::Absent,
        number(0.25),
        Value::Absent,
        Value::Text("left knee".to_string()),
    ];
    assert_eq!(
        ActuatorConfig::from_values(2, &values),
        Ok(ActuatorConfig {
            actuator_id: 2,
            kp: Some(10.0f64.to_bits()),
            kd: None,
            ki: Some(0.25f64.to_bits()),
            max_torque: None,
            name: Some("left knee".to_string()),
        })
    );
    assert_eq!(
        ActuatorConfig::from_values(2, &values[1..]),
        Err(ConstructError::WrongLength { expected: 5, found: 4 })
    );
    let wrong = [Value::Absent, Value::Absent, Value::Absent, Value::Absent, number(1.0)];
    assert_eq!(
        ActuatorConfig::from_values(2, &wrong),
        Err(ConstructError::WrongType { index: 4 })
    );
    let wrong = [
        Value::Absent,
        Value::Text("kd".to_string()),
        Value::Absent,
        Value::Absent,
        Value::Absent,
    ];
    assert_eq!(
        ActuatorConfig::from_values(2, &wrong),
        Err(ConstructError::WrongType { index: 1 })
    );
}

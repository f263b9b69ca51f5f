use microchassis::control::{
    check_dump_path, check_read, check_status, check_value_size, check_write, flag_from_byte,
    AccessMode, ControlChannel, ControlPoint, Operation, Reply, ValueType,
};
use microchassis::error::ControlError;

const POINTS: [ControlPoint; 6] = [
    ControlPoint::ProfilingEnabled,
    ControlPoint::ProfilingActive,
    ControlPoint::SampleInterval,
    ControlPoint::ResetTrigger,
    ControlPoint::DumpTarget,
    ControlPoint::StatsText,
];

const TYPES: [ValueType; 4] =
    [ValueType::Flag, ValueType::Number, ValueType::Text, ValueType::Nothing];

#[test]
fn control_points_have_fixed_types_and_modes() {
    assert_eq!(ValueType::Flag, ControlPoint::ProfilingEnabled.value_type());
    assert_eq!(AccessMode::ReadOnly, ControlPoint::ProfilingEnabled.access_mode());
    assert_eq!(ValueType::Flag, ControlPoint::ProfilingActive.value_type());
    assert_eq!(AccessMode::ReadWrite, ControlPoint::ProfilingActive.access_mode());
    assert_eq!(ValueType::Number, ControlPoint::SampleInterval.value_type());
    assert_eq!(AccessMode::ReadOnly, ControlPoint::SampleInterval.access_mode());
    assert_eq!(ValueType::Number, ControlPoint::ResetTrigger.value_type());
    assert_eq!(AccessMode::WriteOnly, ControlPoint::ResetTrigger.access_mode());
    assert_eq!(ValueType::Text, ControlPoint::DumpTarget.value_type());
    assert_eq!(AccessMode::WriteOnly, ControlPoint::DumpTarget.access_mode());
    assert_eq!(ValueType::Text, ControlPoint::StatsText.value_type());
    assert_eq!(AccessMode::ReadOnly, ControlPoint::StatsText.access_mode());
    assert_eq!(Some("opt.prof"), ControlPoint::ProfilingEnabled.name());
    assert_eq!(Some("prof.active"), ControlPoint::ProfilingActive.name());
    assert_eq!(Some("prof.lg_sample"), ControlPoint::SampleInterval.name());
    assert_eq!(Some("prof.reset"), ControlPoint::ResetTrigger.name());
    assert_eq!(Some("prof.dump"), ControlPoint::DumpTarget.name());
    assert_eq!(None, ControlPoint::StatsText.name());
}

#[test]
fn the_wrong_type_is_a_mismatch() {
    assert_eq!(Ok(()), check_read(ControlPoint::ProfilingEnabled, ValueType::Flag));
    assert_eq!(
        Err(ControlError::TypeMismatch),
        check_read(ControlPoint::ProfilingEnabled, ValueType::Number)
    );
    assert_eq!(
        Err(ControlError::TypeMismatch),
        check_write(ControlPoint::ProfilingEnabled, ValueType::Flag)
    );
    assert_eq!(Ok(()), check_write(ControlPoint::ProfilingActive, ValueType::Flag));
    assert_eq!(
        Err(ControlError::TypeMismatch),
        check_write(ControlPoint::ProfilingActive, ValueType::Nothing)
    );
    assert_eq!(Ok(()), check_write(ControlPoint::ResetTrigger, ValueType::Number));
    assert_eq!(Ok(()), check_write(ControlPoint::ResetTrigger, ValueType::Nothing));
    assert_eq!(
        Err(ControlError::TypeMismatch),
        check_write(ControlPoint::ResetTrigger, ValueType::Flag)
    );
    assert_eq!(
        Err(ControlError::TypeMismatch),
        check_read(ControlPoint::ResetTrigger, ValueType::Number)
    );
    assert_eq!(Ok(()), check_write(ControlPoint::DumpTarget, ValueType::Text));
    assert_eq!(Ok(()), check_write(ControlPoint::DumpTarget, ValueType::Nothing));
    assert_eq!(Ok(()), check_read(ControlPoint::StatsText, ValueType::Text));
    let mut permitted = 0;
    for point in POINTS {
        for value_type in TYPES {
            if check_read(point, value_type).is_ok() {
                permitted += 1;
            }
            if check_write(point, value_type).is_ok() {
                permitted += 1;
            }
        }
    }
    // four reads, and five writes of which two may go without a value
    assert_eq!(4 + 5, permitted);
}

#[test]
fn operations_agree_with_their_control_points() {
    let operations = vec![
        Operation::IsProfilingEnabled,
        Operation::IsActive,
        Operation::SetActive(true),
        Operation::SampleInterval,
        Operation::Reset(None),
        Operation::Reset(Some(3)),
        Operation::Dump(None),
        Operation::Dump(Some("/tmp/x.prof".to_string())),
        Operation::Stats,
    ];
    for operation in &operations {
        assert_eq!(Ok(()), operation.check());
        if operation.writes() {
            assert_eq!(Ok(()), check_write(operation.point(), operation.value_type()));
        } else {
            assert_eq!(Ok(()), check_read(operation.point(), operation.value_type()));
        }
    }
    assert_eq!(ControlPoint::ProfilingActive, Operation::SetActive(false).point());
    assert_eq!(ControlPoint::ProfilingActive, Operation::IsActive.point());
    assert!(Operation::SetActive(false).writes());
    assert!(!Operation::IsActive.writes());
    assert_eq!(ValueType::Nothing, Operation::Reset(None).value_type());
    assert_eq!(ValueType::Number, Operation::Reset(Some(1)).value_type());
}

#[test]
fn a_dump_path_holds_no_zero_byte() {
    assert_eq!(Ok(()), check_dump_path("/tmp/jemalloc.1.prof"));
    assert_eq!(Ok(()), check_dump_path(""));
    assert_eq!(Err(ControlError::TypeMismatch), check_dump_path("/tmp/a\0b"));
    assert_eq!(Err(ControlError::TypeMismatch), check_dump_path("\0"));
    assert_eq!(
        Err(ControlError::TypeMismatch),
        Operation::Dump(Some("/tmp/a\0".to_string())).check()
    );
}

#[test]
fn a_status_of_zero_is_success() {
    assert_eq!(Ok(()), check_status(0));
    assert_eq!(Err(ControlError::NativeCode(2)), check_status(2));
    assert_eq!(Err(ControlError::NativeCode(-1)), check_status(-1));
    assert_eq!(Err(ControlError::NativeCode(i32::MIN)), check_status(i32::MIN));
}

#[test]
fn replies_are_read_by_type() {
    assert_eq!(Ok(true), Reply::Flag(true).flag());
    assert_eq!(Err(ControlError::TypeMismatch), Reply::Number(1).flag());
    assert_eq!(Err(ControlError::Io), Reply::Failed(ControlError::Io).flag());
    assert_eq!(Ok(19), Reply::Number(19).number());
    assert_eq!(Err(ControlError::TypeMismatch), Reply::Flag(true).number());
    assert_eq!(Err(ControlError::NativeCode(1)), Reply::Failed(ControlError::NativeCode(1)).number());
    assert_eq!(Ok(&vec![1u8, 2]), Reply::Bytes(vec![1, 2]).bytes());
    assert_eq!(Err(ControlError::TypeMismatch), Reply::Done.bytes());
    assert_eq!(Ok(()), Reply::Done.done());
    assert_eq!(Err(ControlError::TypeMismatch), Reply::Flag(false).done());
    assert_eq!(Err(ControlError::Unavailable), Reply::Failed(ControlError::Unavailable).done());
    let file = Reply::File("/tmp/a".to_string(), "a".to_string());
    assert_eq!(Ok((&"/tmp/a".to_string(), &"a".to_string())), file.file());
    assert_eq!(Err(ControlError::TypeMismatch), Reply::Done.file());
}

#[test]
fn control_errors_have_messages() {
    assert_eq!(b"mallctl unavailable".to_vec(), ControlError::Unavailable.message());
    assert_eq!(b"mallctl type mismatch".to_vec(), ControlError::TypeMismatch.message());
    assert_eq!(b"mallctl error code: 22".to_vec(), ControlError::NativeCode(22).message());
    assert_eq!(b"mallctl error code: -7".to_vec(), ControlError::NativeCode(-7).message());
    assert_eq!(b"I/O error".to_vec(), ControlError::Io.message());
    let mut out = b"failed: ".to_vec();
    ControlError::NativeCode(0).push_message(&mut out);
    assert_eq!(b"failed: mallctl error code: 0".to_vec(), out);
}

#[test]
fn control_points_are_bound_to_handles() {
    let channel = ControlChannel::bind();
    assert_eq!(Err(ControlError::Unavailable), channel.handle(ControlPoint::StatsText));
    let mut handles = Vec::new();
    for point in POINTS {
        if point != ControlPoint::StatsText {
            handles.push(channel.handle(point).expect("the allocator is built with profiling"));
        }
    }
    // the active flag and the dump target live in one part of the namespace
    assert_eq!(handles[1][0], handles[4][0]);
    assert_ne!(handles[1], handles[4]);
    // binding again gives the same handles
    let again = ControlChannel::bind();
    assert_eq!(channel.handle(ControlPoint::ProfilingActive), again.handle(ControlPoint::ProfilingActive));

    let unbound = ControlChannel::unbound();
    for point in POINTS {
        assert_eq!(Err(ControlError::Unavailable), unbound.handle(point));
    }
}

#[test]
fn a_channel_hands_out_the_handles_it_was_given() {
    let channel =
        ControlChannel::from_handles(Some([1, 2]), None, Some([5, 6]), Some([7, 8]), Some([9, 0]));
    assert_eq!(Ok([1, 2]), channel.handle(ControlPoint::ProfilingEnabled));
    assert_eq!(Err(ControlError::Unavailable), channel.handle(ControlPoint::ProfilingActive));
    assert_eq!(Ok([5, 6]), channel.handle(ControlPoint::SampleInterval));
    assert_eq!(Ok([7, 8]), channel.handle(ControlPoint::ResetTrigger));
    assert_eq!(Ok([9, 0]), channel.handle(ControlPoint::DumpTarget));
    assert_eq!(Err(ControlError::Unavailable), channel.handle(ControlPoint::StatsText));
}

#[test]
fn values_of_the_allocator_are_read_by_type() {
    assert_eq!(Ok(false), flag_from_byte(0));
    assert_eq!(Ok(true), flag_from_byte(1));
    assert_eq!(Err(ControlError::TypeMismatch), flag_from_byte(2));
    assert_eq!(Err(ControlError::TypeMismatch), flag_from_byte(255));
    assert_eq!(Ok(()), check_value_size(8, 8));
    assert_eq!(Ok(()), check_value_size(0, 0));
    assert_eq!(Err(ControlError::TypeMismatch), check_value_size(8, 4));
    assert_eq!(Err(ControlError::TypeMismatch), check_value_size(1, 8));
}

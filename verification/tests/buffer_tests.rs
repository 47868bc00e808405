use replay_toolbox::{BufferOp, FormatError, ReplayBuffer, ReplayError};

#[test]
fn writes_int32_little_endian() {
    let mut buf = ReplayBuffer::with_capacity(8);
    buf.write_int32(0x1CA2E27F).unwrap();
    buf.write_int32(-257).unwrap();
    assert_eq!(buf.offset(), 8);
    buf.validate(8).unwrap();
    assert_eq!(buf.into_inner(), vec![0x7F, 0xE2, 0xA2, 0x1C, 0xFF, 0xFE, 0xFF, 0xFF]);
}

#[test]
fn writes_int64_little_endian() {
    let mut buf = ReplayBuffer::with_capacity(8);
    buf.write_int64(621355968000000000).unwrap();
    assert_eq!(buf.into_inner(), 621355968000000000i64.to_le_bytes().to_vec());
}

#[test]
fn writes_bytes_verbatim() {
    let mut buf = ReplayBuffer::with_capacity(4);
    buf.write_bytes(&[1, 2, 3]).unwrap();
    assert_eq!(buf.offset(), 3);
    // the unwritten remainder keeps the zero fill
    assert_eq!(buf.into_inner(), vec![1, 2, 3, 0]);
}

#[test]
fn overflow_names_the_operation() {
    let mut buf = ReplayBuffer::with_capacity(2);
    let err = buf.write_int32(7).unwrap_err();
    assert_eq!(
        err,
        ReplayError::FormatError(FormatError::Overflow {
            op: BufferOp::WriteInt32,
            capacity: 2,
            offset: 0,
        })
    );
    // a failed write leaves the buffer unchanged
    assert_eq!(buf.offset(), 0);
    let err = buf.write_int64(7).unwrap_err();
    assert!(matches!(
        err,
        ReplayError::FormatError(FormatError::Overflow { op: BufferOp::WriteInt64, .. })
    ));
    let err = buf.write_bytes(&[0, 1, 2]).unwrap_err();
    assert!(matches!(
        err,
        ReplayError::FormatError(FormatError::Overflow { op: BufferOp::WriteBytes, .. })
    ));
    // a fitting write still works afterwards
    buf.write_bytes(&[9]).unwrap();
    assert_eq!(buf.offset(), 1);
}

#[test]
fn validate_reports_expected_and_actual() {
    let mut buf = ReplayBuffer::with_capacity(8);
    buf.write_int32(1).unwrap();
    assert!(buf.validate(4).is_ok());
    let err = buf.validate(8).unwrap_err();
    assert_eq!(
        err,
        ReplayError::FormatError(FormatError::SizeMismatch { expected: 8, actual: 4 })
    );
}

use h2_frames::head::{Error, Head, Kind, StreamId, HEADER_LEN};
use h2_frames::priority::{Priorities, Priority, StreamDependency};

#[test]
fn test_priority_frame() {
    let mut dependency_buf = Vec::new();
    let dependency = StreamDependency::new(StreamId::zero(), 201, false);
    dependency.encode(&mut dependency_buf);
    let dependency = StreamDependency::load(&dependency_buf).unwrap();
    assert_eq!(dependency.dependency_id(), StreamId::zero());
    assert_eq!(dependency.weight(), 201);
    assert!(!dependency.is_exclusive());

    let priority = Priority::new(StreamId::from(3), dependency);
    let mut priority_buf = Vec::new();
    priority.encode(&mut priority_buf);
    let priority = Priority::load(priority.head(), &priority_buf[HEADER_LEN..]).unwrap();
    assert_eq!(priority.stream_id(), StreamId::from(3));
    assert_eq!(priority.dependency.dependency_id(), StreamId::zero());
    assert_eq!(priority.dependency.weight(), 201);
    assert!(!priority.dependency.is_exclusive());
}

#[test]
fn test_priorities_builder_ignores_stream_id_zero() {
    let dependency = StreamDependency::new(StreamId::from(1), 50, false);
    let priority_zero = Priority::new(StreamId::zero(), dependency);

    let dependency2 = StreamDependency::new(StreamId::from(2), 100, false);
    let priority_valid = Priority::new(StreamId::from(3), dependency2);

    let priorities = Priorities::builder()
        .extend(vec![priority_zero, priority_valid])
        .build();

    assert_eq!(priorities.as_slice().len(), 1);
    assert_eq!(priorities.as_slice()[0].stream_id(), StreamId::from(3));
}

#[test]
fn test_priorities_builder_ignores_duplicate_priorities() {
    let dependency = StreamDependency::new(StreamId::from(1), 50, false);
    let priority1 = Priority::new(StreamId::from(4), dependency);

    let dependency2 = StreamDependency::new(StreamId::from(2), 100, false);
    let priority2 = Priority::new(StreamId::from(4), dependency2);

    let priorities = Priorities::builder().extend(vec![priority1, priority2]).build();
    assert_eq!(priorities.as_slice().len(), 1);
    assert_eq!(priorities.as_slice()[0].stream_id(), StreamId::from(4));

    let dependency3 = StreamDependency::new(StreamId::from(32), 150, false);
    let priority3 = Priority::new(StreamId::from(32), dependency3);

    let dependency4 = StreamDependency::new(StreamId::from(32), 200, false);
    let priority4 = Priority::new(StreamId::from(32), dependency4);

    let priorities = Priorities::builder().extend(vec![priority3, priority4]).build();
    assert_eq!(priorities.as_slice().len(), 1);
    assert_eq!(priorities.as_slice()[0].stream_id(), StreamId::from(32));
}

#[test]
fn dependency_round_trip_keeps_exclusive_bit() {
    let dep = StreamDependency::new(StreamId::from(0x7fff_ffff), 0, true);
    let mut buf = Vec::new();
    dep.encode(&mut buf);
    assert_eq!(buf, vec![0xff, 0xff, 0xff, 0xff, 0x00]);
    assert_eq!(StreamDependency::load(&buf), Ok(dep));

    let dep = StreamDependency::new(StreamId::from(7), 255, false);
    let mut buf = Vec::new();
    dep.encode(&mut buf);
    assert_eq!(buf, vec![0x00, 0x00, 0x00, 0x07, 0xff]);
    assert_eq!(StreamDependency::load(&buf), Ok(dep));
}

#[test]
fn dependency_load_reads_high_bit_as_exclusive() {
    let dep = StreamDependency::load(&[0x80, 0x00, 0x01, 0x02, 9]).unwrap();
    assert!(dep.is_exclusive());
    assert_eq!(dep.dependency_id(), StreamId::from(0x0102));
    assert_eq!(dep.weight(), 9);
}

#[test]
fn dependency_load_rejects_wrong_length() {
    assert_eq!(StreamDependency::load(&[0, 0, 0, 1]), Err(Error::InvalidPayloadLength));
    assert_eq!(StreamDependency::load(&[0, 0, 0, 1, 2, 3]), Err(Error::InvalidPayloadLength));
    assert_eq!(StreamDependency::load(&[]), Err(Error::InvalidPayloadLength));
}

#[test]
fn priority_frame_bytes_are_exact() {
    let p = Priority::new(StreamId::from(5), StreamDependency::new(StreamId::from(3), 15, true));
    let mut buf = Vec::new();
    p.encode(&mut buf);
    assert_eq!(
        buf,
        vec![0, 0, 5, 2, 0, 0, 0, 0, 5, 0x80, 0, 0, 3, 15]
    );
    let head = Head::parse(&buf);
    assert_eq!(head, p.head());
    assert_eq!(head.kind(), Kind::Priority);
    assert_eq!(Priority::load(head, &buf[HEADER_LEN..]), Ok(p));
}

#[test]
fn priority_self_dependency_rejected() {
    let head = Head::new(Kind::Priority, 0, StreamId::from(5));
    let payload = [0, 0, 0, 5, 16];
    assert_eq!(Priority::load(head, &payload), Err(Error::InvalidDependencyId));
}

#[test]
fn priority_load_rejects_short_payload() {
    let head = Head::new(Kind::Priority, 0, StreamId::from(5));
    assert_eq!(Priority::load(head, &[0, 0, 1]), Err(Error::InvalidPayloadLength));
}

#[test]
fn builder_low_range_keeps_first() {
    let first = Priority::new(StreamId::from(4), StreamDependency::new(StreamId::from(1), 10, false));
    let second = Priority::new(StreamId::from(4), StreamDependency::new(StreamId::from(2), 20, true));
    let built = Priorities::builder().push(first).push(second).build();
    assert_eq!(built.as_slice(), &[first]);
    assert_eq!(built.max_stream_id(), StreamId::from(4));
}

#[test]
fn builder_high_range_keeps_first() {
    let first = Priority::new(StreamId::from(32), StreamDependency::new(StreamId::from(1), 10, false));
    let second = Priority::new(StreamId::from(32), StreamDependency::new(StreamId::from(2), 20, false));
    let built = Priorities::builder().push(first).push(second).build();
    assert_eq!(built.len(), 1);
    assert_eq!(built.into_vec(), vec![first]);
}

#[test]
fn builder_zero_id_leaves_max_alone() {
    let dep = StreamDependency::new(StreamId::from(1), 10, false);
    let built = Priorities::builder()
        .push(Priority::new(StreamId::from(9), dep))
        .push(Priority::new(StreamId::zero(), dep))
        .build();
    assert_eq!(built.len(), 1);
    assert!(built.as_slice().iter().all(|p| !p.stream_id().is_zero()));
    assert_eq!(built.max_stream_id(), StreamId::from(9));

    let empty = Priorities::builder().push(Priority::new(StreamId::zero(), dep)).build();
    assert_eq!(empty.len(), 0);
    assert_eq!(empty.max_stream_id(), StreamId::zero());
}

#[test]
fn builder_tracks_max_and_order() {
    let dep = StreamDependency::new(StreamId::from(0), 1, false);
    let a = Priority::new(StreamId::from(40), dep);
    let b = Priority::new(StreamId::from(3), dep);
    let c = Priority::new(StreamId::from(31), dep);
    let d = Priority::new(StreamId::from(40), dep);
    let built = Priorities::builder().extend(vec![a, b, c, d]).build();
    assert_eq!(built.as_slice(), &[a, b, c]);
    assert_eq!(built.max_stream_id(), StreamId::from(40));
}

#[test]
fn head_encode_and_parse() {
    let head = Head::new(Kind::Settings, 1, StreamId::from(0x0102_0304));
    let mut buf = Vec::new();
    head.encode(0x0a0b0c, &mut buf);
    assert_eq!(buf, vec![0x0a, 0x0b, 0x0c, 4, 1, 1, 2, 3, 4]);
    assert_eq!(Head::parse(&buf), head);
}

#[test]
fn priorities_clone_keeps_entries() {
    let dep = StreamDependency::new(StreamId::from(1), 3, false);
    let built = Priorities::builder()
        .push(Priority::new(StreamId::from(7), dep))
        .push(Priority::new(StreamId::from(70), dep))
        .build();
    let copy = built.clone();
    assert_eq!(copy, built);
    assert_eq!(copy.as_slice().len(), 2);
    assert_eq!(copy.as_slice()[1].stream_id(), StreamId::from(70));
    assert_eq!(copy.max_stream_id(), StreamId::from(70));
}

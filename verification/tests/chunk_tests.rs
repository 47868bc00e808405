use replay_toolbox::{assemble_replay, build_replay, chunk_to_bytes, container_size_checked,
    write_string_buffer, Chunk, MetaData, ReplayPart};

#[test]
fn string_buffer_layout() {
    // [int32 length counting the NUL][utf8 bytes][NUL]
    assert_eq!(write_string_buffer("ab"), vec![3, 0, 0, 0, b'a', b'b', 0]);
    assert_eq!(write_string_buffer(""), vec![1, 0, 0, 0, 0]);
}

#[test]
fn header_chunk_is_raw_data_with_frame() {
    let c = Chunk::Header { data: vec![1, 2, 3] };
    let bytes = chunk_to_bytes(&c);
    assert_eq!(bytes, vec![0, 0, 0, 0, 3, 0, 0, 0, 1, 2, 3]);
}

#[test]
fn data_chunk_body_is_16_plus_data() {
    let c = Chunk::Data { data: vec![9, 9], time1: 5, time2: 6, size_in_bytes: None };
    let bytes = chunk_to_bytes(&c);
    // type 1, body length 18
    assert_eq!(&bytes[0..4], &1i32.to_le_bytes());
    assert_eq!(&bytes[4..8], &18i32.to_le_bytes());
    assert_eq!(&bytes[8..12], &5i32.to_le_bytes());
    assert_eq!(&bytes[12..16], &6i32.to_le_bytes());
    assert_eq!(&bytes[16..20], &2i32.to_le_bytes()); // dataLen
    assert_eq!(&bytes[20..24], &2i32.to_le_bytes()); // sizeInBytes defaults to dataLen
    assert_eq!(&bytes[24..26], &[9, 9]);
    assert_eq!(bytes.len(), 8 + 16 + 2);
}

#[test]
fn data_chunk_explicit_size_field() {
    let c = Chunk::Data { data: vec![9], time1: 0, time2: 0, size_in_bytes: Some(77) };
    let bytes = chunk_to_bytes(&c);
    assert_eq!(&bytes[16..20], &1i32.to_le_bytes());
    assert_eq!(&bytes[20..24], &77i32.to_le_bytes());
}

#[test]
fn event_chunk_body_length_formula() {
    let c = Chunk::Event {
        data: vec![1, 2, 3, 4],
        id: "kill".to_string(),
        group: "Pavlov".to_string(),
        metadata: Some("m".to_string()),
        time1: 10,
        time2: 20,
    };
    let bytes = chunk_to_bytes(&c);
    let expected_body = (4 + 4 + 1) + (4 + 6 + 1) + (4 + 1 + 1) + 12 + 4;
    assert_eq!(&bytes[0..4], &3i32.to_le_bytes());
    assert_eq!(&bytes[4..8], &(expected_body as i32).to_le_bytes());
    assert_eq!(bytes.len(), 8 + expected_body);
    // three string buffers, then the 12-byte block, then the data
    let mut body = Vec::new();
    body.extend(write_string_buffer("kill"));
    body.extend(write_string_buffer("Pavlov"));
    body.extend(write_string_buffer("m"));
    body.extend(&10i32.to_le_bytes());
    body.extend(&20i32.to_le_bytes());
    body.extend(&4i32.to_le_bytes());
    body.extend(&[1, 2, 3, 4]);
    assert_eq!(&bytes[8..], &body[..]);
}

#[test]
fn checkpoint_chunk_defaults_missing_metadata_to_empty() {
    let c = Chunk::Checkpoint {
        data: vec![],
        id: "cp0".to_string(),
        group: "checkpoint".to_string(),
        metadata: None,
        time1: 0,
        time2: 0,
    };
    let bytes = chunk_to_bytes(&c);
    let expected_body = (4 + 3 + 1) + (4 + 10 + 1) + (4 + 0 + 1) + 12 + 0;
    assert_eq!(&bytes[0..4], &2i32.to_le_bytes());
    assert_eq!(&bytes[4..8], &(expected_body as i32).to_le_bytes());
}

#[test]
fn unknown_chunk_type_is_skipped() {
    let c = Chunk::Unknown { chunk_type: 9, data: vec![1, 2, 3] };
    assert_eq!(chunk_to_bytes(&c), Vec::<u8>::new());
    let parts = vec![
        ReplayPart::Meta(vec![0xAA]),
        ReplayPart::Chunk(Chunk::Unknown { chunk_type: 9, data: vec![1, 2, 3] }),
        ReplayPart::Chunk(Chunk::Header { data: vec![7] }),
    ];
    let out = build_replay(&parts).unwrap();
    assert_eq!(out, vec![0xAA, 0, 0, 0, 0, 1, 0, 0, 0, 7]);
}

#[test]
fn container_size_matches_output() {
    let parts = vec![
        ReplayPart::Meta(vec![1, 2, 3, 4, 5]),
        ReplayPart::Chunk(Chunk::Header { data: vec![1, 2, 3] }),
        ReplayPart::Chunk(Chunk::Data { data: vec![9], time1: 0, time2: 0, size_in_bytes: None }),
    ];
    let total = container_size_checked(&parts).unwrap();
    let out = build_replay(&parts).unwrap();
    assert_eq!(out.len(), total);
    assert_eq!(total, 5 + (8 + 3) + (8 + 16 + 1));
}

#[test]
fn end_to_end_container_layout() {
    // [meta(562), header(data=[1,2,3]), data-chunk([9,9], t1=5, t2=6)]
    // gives 562 + (8+3) + (8+16+2) = 599 bytes
    let meta = MetaData {
        game_mode: "SND".to_string(),
        friendly_name: "dust2".to_string(),
        competitive: false,
        workshop_mods: "".to_string(),
        live: false,
        total_time: 300,
        version: 7,
        created: "2024-01-02T03:04:05Z".to_string(),
    };
    let chunks = vec![
        Chunk::Header { data: vec![1, 2, 3] },
        Chunk::Data { data: vec![9, 9], time1: 5, time2: 6, size_in_bytes: None },
    ];
    let out = assemble_replay(&meta, chunks).unwrap();
    assert_eq!(out.len(), 599);
    // the chunk-type field of the first chunk
    assert_eq!(&out[562..566], &[0, 0, 0, 0]);
    // its body length
    assert_eq!(&out[566..570], &[3, 0, 0, 0]);
    assert_eq!(&out[570..573], &[1, 2, 3]);
    // the data chunk
    assert_eq!(&out[573..577], &1i32.to_le_bytes());
    assert_eq!(&out[577..581], &18i32.to_le_bytes());
    assert_eq!(&out[581..585], &5i32.to_le_bytes());
}

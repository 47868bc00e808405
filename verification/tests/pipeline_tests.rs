use replay_toolbox::{chunk_from_event, chunk_to_bytes, event_chunks, format_date_label,
    local_filename, lookup_timing, parse_created, process_local, replay_filename, stream_chunk,
    stream_file_index, ticks_from_millis, Config, CreatedTime, Event, EventData, EventKind,
    MetaData, Progress, ProgressUpdate, TimingEntry};

fn sample_meta() -> MetaData {
    MetaData {
        game_mode: "SND".to_string(),
        friendly_name: "dust 2".to_string(),
        competitive: false,
        workshop_mods: "".to_string(),
        live: false,
        total_time: 300,
        version: 7,
        created: "2024-01-02T03:04:05Z".to_string(),
    }
}

fn created() -> CreatedTime {
    parse_created("2024-01-02T03:04:05Z").unwrap()
}

#[test]
fn rfc3339_created_parses_to_millis_and_fields() {
    let t = created();
    assert_eq!(t.millis, 1704164645000);
    assert_eq!((t.year, t.month, t.day, t.hour, t.minute, t.second), (2024, 1, 2, 3, 4, 5));
}

#[test]
fn rfc3339_offset_keeps_wall_clock_fields() {
    // the clock fields stay in the timestamp's own offset; the millisecond
    // count is absolute
    let t = parse_created("2024-01-02T03:04:05+02:00").unwrap();
    assert_eq!(t.millis, 1704157445000);
    assert_eq!((t.hour, t.minute, t.second), (3, 4, 5));
}

#[test]
fn created_epoch_seconds_fallback() {
    let t = parse_created("0").unwrap();
    assert_eq!(t.millis, 0);
    assert_eq!((t.year, t.month, t.day, t.hour, t.minute, t.second), (1970, 1, 1, 0, 0, 0));
    assert!(parse_created("not a date").is_none());
}

#[test]
fn tick_conversion() {
    // ticks(unixMillis = 1000) == 1000 * 10000 + 621355968000000000
    assert_eq!(ticks_from_millis(1000), Some(621355968010000000));
    assert_eq!(ticks_from_millis(0), Some(621355968000000000));
    assert_eq!(ticks_from_millis(-1000), Some(621355967990000000));
    // out of the 64-bit tick range
    assert_eq!(ticks_from_millis(i64::MAX), None);
}

#[test]
fn date_label_format() {
    assert_eq!(format_date_label(&created()), "2024.01.02-03.04.05");
}

#[test]
fn filenames() {
    let m = sample_meta();
    assert_eq!(
        replay_filename(&m, &created(), "abc123"),
        "dust-2-SND-2024.01.02-03.04.05(abc123).replay"
    );
    assert_eq!(local_filename(&m, &created()), "dust-2-SND-2024.01.02-03.04.05.replay");
}

#[test]
fn timing_lookup_matches_by_chunk_number() {
    let timing = vec![
        TimingEntry { numchunks: "2".to_string(), mtime1: "20".to_string(), mtime2: "21".to_string() },
        TimingEntry { numchunks: "1".to_string(), mtime1: "10".to_string(), mtime2: "11".to_string() },
        TimingEntry { numchunks: "x".to_string(), mtime1: "99".to_string(), mtime2: "99".to_string() },
    ];
    assert_eq!(lookup_timing(&timing, 1), (10, 11));
    assert_eq!(lookup_timing(&timing, 2), (20, 21));
    // absent chunk numbers and unparseable fields default to zero
    assert_eq!(lookup_timing(&timing, 3), (0, 0));
    let bad = vec![TimingEntry {
        numchunks: "1".to_string(),
        mtime1: "abc".to_string(),
        mtime2: "".to_string(),
    }];
    assert_eq!(lookup_timing(&bad, 1), (0, 0));
}

#[test]
fn stream_file_indexes() {
    assert_eq!(stream_file_index("stream.7"), 7);
    assert_eq!(stream_file_index("stream.12.bak"), 12);
    assert_eq!(stream_file_index("stream.-3"), -3);
    assert_eq!(stream_file_index("header"), 0);
    assert_eq!(stream_file_index("stream.x"), 0);
    assert_eq!(stream_file_index("stream."), 0);
}

#[test]
fn stream_chunk_reads_header_times() {
    let c = stream_chunk(vec![9], Some("5"), None);
    let bytes = chunk_to_bytes(&c);
    assert_eq!(&bytes[8..12], &5i32.to_le_bytes());
    assert_eq!(&bytes[12..16], &0i32.to_le_bytes());
    let c = stream_chunk(vec![9], Some("junk"), Some("-7"));
    let bytes = chunk_to_bytes(&c);
    assert_eq!(&bytes[8..12], &0i32.to_le_bytes());
    assert_eq!(&bytes[12..16], &(-7i32).to_le_bytes());
}

fn buffer_event(id: Option<&str>, group: Option<&str>, data: Option<(&str, Vec<u8>)>) -> Event {
    Event {
        id: id.map(|s| s.to_string()),
        group: group.map(|s| s.to_string()),
        meta: None,
        time1: Some(1),
        time2: None,
        data: data.map(|(typ, bytes)| EventData { typ: Some(typ.to_string()), data: Some(bytes) }),
    }
}

#[test]
fn event_needs_id_and_group() {
    assert!(chunk_from_event(&buffer_event(None, Some("g"), None), EventKind::Pavlov).is_none());
    assert!(chunk_from_event(&buffer_event(Some("i"), None, None), EventKind::Pavlov).is_none());
    let c = chunk_from_event(&buffer_event(Some("i"), Some("g"), None), EventKind::Pavlov).unwrap();
    let bytes = chunk_to_bytes(&c);
    assert_eq!(&bytes[0..4], &3i32.to_le_bytes());
}

#[test]
fn event_body_taken_only_from_buffer_payloads() {
    let tagged = buffer_event(Some("i"), Some("g"), Some(("Buffer", vec![1, 2])));
    let c = chunk_from_event(&tagged, EventKind::Checkpoint).unwrap();
    let bytes = chunk_to_bytes(&c);
    // body: (4+1+1) + (4+1+1) + (4+0+1) + 12 + 2
    assert_eq!(&bytes[4..8], &31i32.to_le_bytes());
    assert_eq!(&bytes[bytes.len() - 2..], &[1, 2]);
    // a payload with another tag keeps an empty body
    let other = buffer_event(Some("i"), Some("g"), Some(("json", vec![1, 2])));
    let c = chunk_from_event(&other, EventKind::Checkpoint).unwrap();
    let bytes = chunk_to_bytes(&c);
    assert_eq!(&bytes[4..8], &29i32.to_le_bytes());
}

#[test]
fn event_chunks_respect_the_cap() {
    let events = vec![
        buffer_event(Some("a"), Some("g"), None),
        buffer_event(None, Some("g"), None),
        buffer_event(Some("c"), Some("g"), None),
        buffer_event(Some("d"), Some("g"), None),
    ];
    // cap 3: the first three events are considered, one of them skipped
    let chunks = event_chunks(&events, 3, EventKind::Checkpoint);
    assert_eq!(chunks.len(), 2);
}

#[test]
fn local_processing_end_to_end() {
    let meta = sample_meta();
    let header = vec![1, 2, 3];
    // given out of order: the pipeline restores stream.1 before stream.2,
    // and an empty file is skipped entirely
    let files = vec![
        ("stream.2".to_string(), vec![9u8, 9]),
        ("stream.3".to_string(), Vec::<u8>::new()),
        ("stream.1".to_string(), vec![7u8]),
    ];
    let timing = vec![
        TimingEntry { numchunks: "1".to_string(), mtime1: "10".to_string(), mtime2: "11".to_string() },
        TimingEntry { numchunks: "2".to_string(), mtime1: "20".to_string(), mtime2: "21".to_string() },
    ];
    let pavlov = vec![buffer_event(Some("p0"), Some("Pavlov"), Some(("Buffer", vec![5])))];
    let checkpoints = vec![buffer_event(Some("c0"), Some("checkpoint"), None)];
    let out = process_local(
        &meta,
        header,
        files,
        &timing,
        &pavlov,
        &checkpoints,
        &Config::default(),
    )
    .unwrap();

    assert_eq!(out.filename, "dust-2-SND-2024.01.02-03.04.05.replay");

    // container: meta(562) + header(8+3) + stream.1 (8+16+1) + stream.2
    // (8+16+2) + pavlov event + checkpoint event
    let r = &out.replay;
    assert_eq!(&r[562..566], &0i32.to_le_bytes());
    assert_eq!(&r[566..570], &3i32.to_le_bytes());
    let s1 = 573;
    assert_eq!(&r[s1..s1 + 4], &1i32.to_le_bytes());
    assert_eq!(&r[s1 + 4..s1 + 8], &17i32.to_le_bytes());
    // stream.1 gets the timing of chunk number 1
    assert_eq!(&r[s1 + 8..s1 + 12], &10i32.to_le_bytes());
    assert_eq!(&r[s1 + 12..s1 + 16], &11i32.to_le_bytes());
    let s2 = s1 + 8 + 17;
    assert_eq!(&r[s2..s2 + 4], &1i32.to_le_bytes());
    assert_eq!(&r[s2 + 8..s2 + 12], &20i32.to_le_bytes());
    // the Pavlov event (type 3) comes before the checkpoint event (type 2)
    // in the local pipeline
    let p = s2 + 8 + 18;
    assert_eq!(&r[p..p + 4], &3i32.to_le_bytes());
    let pav_body = (4 + 2 + 1) + (4 + 6 + 1) + (4 + 0 + 1) + 12 + 1;
    assert_eq!(&r[p + 4..p + 8], &(pav_body as i32).to_le_bytes());
    let c = p + 8 + pav_body;
    assert_eq!(&r[c..c + 4], &2i32.to_le_bytes());
    let chk_body = (4 + 2 + 1) + (4 + 10 + 1) + (4 + 0 + 1) + 12 + 0;
    assert_eq!(&r[c + 4..c + 8], &(chk_body as i32).to_le_bytes());
    assert_eq!(r.len(), c + 8 + chk_body);

    // progress: initial, header done, one per non-empty stream file, one
    // per event considered
    let pu = |current: usize, max: usize| ProgressUpdate { current, max };
    let snap = |h, d, e, c| Progress {
        header: pu(h, 1),
        data_chunks: pu(d, 3),
        event_chunks: pu(e, 1),
        checkpoint_chunks: pu(c, 1),
    };
    assert_eq!(
        out.updates,
        vec![
            snap(0, 0, 0, 0),
            snap(1, 0, 0, 0),
            snap(1, 1, 0, 0),
            snap(1, 2, 0, 0),
            snap(1, 2, 1, 0),
            snap(1, 2, 1, 1),
        ]
    );
}

#[test]
fn local_processing_respects_caps() {
    let meta = sample_meta();
    let files = vec![
        ("stream.1".to_string(), vec![7u8]),
        ("stream.2".to_string(), vec![8u8]),
        ("stream.3".to_string(), vec![9u8]),
    ];
    let timing: Vec<TimingEntry> = Vec::new();
    let pavlov: Vec<Event> = Vec::new();
    let checkpoints: Vec<Event> = Vec::new();
    let config = Config { data_count: 2, event_count: usize::MAX, checkpoint_count: usize::MAX };
    let out = process_local(&meta, vec![], files, &timing, &pavlov, &checkpoints, &config).unwrap();
    // meta + empty header chunk + two stream chunks only
    assert_eq!(out.replay.len(), 562 + 8 + (8 + 16 + 1) * 2);
    // maxima reflect the cap
    assert_eq!(out.updates[0].data_chunks.max, 2);
    assert_eq!(out.updates.len(), 2 + 2);
}

#[test]
fn local_processing_rejects_bad_created() {
    let mut meta = sample_meta();
    meta.created = "???".to_string();
    let err = process_local(
        &meta,
        vec![],
        Vec::new(),
        &Vec::new(),
        &Vec::new(),
        &Vec::new(),
        &Config::default(),
    )
    .unwrap_err();
    assert_eq!(
        err,
        replay_toolbox::ReplayError::FormatError(replay_toolbox::FormatError::InvalidTimestamp)
    );
}

#[test]
fn online_order_is_checkpoint_before_pavlov() {
    // the online pipeline orders event chunks checkpoint (2) then Pavlov
    // (3); the local pipeline uses the opposite order
    let header = vec![0xAB];
    let streams = vec![stream_chunk(vec![1], None, None)];
    let checkpoints = vec![buffer_event(Some("c"), Some("checkpoint"), None)];
    let pavlov = vec![buffer_event(Some("p"), Some("Pavlov"), None)];
    let chunks = replay_toolbox::online_chunk_list(header, streams, &checkpoints, &pavlov);
    let types: Vec<i32> = chunks
        .iter()
        .map(|c| i32::from_le_bytes(chunk_to_bytes(c)[0..4].try_into().unwrap()))
        .collect();
    assert_eq!(types, vec![0, 1, 2, 3]);
}

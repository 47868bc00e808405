use replay_toolbox::{build_meta, build_name_block, display_string, FormatError, MetaData,
    ReplayError};

fn sample_meta() -> MetaData {
    MetaData {
        game_mode: "SND".to_string(),
        friendly_name: "dust2".to_string(),
        competitive: false,
        workshop_mods: "".to_string(),
        live: false,
        total_time: 300,
        version: 7,
        created: "2024-01-02T03:04:05Z".to_string(),
    }
}

#[test]
fn display_string_composes_all_fields() {
    let d = display_string(&sample_meta());
    assert_eq!(d, "SND,dust2,casual,0,,false");
    let mut m = sample_meta();
    m.competitive = true;
    m.live = true;
    m.workshop_mods = "mod1".to_string();
    assert_eq!(display_string(&m), "SND,dust2,competitive,0,mod1,true");
}

#[test]
fn meta_record_is_exactly_562_bytes() {
    // the record is always exactly 562 bytes, and the internal size
    // validation never fails for a parsable timestamp
    let record = build_meta(&sample_meta()).unwrap();
    assert_eq!(record.len(), 562);

    let mut m = sample_meta();
    m.friendly_name = "x".repeat(2000);
    let record = build_meta(&m).unwrap();
    assert_eq!(record.len(), 562);
}

#[test]
fn meta_record_layout() {
    let m = sample_meta();
    let record = build_meta(&m).unwrap();
    assert_eq!(&record[0..4], &0x1CA2E27Fi32.to_le_bytes());
    assert_eq!(&record[4..8], &6i32.to_le_bytes());
    assert_eq!(&record[8..12], &300i32.to_le_bytes());
    assert_eq!(&record[12..16], &7i32.to_le_bytes());
    assert_eq!(&record[16..20], &0i32.to_le_bytes());
    assert_eq!(&record[20..24], &(-257i32).to_le_bytes());
    // the friendly-name block: the display string in UTF-16LE over the
    // space fill, NUL-terminated
    let disp: Vec<u8> = "SND,dust2,casual,0,,false"
        .encode_utf16()
        .flat_map(|u| u.to_le_bytes())
        .collect();
    assert_eq!(&record[24..24 + disp.len()], &disp[..]);
    assert_eq!(&record[24 + disp.len()..24 + disp.len() + 2], &[0x20, 0x00]);
    assert_eq!(&record[24 + 512..24 + 514], &[0x00, 0x00]);
    // live flag
    assert_eq!(&record[538..542], &0i32.to_le_bytes());
    // created as 100ns ticks since year 1: unix millis * 10000 + offset
    let expected_ticks: i64 = 1704164645000i64 * 10000 + 621355968000000000;
    assert_eq!(&record[542..550], &expected_ticks.to_le_bytes());
    assert_eq!(&record[550..562], &[0u8; 12]);
}

#[test]
fn live_flag_and_ticks_for_live_session() {
    let mut m = sample_meta();
    m.live = true;
    let record = build_meta(&m).unwrap();
    assert_eq!(&record[538..542], &1i32.to_le_bytes());
}

#[test]
fn created_falls_back_to_epoch_seconds() {
    let mut m = sample_meta();
    m.created = "1700000000".to_string();
    let record = build_meta(&m).unwrap();
    let expected_ticks: i64 = 1700000000i64 * 1000 * 10000 + 621355968000000000;
    assert_eq!(&record[542..550], &expected_ticks.to_le_bytes());
}

#[test]
fn unparseable_created_is_an_invalid_timestamp() {
    let mut m = sample_meta();
    m.created = "yesterday".to_string();
    assert_eq!(
        build_meta(&m).unwrap_err(),
        ReplayError::FormatError(FormatError::InvalidTimestamp)
    );
}

#[test]
fn short_name_round_trips_inside_the_block() {
    // a name whose UTF-16LE encoding fits 512 bytes is stored losslessly
    let text = "Grüße 😀 map";
    let block = build_name_block(text);
    assert_eq!(block.len(), 514);
    let enc: Vec<u8> = text.encode_utf16().flat_map(|u| u.to_le_bytes()).collect();
    assert!(enc.len() <= 512);
    assert_eq!(&block[..enc.len()], &enc[..]);
    // read the prefix back as UTF-16LE
    let units: Vec<u16> = block[..enc.len()]
        .chunks(2)
        .map(|p| u16::from_le_bytes([p[0], p[1]]))
        .collect();
    assert_eq!(String::from_utf16(&units).unwrap(), text);
}

#[test]
fn long_name_is_cut_at_the_byte_level() {
    // one exceeding the block is truncated without panicking
    let text = "y".repeat(600);
    let block = build_name_block(&text);
    assert_eq!(block.len(), 514);
    let enc: Vec<u8> = text.encode_utf16().flat_map(|u| u.to_le_bytes()).collect();
    assert_eq!(&block[..], &enc[..514]);
}

#[test]
fn name_block_boundaries() {
    // exactly 512 encoded bytes still round-trip and keep the terminator
    let text = "a".repeat(256);
    let block = build_name_block(&text);
    let enc: Vec<u8> = text.encode_utf16().flat_map(|u| u.to_le_bytes()).collect();
    assert_eq!(enc.len(), 512);
    assert_eq!(&block[..512], &enc[..]);
    assert_eq!(&block[512..514], &[0, 0]);

    // 514 encoded bytes fill the whole block, terminator included
    let text = "b".repeat(257);
    let block = build_name_block(&text);
    let enc: Vec<u8> = text.encode_utf16().flat_map(|u| u.to_le_bytes()).collect();
    assert_eq!(&block[..], &enc[..514]);
}

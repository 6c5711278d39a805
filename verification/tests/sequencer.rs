use uereplay::bunch::{DataBunch, PacketState, PlaybackPacket};
use uereplay::bitreader::BitReader;
use uereplay::chunks::{Elimination, EventChunk};
use uereplay::names::{ChannelCloseReason, ChannelName};
use uereplay::parser::PacketParser;
use uereplay::UeError;

fn bunch(ch_index: u32, ch_seq: i32) -> DataBunch {
    DataBunch {
        packet_id: 1,
        ch_index,
        ch_name: ChannelName::Actor,
        ch_seq,
        b_open: false,
        b_close: false,
        b_is_replication_paused: false,
        b_is_reliable: false,
        b_partial: false,
        b_partial_initial: false,
        b_partial_final: false,
        b_has_package_map_exports: false,
        b_has_must_be_mapped_guids: false,
        b_dormant: false,
        close_reason: ChannelCloseReason::Destroyed,
        data: Vec::new(),
        data_bit_size: 0,
    }
}

#[test]
fn partial_chain_reassembles() {
    let mut parser = PacketParser::new();
    let mut b1 = bunch(7, 5);
    b1.b_open = true;
    b1.b_partial = true;
    b1.b_partial_initial = true;
    b1.data = vec![0xAA];
    b1.data_bit_size = 8;
    let mut b2 = bunch(7, 5);
    b2.b_partial = true;
    b2.data = vec![0xBB];
    b2.data_bit_size = 8;
    let mut b3 = bunch(7, 6);
    b3.b_partial = true;
    b3.b_partial_final = true;
    b3.b_is_replication_paused = true;
    b3.close_reason = ChannelCloseReason::Destroyed;
    b3.data = vec![0xCC];
    b3.data_bit_size = 8;
    parser.parse_bunch(b1).unwrap();
    assert_eq!(parser.sequenced.len(), 0);
    parser.parse_bunch(b2).unwrap();
    assert_eq!(parser.sequenced.len(), 0);
    parser.parse_bunch(b3).unwrap();
    assert_eq!(parser.sequenced.len(), 1);
    let done = &parser.sequenced[0];
    assert_eq!(done.data, vec![0xAA, 0xBB, 0xCC]);
    assert_eq!(done.data_bit_size, 24);
    assert!(done.b_partial_final);
    assert!(done.b_is_replication_paused);
    assert!(parser.partial_bunch.is_none());
}

#[test]
fn second_partial_initial_replaces_accumulator() {
    let mut parser = PacketParser::new();
    let mut b1 = bunch(3, 5);
    b1.b_open = true;
    b1.b_partial = true;
    b1.b_partial_initial = true;
    b1.data = vec![0x11];
    b1.data_bit_size = 8;
    let mut b2 = bunch(3, 9);
    b2.b_open = true;
    b2.b_partial = true;
    b2.b_partial_initial = true;
    b2.data = vec![0x22];
    b2.data_bit_size = 8;
    parser.parse_bunch(b1).unwrap();
    parser.parse_bunch(b2).unwrap();
    assert_eq!(parser.sequenced.len(), 0);
    let acc = parser.partial_bunch.as_ref().unwrap();
    assert_eq!(acc.data, vec![0x22]);
    assert_eq!(acc.ch_seq, 9);
}

#[test]
fn close_bunch_removes_channel() {
    let mut parser = PacketParser::new();
    let mut open = bunch(4, 1);
    open.b_is_reliable = true;
    open.b_open = true;
    parser.parse_bunch(open).unwrap();
    assert!(parser.channels.contains_key(&4));
    let mut close = bunch(4, 2);
    close.b_is_reliable = true;
    close.b_close = true;
    close.close_reason = ChannelCloseReason::Destroyed;
    parser.parse_bunch(close).unwrap();
    assert!(!parser.channels.contains_key(&4));
}

#[test]
fn replayed_reliable_sequence_is_dropped() {
    let mut parser = PacketParser::new();
    let mut b1 = bunch(2, 1);
    b1.b_is_reliable = true;
    b1.b_open = true;
    parser.parse_bunch(b1).unwrap();
    assert_eq!(parser.sequenced.len(), 1);
    let mut replay = bunch(2, 1);
    replay.b_is_reliable = true;
    parser.parse_bunch(replay).unwrap();
    assert_eq!(parser.sequenced.len(), 1);
}

#[test]
fn packet_index_increases_by_one() {
    let mut parser = PacketParser::new();
    // one stop-bit-terminated packet of zero bunches: a lone stop bit
    let packet = PlaybackPacket { state: PacketState::Success, data: vec![0x01] };
    assert_eq!(parser.packet_index, 0);
    parser.received_raw_packet(&packet).unwrap();
    assert_eq!(parser.packet_index, 1);
    parser.received_raw_packet(&packet).unwrap();
    assert_eq!(parser.packet_index, 2);
}

#[test]
fn malformed_packet_is_refused() {
    let mut parser = PacketParser::new();
    let packet = PlaybackPacket { state: PacketState::Success, data: vec![0x00] };
    assert_eq!(parser.received_raw_packet(&packet).unwrap_err(), UeError::MalformedPacket);
}

#[test]
fn guid_export_fills_cache_with_cleaned_path() {
    let mut parser = PacketParser::new();
    // guid 2, flags has-path, null outer guid, then the path "A.B"
    let blob: Vec<u8> = vec![
        0x04, 0x01, 0x00, 0x03, 0x00, 0x00, 0x00, 0x41, 0x2E, 0x42,
    ];
    let total = blob.len() * 8;
    let mut inner = BitReader::new(blob.as_slice(), total);
    let guid = parser.load_internal_object(&mut inner, true, 0).unwrap();
    assert_eq!(guid.0, 2);
    assert_eq!(parser.net_guid_cache.get(2).unwrap(), "B");
    assert_eq!(parser.net_guid_cache.len(), 1);
}

#[test]
fn elimination_event_decodes() {
    let mut data = vec![0u8; 85];
    data.push(0x03); // victim: bot
    data.push(0x05); // killer: binary id of two bytes
    data.push(0x02);
    data.push(0xAB);
    data.push(0xCD);
    data.push(0x07); // gun type
    data.extend_from_slice(&[0x01, 0x00, 0x00, 0x00]); // knocked
    let e = EventChunk {
        id: String::new(),
        group: "playerElim".to_owned(),
        metadata: String::new(),
        start_time: 0,
        end_time: 0,
        data,
    };
    let elim = Elimination::parse(&e).unwrap();
    assert_eq!(elim.victim_id, "Bot");
    assert_eq!(elim.killer_id, "abcd");
    assert_eq!(elim.gun_type, 7);
    assert!(elim.knocked);
}

#[test]
fn wrong_chunk_group_is_refused() {
    let e = EventChunk {
        id: String::new(),
        group: "somethingElse".to_owned(),
        metadata: String::new(),
        start_time: 0,
        end_time: 0,
        data: vec![0u8; 100],
    };
    assert_eq!(Elimination::parse(&e).unwrap_err(), UeError::WrongChunk);
}

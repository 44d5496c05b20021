use ipwned::filter::contains;
use ipwned::filter_builder::{
    residue_is_line_ending, temp_file_name, work_build, work_parse, BuildAction, BuildEnd,
    BuildEvent, BuildPhase, FilterBuilder, HashList, ParseAction, ParseResult, CHANNEL_BUFF_SIZE,
};

fn item(n: u32) -> Vec<u8> {
    let mut bytes = vec![0u8; 20];
    bytes[16..].copy_from_slice(&n.to_be_bytes());
    bytes
}

fn shard(id: u32, from: u32, to: u32) -> ParseResult {
    ParseResult { id, hashes: (from..to).map(item).collect(), etag: Some(format!("tag{}", id)) }
}

#[test]
fn queue_capacity() {
    assert_eq!(CHANNEL_BUFF_SIZE, 50);
}

#[test]
fn parser_hands_the_hashes_on() {
    let list = HashList {
        id: 0,
        data: b"003D68EB55068C33ACE09247EE4C639306B:1\r\n".to_vec(),
        etag: Some(String::from("\"e1\"")),
    };
    match work_parse(Some(list)) {
        ParseAction::Forward { result, unparsed } => {
            assert_eq!(result.id, 0);
            assert_eq!(result.etag, Some(String::from("\"e1\"")));
            assert_eq!(result.hashes.len(), 1);
            assert_eq!(result.hashes[0][..5], [0x00, 0x00, 0x00, 0x03, 0xD6]);
            assert_eq!(result.hashes[0][19], 0x6B);
            assert_eq!(unparsed, 2);
            assert!(residue_is_line_ending(unparsed));
        }
        other => panic!("unexpected action {:?}", other),
    }
}

#[test]
fn parser_reports_what_no_line_claimed() {
    let list = HashList {
        id: 7,
        data: b"0000000000000000000000000000000000A:3\ngarbage".to_vec(),
        etag: None,
    };
    match work_parse(Some(list)) {
        ParseAction::Forward { result, unparsed } => {
            assert_eq!(result.hashes.len(), 1);
            assert_eq!(unparsed, 8);
            assert!(!residue_is_line_ending(unparsed));
        }
        other => panic!("unexpected action {:?}", other),
    }
    assert!(residue_is_line_ending(0));
    assert!(residue_is_line_ending(1));
    assert!(!residue_is_line_ending(3));
}

#[test]
fn parser_passes_over_a_body_without_a_line() {
    let list = HashList { id: 9, data: b"<html>busy</html>".to_vec(), etag: None };
    assert!(matches!(work_parse(Some(list)), ParseAction::Skip { id: 9 }));
    let empty = HashList { id: 3, data: Vec::new(), etag: None };
    assert!(matches!(work_parse(Some(empty)), ParseAction::Skip { id: 3 }));
}

#[test]
fn parser_passes_over_an_identifier_that_names_no_shard() {
    let list = HashList {
        id: 0x100000,
        data: b"0000000000000000000000000000000000A:3".to_vec(),
        etag: None,
    };
    assert!(matches!(work_parse(Some(list)), ParseAction::Skip { id: 0x100000 }));
}

#[test]
fn parser_ends_on_the_close_sentinel() {
    assert!(matches!(work_parse(None), ParseAction::Finish));
}

#[test]
fn builder_starts_loaded_and_clean() {
    let builder = FilterBuilder::new();
    assert_eq!(builder.phase, BuildPhase::Loaded);
    assert!(!builder.dirty);
    assert!(!builder.temp_written);
}

#[test]
fn changed_filter_is_written_then_renamed() {
    let mut filter = qfilter::Filter::new(1000, 0.000001);
    let mut builder = FilterBuilder::new();
    match work_build(&mut builder, &mut filter, BuildEvent::Input(shard(4, 0, 10))) {
        BuildAction::Emit(result) => {
            assert_eq!(result.id, 4);
            assert_eq!(result.total, 10);
            assert_eq!(result.added, 10);
            assert_eq!(result.etag, Some(String::from("tag4")));
        }
        other => panic!("unexpected action {:?}", other),
    }
    assert_eq!(builder.phase, BuildPhase::Accumulating);
    assert!(builder.dirty);
    match work_build(&mut builder, &mut filter, BuildEvent::Input(shard(5, 5, 12))) {
        BuildAction::Emit(result) => {
            assert_eq!(result.total, 7);
            assert_eq!(result.added, 2);
        }
        other => panic!("unexpected action {:?}", other),
    }
    for n in 0..12 {
        assert!(contains(&filter, &item(n)));
    }
    assert!(matches!(
        work_build(&mut builder, &mut filter, BuildEvent::Closed),
        BuildAction::WriteTemp
    ));
    assert_eq!(builder.phase, BuildPhase::Persisting);
    assert!(matches!(
        work_build(&mut builder, &mut filter, BuildEvent::TempWritten(true)),
        BuildAction::Rename
    ));
    assert_eq!(builder.phase, BuildPhase::Persisting);
    assert!(matches!(
        work_build(&mut builder, &mut filter, BuildEvent::Renamed(true)),
        BuildAction::Finish(BuildEnd::Persisted)
    ));
    assert_eq!(builder.phase, BuildPhase::Exited);
    assert_eq!(filter.len(), 12);
}

#[test]
fn unchanged_filter_is_not_written() {
    let mut filter = qfilter::Filter::new(1000, 0.000001);
    let mut builder = FilterBuilder::new();
    work_build(&mut builder, &mut filter, BuildEvent::Input(shard(1, 0, 5)));
    let mut second = FilterBuilder::new();
    match work_build(&mut second, &mut filter, BuildEvent::Input(shard(1, 0, 5))) {
        BuildAction::Emit(result) => {
            assert_eq!(result.total, 5);
            assert_eq!(result.added, 0);
        }
        other => panic!("unexpected action {:?}", other),
    }
    assert!(!second.dirty);
    assert_eq!(second.phase, BuildPhase::Accumulating);
    assert!(matches!(
        work_build(&mut second, &mut filter, BuildEvent::Closed),
        BuildAction::Finish(BuildEnd::Unchanged)
    ));
    assert_eq!(second.phase, BuildPhase::Exited);
}

#[test]
fn builder_without_input_ends_at_once() {
    let mut filter = qfilter::Filter::new(1000, 0.000001);
    let mut builder = FilterBuilder::new();
    assert!(matches!(
        work_build(&mut builder, &mut filter, BuildEvent::Closed),
        BuildAction::Finish(BuildEnd::Unchanged)
    ));
    assert_eq!(builder.phase, BuildPhase::Exited);
}

#[test]
fn failed_write_is_not_renamed() {
    let mut filter = qfilter::Filter::new(1000, 0.000001);
    let mut builder = FilterBuilder::new();
    work_build(&mut builder, &mut filter, BuildEvent::Input(shard(1, 0, 5)));
    work_build(&mut builder, &mut filter, BuildEvent::Closed);
    assert!(matches!(
        work_build(&mut builder, &mut filter, BuildEvent::TempWritten(false)),
        BuildAction::Finish(BuildEnd::PersistFailed)
    ));
    assert_eq!(builder.phase, BuildPhase::Exited);
    assert!(matches!(
        work_build(&mut builder, &mut filter, BuildEvent::Renamed(true)),
        BuildAction::Ignore
    ));
}

#[test]
fn failed_rename_ends_the_builder() {
    let mut filter = qfilter::Filter::new(1000, 0.000001);
    let mut builder = FilterBuilder::new();
    work_build(&mut builder, &mut filter, BuildEvent::Input(shard(1, 0, 5)));
    work_build(&mut builder, &mut filter, BuildEvent::Closed);
    work_build(&mut builder, &mut filter, BuildEvent::TempWritten(true));
    assert!(matches!(
        work_build(&mut builder, &mut filter, BuildEvent::Renamed(false)),
        BuildAction::Finish(BuildEnd::PersistFailed)
    ));
}

#[test]
fn rename_is_not_asked_for_before_the_write() {
    let mut filter = qfilter::Filter::new(1000, 0.000001);
    let mut builder = FilterBuilder::new();
    work_build(&mut builder, &mut filter, BuildEvent::Input(shard(1, 0, 5)));
    assert!(matches!(
        work_build(&mut builder, &mut filter, BuildEvent::TempWritten(true)),
        BuildAction::Ignore
    ));
    work_build(&mut builder, &mut filter, BuildEvent::Closed);
    assert!(matches!(
        work_build(&mut builder, &mut filter, BuildEvent::Renamed(true)),
        BuildAction::Ignore
    ));
    assert_eq!(builder.phase, BuildPhase::Persisting);
}

#[test]
fn saturated_filter_is_not_written() {
    let mut filter = qfilter::Filter::new(1, 0.000001);
    let limit = filter.capacity() as u32;
    let mut builder = FilterBuilder::new();
    assert!(matches!(
        work_build(&mut builder, &mut filter, BuildEvent::Input(shard(1, 0, 10))),
        BuildAction::Emit(_)
    ));
    assert!(builder.dirty);
    assert!(matches!(
        work_build(&mut builder, &mut filter, BuildEvent::Input(shard(2, 10, limit + 20))),
        BuildAction::Abort
    ));
    assert_eq!(builder.phase, BuildPhase::SaturatedAbort);
    assert!(matches!(
        work_build(&mut builder, &mut filter, BuildEvent::Input(shard(3, 0, 1))),
        BuildAction::Ignore
    ));
    assert!(matches!(
        work_build(&mut builder, &mut filter, BuildEvent::Closed),
        BuildAction::Finish(BuildEnd::Saturated)
    ));
    assert_eq!(builder.phase, BuildPhase::Exited);
    assert!(matches!(
        work_build(&mut builder, &mut filter, BuildEvent::Closed),
        BuildAction::Ignore
    ));
}

#[test]
fn input_after_the_close_is_ignored() {
    let mut filter = qfilter::Filter::new(1000, 0.000001);
    let mut builder = FilterBuilder::new();
    work_build(&mut builder, &mut filter, BuildEvent::Closed);
    assert!(matches!(
        work_build(&mut builder, &mut filter, BuildEvent::Input(shard(1, 0, 5))),
        BuildAction::Ignore
    ));
    assert!(filter.is_empty());
}

#[test]
fn temporary_file_stands_beside_the_filter_file() {
    assert_eq!(temp_file_name("ipwned_qfilter.cbor"), "ipwned_qfilter.cbor.new");
    assert_eq!(temp_file_name("/var/lib/ipwned/f"), "/var/lib/ipwned/f.new");
    assert_eq!(temp_file_name(""), ".new");
    assert_ne!(temp_file_name("a.new"), "a.new");
}

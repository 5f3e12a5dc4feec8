use coda_inspect::{
    coda_base_dir, coda_raw_dir, default_input_path, find_proposal, inspect_container,
    read_field, read_timestamp, resolve_year, ContainerReads, FieldRead, FileStat, InspectError,
    LocateError, ProposalEntry, Timestamp,
};

fn entry(name: &str, t: Option<u128>) -> ProposalEntry {
    ProposalEntry { name: name.to_string(), raw_modified: t }
}

fn text(s: &str) -> FieldRead {
    FieldRead::Present { unicode: Some(s.to_string()), ascii: None }
}

fn stat() -> FileStat {
    FileStat {
        modified: Some(Timestamp { secs: 1_700_000_000, nanos: 5, offset_secs: 0 }),
        size: Some(4096),
    }
}

fn reads(start: FieldRead, name: FieldRead) -> ContainerReads {
    ContainerReads { has_entry: true, start_time: start, has_instrument: true, instrument_name: name }
}

#[test]
fn latest_raw_wins_in_any_order() {
    let orders = [[0usize, 1, 2], [2, 1, 0], [1, 2, 0], [0, 2, 1]];
    let all = [("alpha", 10u128), ("beta", 20), ("gamma", 30)];
    for order in orders {
        let entries: Vec<ProposalEntry> =
            order.iter().map(|&i| entry(all[i].0, Some(all[i].1))).collect();
        assert_eq!(find_proposal(&entries), Ok("gamma".to_string()));
    }
}

#[test]
fn entries_without_raw_are_skipped() {
    let entries = vec![entry("a", None), entry("b", Some(3)), entry("c", None)];
    assert_eq!(find_proposal(&entries), Ok("b".to_string()));
}

#[test]
fn tie_keeps_first_seen() {
    let entries = vec![entry("a", Some(7)), entry("b", Some(7)), entry("c", Some(2))];
    assert_eq!(find_proposal(&entries), Ok("a".to_string()));
}

#[test]
fn no_candidate_is_an_error() {
    assert_eq!(find_proposal(&Vec::new()), Err(LocateError::NoCandidate));
    let entries = vec![entry("a", None), entry("b", Some(0))];
    assert_eq!(find_proposal(&entries), Err(LocateError::NoCandidate));
}

#[test]
fn data_directories() {
    assert_eq!(coda_base_dir(2024), "/ess/data/coda/2024");
    assert_eq!(coda_base_dir(-7), "/ess/data/coda/-7");
    assert_eq!(coda_base_dir(0), "/ess/data/coda/0");
    assert_eq!(coda_base_dir(1900), "/ess/data/coda/1900");
    assert_eq!(coda_base_dir(i32::MAX), "/ess/data/coda/2147483647");
    assert_eq!(coda_base_dir(i32::MIN), "/ess/data/coda/-2147483648");
    assert_eq!(coda_raw_dir("123456", 2023), "/ess/data/coda/2023/123456/raw");
    assert_eq!(resolve_year(Some(1999), 2026), 1999);
    assert_eq!(resolve_year(None, 2026), 2026);
    assert_eq!(coda_raw_dir("9", resolve_year(None, 2026)), "/ess/data/coda/2026/9/raw");
}

#[test]
fn default_path_from_override_or_locator() {
    let entries = vec![entry("old", Some(1)), entry("new", Some(2))];
    assert_eq!(
        default_input_path(&Some("77".to_string()), &entries, 2025),
        Ok("/ess/data/coda/2025/77/raw".to_string())
    );
    assert_eq!(
        default_input_path(&None, &entries, 2025),
        Ok("/ess/data/coda/2025/new/raw".to_string())
    );
    assert_eq!(
        default_input_path(&None, &Vec::new(), 2025),
        Err(LocateError::NoCandidate)
    );
}

#[test]
fn missing_instrument_name_fails_inspection() {
    let r = inspect_container(stat(), Ok(reads(text("2024-03-01T12:00:00+01:00"), FieldRead::Missing)));
    assert_eq!(r.unwrap_err(), InspectError::PathNotFound("name".to_string()));
}

#[test]
fn missing_start_time_still_gives_record() {
    let r = inspect_container(stat(), Ok(reads(FieldRead::Missing, text("LOKI")))).unwrap();
    assert_eq!(r.instrument, "LOKI");
    assert_eq!(r.start_time, None);
    assert_eq!(r.modification_time, stat().modified);
    assert_eq!(r.file_size, Some(4096));
}

#[test]
fn malformed_start_time_is_absent() {
    let r = inspect_container(stat(), Ok(reads(text("yesterday"), text("DREAM")))).unwrap();
    assert_eq!(r.instrument, "DREAM");
    assert_eq!(r.start_time, None);
}

#[test]
fn start_time_is_parsed() {
    let r = inspect_container(
        FileStat { modified: None, size: None },
        Ok(reads(text("2024-03-01T12:00:00+01:00"), text("LOKI"))),
    )
    .unwrap();
    assert_eq!(
        r.start_time,
        Some(Timestamp { secs: 1_709_290_800, nanos: 0, offset_secs: 3600 })
    );
    assert_eq!(r.modification_time, None);
    assert_eq!(r.file_size, None);
}

#[test]
fn hard_failures_of_inspection() {
    let open = inspect_container(stat(), Err("no such file".to_string()));
    assert_eq!(open.unwrap_err(), InspectError::Open("no such file".to_string()));

    let mut c = reads(FieldRead::Missing, text("LOKI"));
    c.has_entry = false;
    assert_eq!(
        inspect_container(stat(), Ok(c)).unwrap_err(),
        InspectError::Schema("entry".to_string())
    );

    let mut c = reads(FieldRead::Missing, text("LOKI"));
    c.has_instrument = false;
    assert_eq!(
        inspect_container(stat(), Ok(c)).unwrap_err(),
        InspectError::Schema("instrument".to_string())
    );

    let undecodable = FieldRead::Present { unicode: None, ascii: None };
    assert_eq!(
        inspect_container(stat(), Ok(reads(FieldRead::Missing, undecodable))).unwrap_err(),
        InspectError::Decode("name".to_string())
    );
}

#[test]
fn field_text_falls_back_to_ascii() {
    let both = FieldRead::Present { unicode: Some("u".to_string()), ascii: Some("a".to_string()) };
    assert_eq!(read_field(both, "f"), Ok("u".to_string()));
    let ascii = FieldRead::Present { unicode: None, ascii: Some("a".to_string()) };
    assert_eq!(read_field(ascii, "f"), Ok("a".to_string()));
    assert_eq!(
        read_field(FieldRead::Missing, "f"),
        Err(InspectError::PathNotFound("f".to_string()))
    );
}

#[test]
fn timestamp_errors() {
    assert_eq!(
        read_timestamp(text("2024-13-01T00:00:00Z"), "t"),
        Err(InspectError::TimestampParse("t".to_string()))
    );
    assert_eq!(
        read_timestamp(text("1970-01-01T00:00:01.5Z"), "t"),
        Ok(Timestamp { secs: 1, nanos: 500_000_000, offset_secs: 0 })
    );
    assert_eq!(
        read_timestamp(FieldRead::Present { unicode: None, ascii: None }, "t"),
        Err(InspectError::Decode("t".to_string()))
    );
}

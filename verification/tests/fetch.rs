use mod_catalog::catalog::PackageMap;
use mod_catalog::exclusion::ExclusionSet;
use mod_catalog::fetch::{accept_records, primary_url, source_urls, FetchSession, SourceReader};
use mod_catalog::store::FetchOutcome;

fn keys(map: &PackageMap) -> Vec<String> {
    map.as_index_map().keys().cloned().collect()
}

fn names(map: &PackageMap) -> Vec<String> {
    map.as_index_map().values().map(|p| p.full_name().to_string()).collect()
}

fn read(chunks: &[&[u8]], exclusions: &ExclusionSet) -> PackageMap {
    let mut reader = SourceReader::new();
    for chunk in chunks {
        reader.feed(chunk, exclusions);
    }
    reader.finish()
}

#[test]
fn the_primary_address_holds_the_slug() {
    assert_eq!(primary_url("riskofrain2"), "https://thunderstore.io/c/riskofrain2/api/v1/package/");
    assert_eq!(primary_url(""), "https://thunderstore.io/c//api/v1/package/");
}

#[test]
fn one_community_has_a_second_source() {
    assert_eq!(
        source_urls("lethal-company"),
        vec![
            "https://thunderstore.io/c/lethal-company/api/v1/package/",
            "https://cdn.potatoepet.de/c/lethal-company/api/v1/package/",
        ]
    );
    assert_eq!(source_urls("valheim"), vec!["https://thunderstore.io/c/valheim/api/v1/package/"]);
    assert_eq!(
        source_urls("Lethal-Company"),
        vec!["https://thunderstore.io/c/Lethal-Company/api/v1/package/"]
    );
}

#[test]
fn end_to_end_example() {
    let exclusions = ExclusionSet::from_text("x-y-1.0.0");
    let mut reader = SourceReader::new();
    reader.feed(b"[{\"uuid\":\"a\",\"full_name\":\"x-y-1.0.0\"}]},{\"uuid\":\"b\",\"full_", &exclusions);
    assert_eq!(reader.len(), 0);
    reader.feed(b"name\":\"x-z-1.0.0\"}]},]", &exclusions);
    assert_eq!(reader.len(), 1);
    assert_eq!(reader.text_len(), 1);
    let catalog = reader.finish();
    assert_eq!(keys(&catalog), vec!["b"]);
    assert_eq!(names(&catalog), vec!["x-z-1.0.0"]);
}

#[test]
fn a_key_closed_at_the_cut_and_opened_again_is_no_key() {
    let exclusions = ExclusionSet::from_text("x-y-1.0.0");
    let catalog = read(
        &[
            b"[{\"uuid\":\"a\",\"full_name\":\"x-y-1.0.0\"}]},{\"uuid\":\"b\",\"full_\"",
            b"\"name\":\"x-z-1.0.0\"}]},]",
        ],
        &exclusions,
    );
    assert!(catalog.is_empty());
}

#[test]
fn an_excluded_record_never_enters() {
    let exclusions = ExclusionSet::from_text("bad-mod-1.0.0\n");
    let first = b"{\"uuid\":\"1\",\"full_name\":\"bad-mod-1.0.0\",\"v\":[{}]},{\"uuid\":\"2\",\"full_name\":\"good-mod-1.0.0\",\"v\":[{}]},";
    let second = b"{\"uuid\":\"2\",\"full_name\":\"good-mod-1.0.0\",\"v\":[{}]},{\"uuid\":\"1\",\"full_name\":\"bad-mod-1.0.0\",\"v\":[{}]},";
    let a = read(&[first], &exclusions);
    let b = read(&[second], &exclusions);
    assert_eq!(keys(&a), vec!["2"]);
    assert_eq!(keys(&b), vec!["2"]);
    let mut merged = a;
    merged.extend(b);
    assert_eq!(names(&merged), vec!["good-mod-1.0.0"]);
}

#[test]
fn an_excluded_name_does_not_replace_a_record() {
    let exclusions = ExclusionSet::from_text("bad-mod-1.0.0");
    let catalog = read(
        &[b"{\"uuid\":\"1\",\"full_name\":\"fine-mod-1.0.0\",\"v\":[{}]},{\"uuid\":\"1\",\"full_name\":\"bad-mod-1.0.0\",\"v\":[{}]},"],
        &exclusions,
    );
    assert_eq!(names(&catalog), vec!["fine-mod-1.0.0"]);
}

#[test]
fn a_record_that_does_not_parse_is_passed_over() {
    let exclusions = ExclusionSet::empty();
    let catalog = read(
        &[b"{\"uuid\":\"1\",\"full_name\":\"a\",\"v\":[{}]},{\"uuid\":2,\"v\":[{}]},not json}]},{\"uuid\":\"3\",\"full_name\":\"c\",\"v\":[{}]},"],
        &exclusions,
    );
    assert_eq!(keys(&catalog), vec!["1", "3"]);
}

#[test]
fn the_first_record_of_an_array_is_lost_to_the_bracket() {
    let exclusions = ExclusionSet::empty();
    let catalog = read(
        &[b"[{\"uuid\":\"1\",\"full_name\":\"a\",\"v\":[{}]},{\"uuid\":\"2\",\"full_name\":\"b\",\"v\":[{}]},{\"uuid\":\"3\",\"full_name\":\"c\",\"v\":[{}]}]"],
        &exclusions,
    );
    assert_eq!(keys(&catalog), vec!["2"]);
}

#[test]
fn a_later_record_replaces_an_earlier_one_in_place() {
    let exclusions = ExclusionSet::empty();
    let catalog = read(
        &[b"{\"uuid\":\"1\",\"full_name\":\"a-1\",\"v\":[{}]},{\"uuid\":\"2\",\"full_name\":\"b\",\"v\":[{}]},{\"uuid\":\"1\",\"full_name\":\"a-2\",\"v\":[{}]},"],
        &exclusions,
    );
    assert_eq!(keys(&catalog), vec!["1", "2"]);
    assert_eq!(names(&catalog), vec!["a-2", "b"]);
}

#[test]
fn chunk_boundaries_do_not_change_the_collection() {
    let exclusions = ExclusionSet::from_text("drop-me-1.0.0");
    let text = "{\"uuid\":\"ä\",\"full_name\":\"keep-é-1.0.0\",\"v\":[{}]},{\"uuid\":\"b\",\"full_name\":\"drop-me-1.0.0\",\"v\":[{}]},{\"uuid\":\"c\",\"full_name\":\"keep-𝄞-2.0.0\",\"v\":[{}]},{\"uuid\":\"d\"".as_bytes();
    let whole = read(&[text], &exclusions);
    assert_eq!(keys(&whole), vec!["ä", "c"]);
    for i in 0..=text.len() {
        let cut = read(&[&text[..i], &text[i..]], &exclusions);
        assert_eq!(keys(&cut), keys(&whole));
        assert_eq!(names(&cut), names(&whole));
    }
    let mut reader = SourceReader::new();
    for b in text {
        reader.feed(&[*b], &exclusions);
    }
    assert_eq!(reader.len(), 2);
    assert_eq!(reader.pending_len(), 0);
    assert_eq!(reader.text_len(), 11);
    assert_eq!(names(&reader.finish()), names(&whole));
}

#[test]
fn records_are_accepted_into_a_collection() {
    let exclusions = ExclusionSet::from_text("no-no-1.0.0");
    let mut packages = PackageMap::new();
    let records = vec![
        b"{\"uuid\":\"1\",\"full_name\":\"a\"}".to_vec(),
        b"{\"uuid\":\"2\",\"full_name\":\"no-no-1.0.0\"}".to_vec(),
        b"\xFF".to_vec(),
        b"{\"uuid\":\"3\",\"full_name\":\"c\"}".to_vec(),
    ];
    accept_records(&mut packages, &records, &exclusions);
    assert_eq!(keys(&packages), vec!["1", "3"]);
}

fn fetched(outcome: FetchOutcome) -> PackageMap {
    match outcome {
        FetchOutcome::Fetched(packages) => packages,
        FetchOutcome::Failed => panic!("the fetch failed"),
    }
}

#[test]
fn a_session_asks_for_one_source_after_the_other() {
    let exclusions = ExclusionSet::empty();
    let mut session = FetchSession::new("lethal-company");
    assert_eq!(session.next_url(), Some("https://thunderstore.io/c/lethal-company/api/v1/package/"));
    session.feed(b"{\"uuid\":\"1\",\"full_name\":\"a\",\"v\":[{}]},", &exclusions);
    assert_eq!(session.next_url(), Some("https://thunderstore.io/c/lethal-company/api/v1/package/"));
    session.end_source();
    assert_eq!(session.next_url(), Some("https://cdn.potatoepet.de/c/lethal-company/api/v1/package/"));
    session.end_source();
    assert_eq!(session.next_url(), None);
    session.end_source();
    assert_eq!(session.next_url(), None);
    assert_eq!(keys(&fetched(session.finish())), vec!["1"]);
}

#[test]
fn the_second_source_wins_and_the_first_place_stays() {
    let exclusions = ExclusionSet::from_text("out-out-1.0.0");
    let mut session = FetchSession::new("lethal-company");
    session.feed(b"{\"uuid\":\"a\",\"full_name\":\"a-primary\",\"v\":[{}]},{\"uuid\":\"b\",", &exclusions);
    session.feed(b"\"full_name\":\"b-primary\",\"v\":[{}]},{\"uuid\":\"c\",\"full_name\":\"c-primary\",\"v\":[{}]},", &exclusions);
    session.end_source();
    session.feed(b"{\"uuid\":\"d\",\"full_name\":\"d-extra\",\"v\":[{}]},{\"uuid\":\"b\",\"full_name\":\"b-extra\",\"v\":[{}]},", &exclusions);
    session.feed(b"{\"uuid\":\"c\",\"full_name\":\"out-out-1.0.0\",\"v\":[{}]},", &exclusions);
    session.end_source();
    let packages = fetched(session.finish());
    assert_eq!(keys(&packages), vec!["a", "b", "c", "d"]);
    assert_eq!(names(&packages), vec!["a-primary", "b-extra", "c-primary", "d-extra"]);
}

#[test]
fn what_a_source_leaves_unfinished_is_dropped() {
    let exclusions = ExclusionSet::empty();
    let mut session = FetchSession::new("lethal-company");
    session.feed(b"{\"uuid\":\"a\",\"full_name\":\"a\",\"v\":[{}]},{\"uuid\":\"b\",\"full_name\":\"b\",\"v\":[{}]}", &exclusions);
    session.end_source();
    session.feed(b",{\"uuid\":\"c\",\"full_name\":\"c\",\"v\":[{}]},", &exclusions);
    session.end_source();
    assert_eq!(keys(&fetched(session.finish())), vec!["a"]);
}

#[test]
fn a_session_that_is_given_up_has_failed() {
    let exclusions = ExclusionSet::empty();
    let session = FetchSession::new("valheim");
    assert!(matches!(session.finish(), FetchOutcome::Failed));
    let mut session = FetchSession::new("lethal-company");
    session.feed(b"{\"uuid\":\"a\",\"full_name\":\"a\",\"v\":[{}]},", &exclusions);
    session.end_source();
    assert!(matches!(session.finish(), FetchOutcome::Failed));
    let mut session = FetchSession::new("valheim");
    session.end_source();
    assert!(fetched(session.finish()).is_empty());
}

#[test]
fn a_delimiter_inside_a_string_cuts_the_record_in_two() {
    let exclusions = ExclusionSet::empty();
    let mut reader = SourceReader::new();
    reader.feed(
        b"{\"uuid\":\"1\",\"full_name\":\"a\",\"d\":\"x}]},y\",\"v\":[{}]},{\"uuid\":\"2\",\"full_name\":\"b\",\"v\":[{}]},",
        &exclusions,
    );
    assert_eq!(reader.text_len(), 0);
    assert_eq!(keys(&reader.finish()), vec!["2"]);
}

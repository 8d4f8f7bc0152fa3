use mod_catalog::frame::{find_delimiter, Framer};

fn feed_all(framer: &mut Framer, chunks: &[&[u8]]) -> Vec<Vec<u8>> {
    let mut out = Vec::new();
    for chunk in chunks {
        out.extend(framer.feed(chunk));
    }
    out
}

#[test]
fn find_delimiter_finds_the_first() {
    let text = b"ab}]},cd}]},";
    assert_eq!(find_delimiter(text, 0), Some(2));
    assert_eq!(find_delimiter(text, 2), Some(2));
    assert_eq!(find_delimiter(text, 3), Some(8));
    assert_eq!(find_delimiter(text, 9), None);
}

#[test]
fn find_delimiter_on_short_and_empty_text() {
    assert_eq!(find_delimiter(b"", 0), None);
    assert_eq!(find_delimiter(b"}]}", 0), None);
    assert_eq!(find_delimiter(b"}]},", 0), Some(0));
    assert_eq!(find_delimiter(b"}]},", 1), None);
    assert_eq!(find_delimiter(b"}]},", 100), None);
}

#[test]
fn find_delimiter_needs_all_four_bytes() {
    assert_eq!(find_delimiter(b"}]} ,}] },}}],", 0), None);
    assert_eq!(find_delimiter(b"}]}]},", 0), Some(2));
}

#[test]
fn a_record_keeps_its_brackets_and_loses_the_comma() {
    let mut framer = Framer::new();
    let out = framer.feed(b"{\"a\":[{}]},{\"b\"");
    assert_eq!(out, vec![b"{\"a\":[{}]}".to_vec()]);
    assert_eq!(framer.text_len(), 4);
    assert_eq!(framer.pending_len(), 0);
}

#[test]
fn several_records_in_one_chunk_come_in_order() {
    let mut framer = Framer::new();
    let out = framer.feed(b"one}]},two}]},three}]},rest");
    assert_eq!(out, vec![b"one}]}".to_vec(), b"two}]}".to_vec(), b"three}]}".to_vec()]);
    assert_eq!(framer.text_len(), 4);
}

#[test]
fn a_delimiter_split_over_chunks_is_found() {
    let mut framer = Framer::new();
    assert!(framer.feed(b"one}]").is_empty());
    assert_eq!(framer.text_len(), 5);
    let out = framer.feed(b"},two");
    assert_eq!(out, vec![b"one}]}".to_vec()]);
    assert_eq!(framer.text_len(), 3);
}

#[test]
fn a_character_split_over_chunks_waits() {
    // "é" is the two bytes C3 A9
    let mut framer = Framer::new();
    assert!(framer.feed(b"caf\xC3").is_empty());
    assert_eq!(framer.pending_len(), 4);
    assert_eq!(framer.text_len(), 0);
    let out = framer.feed(b"\xA9}]},x");
    assert_eq!(out, vec!["café}]}".as_bytes().to_vec()]);
    assert_eq!(framer.pending_len(), 0);
    assert_eq!(framer.text_len(), 1);
}

#[test]
fn bytes_that_are_no_text_stay_pending() {
    let mut framer = Framer::new();
    assert!(framer.feed(b"a}]},b").len() == 1);
    assert!(framer.feed(b"\xFF").is_empty());
    assert_eq!(framer.pending_len(), 1);
    assert!(framer.feed(b"c}]},d").is_empty());
    assert_eq!(framer.pending_len(), 7);
    assert_eq!(framer.text_len(), 1);
}

#[test]
fn an_empty_chunk_changes_nothing() {
    let mut framer = Framer::new();
    framer.feed(b"abc");
    assert!(framer.feed(b"").is_empty());
    assert_eq!(framer.text_len(), 3);
    assert_eq!(framer.pending_len(), 0);
}

#[test]
fn every_cut_of_a_text_gives_the_same_records() {
    let text = "[{\"n\":\"ä\",\"v\":[{\"x\":1}]},{\"n\":\"€uro\",\"v\":[{}]},{\"n\":\"𝄞\",\"v\":[{}]}]".as_bytes();
    let mut whole = Framer::new();
    let expected = whole.feed(text);
    assert_eq!(expected.len(), 2);
    for i in 0..=text.len() {
        for j in i..=text.len() {
            let mut framer = Framer::new();
            let out = feed_all(&mut framer, &[&text[..i], &text[i..j], &text[j..]]);
            assert_eq!(out, expected);
            assert_eq!(framer.text_len(), whole.text_len());
            assert_eq!(framer.pending_len(), 0);
        }
    }
}

#[test]
fn byte_by_byte_gives_the_same_records() {
    let text = "é}]},日本語}]},x}]},tail".as_bytes();
    let mut whole = Framer::new();
    let expected = whole.feed(text);
    let mut framer = Framer::new();
    let mut out = Vec::new();
    for b in text {
        out.extend(framer.feed(&[*b]));
    }
    assert_eq!(out, expected);
    assert_eq!(out.len(), 3);
    assert_eq!(framer.text_len(), 4);
}

#[test]
fn the_buffer_stays_as_small_as_a_record() {
    let record = b"{\"name\":\"some package\",\"versions\":[{\"n\":1}]},";
    let mut stream = Vec::new();
    for _ in 0..2000 {
        stream.extend_from_slice(record);
    }
    let mut framer = Framer::new();
    let mut count = 0;
    for chunk in stream.chunks(7) {
        count += framer.feed(chunk).len();
        assert!(framer.text_len() + framer.pending_len() < record.len());
    }
    assert_eq!(count, 2000);
    assert_eq!(framer.text_len(), 0);
}

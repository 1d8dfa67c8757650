use telemetry_acquisition::decode::decode;
use telemetry_acquisition::framing::LineReader;
use telemetry_acquisition::sampler::{read_sample, SampleWindow};

fn lines_of(chunks: &[&[u8]]) -> (Vec<String>, usize) {
    let mut reader = LineReader::new();
    let mut lines = Vec::new();
    for chunk in chunks.iter() {
        lines.extend(reader.feed_lines(chunk));
    }
    (lines, reader.pending_len())
}

#[test]
fn lines_are_framed_across_the_write_boundary() {
    let mut reader = LineReader::new();
    let first = reader.feed_lines(b"a,1\r");
    assert_eq!(first, Vec::<String>::new());
    let second = reader.feed_lines(b"\nb,2\n");
    assert_eq!(second, vec!["a,1".to_string(), "b,2".to_string()]);
    assert_eq!(reader.pending_len(), 0);
}

#[test]
fn lines_are_framed_in_one_write() {
    let (lines, left) = lines_of(&[b"a,1\r\nb,2\n"]);
    assert_eq!(lines, vec!["a,1".to_string(), "b,2".to_string()]);
    assert_eq!(left, 0);
}

#[test]
fn framing_is_the_same_at_every_cut() {
    let stream: &[u8] = b"a,1\r\nb,2\n\n\r\nlast \r\r\nopen";
    let (whole, left) = lines_of(&[stream]);
    assert_eq!(whole, vec!["a,1", "b,2", "", "", "last \r"]);
    assert_eq!(left, 4);
    for i in 0..=stream.len() {
        for j in i..=stream.len() {
            let cut = lines_of(&[&stream[..i], &stream[i..j], &stream[j..]]);
            assert_eq!(cut, (whole.clone(), left), "cut at {} and {}", i, j);
        }
    }
}

#[test]
fn framing_byte_by_byte() {
    let stream: &[u8] = b"12.5;7\r\n13.0;8\r\n";
    let mut reader = LineReader::new();
    let mut lines = Vec::new();
    for b in stream.iter() {
        lines.extend(reader.feed_lines(&[*b]));
    }
    assert_eq!(lines, vec!["12.5;7", "13.0;8"]);
}

#[test]
fn records_keep_their_bytes() {
    let mut reader = LineReader::new();
    let out = reader.feed(b"ab\r\n\xff\xfe\ncd");
    assert_eq!(out, vec![b"ab".to_vec(), vec![0xffu8, 0xfe]]);
    assert_eq!(reader.pending_len(), 2);
    let more = reader.feed(b"\n");
    assert_eq!(more, vec![b"cd".to_vec()]);
    assert_eq!(reader.pending_len(), 0);
}

#[test]
fn only_one_carriage_return_is_stripped() {
    let (lines, _) = lines_of(&[b"x\r\r\n\r\n\rz\n"]);
    assert_eq!(lines, vec!["x\r", "", "\rz"]);
}

#[test]
fn an_empty_chunk_changes_nothing() {
    let mut reader = LineReader::new();
    assert_eq!(reader.feed_lines(b"abc").len(), 0);
    assert_eq!(reader.feed_lines(b"").len(), 0);
    assert_eq!(reader.pending_len(), 3);
    assert_eq!(reader.feed_lines(b"\n"), vec!["abc"]);
}

#[test]
fn malformed_bytes_are_replaced() {
    assert_eq!(decode(b"ok"), "ok");
    assert_eq!(decode(&[0x61, 0xff, 0x62]), "a\u{fffd}b");
    assert_eq!(decode(&[0xc3, 0xa9]), "\u{e9}");
    assert_eq!(decode(&[0xc3]), "\u{fffd}");
    assert_eq!(decode(&[]), "");
    let (lines, _) = lines_of(&[&[0x31, 0x2c, 0x80, 0x0d, 0x0a]]);
    assert_eq!(lines, vec!["1,\u{fffd}"]);
}

#[test]
fn a_window_without_bytes_is_no_sample() {
    let window = SampleWindow::new();
    assert_eq!(window.len(), 0);
    assert_eq!(read_sample(&window), None);
    let mut silent = SampleWindow::new();
    silent.absorb(b"");
    silent.absorb(b"");
    assert_eq!(read_sample(&silent), None);
}

#[test]
fn a_window_collects_its_reads_in_order() {
    let mut window = SampleWindow::new();
    window.absorb(b"1,2\r\n");
    window.absorb(b"");
    window.absorb(b"3,");
    window.absorb(&[0x34, 0xff, 0x0a]);
    assert_eq!(window.len(), 10);
    assert_eq!(read_sample(&window), Some("1,2\r\n3,4\u{fffd}\n".to_string()));
}

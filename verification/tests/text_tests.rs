use telemetry_acquisition::text::{count_char, detect_delimiter, is_whitespace, to_chars, tokenize, MAX_ROWS};

fn repeat(c: char, n: usize) -> String {
    let mut s = String::new();
    for _ in 0..n {
        s.push(c);
    }
    s
}

fn sample_with(tabs: usize, semicolons: usize, commas: usize) -> String {
    format!("x{}y{}z{}\n", repeat('\t', tabs), repeat(';', semicolons), repeat(',', commas))
}

fn expected_rows(sample: &str, delim: char) -> Vec<Vec<String>> {
    let mut rows: Vec<Vec<String>> = Vec::new();
    for line in sample.lines() {
        if line.trim().is_empty() {
            continue;
        }
        if rows.len() == 50 {
            break;
        }
        rows.push(line.trim().split(delim).map(|s| s.trim().to_string()).collect());
    }
    rows
}

fn strings(fields: &[&str]) -> Vec<String> {
    fields.iter().map(|s| s.to_string()).collect()
}

#[test]
fn delimiter_tab_wins_over_semicolon_and_comma() {
    assert_eq!(detect_delimiter(&sample_with(10, 2, 3)), '\t');
}

#[test]
fn delimiter_semicolon_wins_over_comma() {
    assert_eq!(detect_delimiter(&sample_with(1, 8, 3)), ';');
}

#[test]
fn delimiter_comma_is_the_default() {
    assert_eq!(detect_delimiter(&sample_with(1, 1, 5)), ',');
    assert_eq!(detect_delimiter(""), ',');
    assert_eq!(detect_delimiter("no delimiter at all"), ',');
}

#[test]
fn delimiter_tab_is_tested_before_semicolon() {
    assert_eq!(detect_delimiter(&sample_with(4, 9, 3)), '\t');
}

#[test]
fn delimiter_needs_strictly_more_than_commas() {
    assert_eq!(detect_delimiter(&sample_with(3, 3, 3)), ',');
    assert_eq!(detect_delimiter(&sample_with(3, 4, 3)), ';');
    assert_eq!(detect_delimiter(&sample_with(4, 3, 3)), '\t');
}

#[test]
fn delimiter_counts_the_whole_sample() {
    let sample = "a;b\nc;d\ne,f\n";
    assert_eq!(detect_delimiter(sample), ';');
}

#[test]
fn chars_are_counted() {
    let chars = to_chars("a,b,,c\u{e9},");
    assert_eq!(chars.len(), 8);
    assert_eq!(count_char(&chars, ','), 4);
    assert_eq!(count_char(&chars, '\u{e9}'), 1);
    assert_eq!(count_char(&chars, 'z'), 0);
}

#[test]
fn whitespace_is_the_unicode_property() {
    let mut n: u32 = 0;
    while n <= 0x10FFFF {
        if let Some(c) = char::from_u32(n) {
            assert_eq!(is_whitespace(c), c.is_whitespace(), "U+{:04X}", n);
        }
        n += 1;
    }
}

#[test]
fn tokenize_splits_and_trims() {
    let rows = tokenize(" 1 , 2.5 ,abc \r\n4,5,6\n", ',');
    assert_eq!(rows, vec![strings(&["1", "2.5", "abc"]), strings(&["4", "5", "6"])]);
}

#[test]
fn tokenize_skips_blank_lines() {
    let rows = tokenize("\n  \t \r\na;b\n\n\nc;d", ';');
    assert_eq!(rows, vec![strings(&["a", "b"]), strings(&["c", "d"])]);
}

#[test]
fn tokenize_keeps_empty_fields() {
    let rows = tokenize(",a,,b,\n", ',');
    assert_eq!(rows, vec![strings(&["", "a", "", "b", ""])]);
}

#[test]
fn tokenize_trims_the_line_before_it_splits() {
    let rows = tokenize("\t1\t2\t\n", '\t');
    assert_eq!(rows, vec![strings(&["1", "2"])]);
}

#[test]
fn tokenize_takes_fifty_rows() {
    let mut sample = String::new();
    for i in 0..80 {
        sample.push_str(&format!("{},{}\n\n", i, i * 2));
    }
    let rows = tokenize(&sample, ',');
    assert_eq!(rows.len(), MAX_ROWS);
    assert_eq!(rows[0], strings(&["0", "0"]));
    assert_eq!(rows[49], strings(&["49", "98"]));
}

#[test]
fn tokenize_of_nothing_is_empty() {
    assert_eq!(tokenize("", ',').len(), 0);
    assert_eq!(tokenize("\n\r\n \n", ',').len(), 0);
}

#[test]
fn tokenize_agrees_with_the_standard_library() {
    let samples = [
        "1,2,3\n4,5,6\n",
        "1,2,3\r\n4,5,6\r\n",
        "a\rb\n",
        "a\r",
        "  lead , trail  \n,\n,,\n",
        "\u{a0}1\u{2003};\u{3000}2 ;3\u{85}\n;;\n",
        "one line without end",
        "t\tu\tv\n\tw\t\n",
        "\u{feff}1,2\n",
        "\n\n\n",
        "caf\u{e9}, na\u{ef}ve ,\u{1F600}\n",
        "1 2 3\n4 5 6\n",
    ];
    for sample in samples.iter() {
        for delim in [',', ';', '\t', ' '].iter() {
            assert_eq!(tokenize(sample, *delim), expected_rows(sample, *delim), "{:?} {:?}", sample, delim);
        }
    }
}

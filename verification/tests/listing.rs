use genetic::knapsack::Knapsack;
use genetic::listing::cut_lines;
use genetic::listing::parse_file;
use genetic::listing::parse_line;
use genetic::listing::parse_lines;
use genetic::listing::split;
use genetic::listing::squeeze;
use genetic::listing::to_number;
use genetic::listing::Line;

fn lines(text: &[&str]) -> Vec<Vec<u8>> {
    text.iter().map(|l| l.as_bytes().to_vec()).collect()
}

#[test]
fn squeeze_removes_spaces_only() {
    assert_eq!(squeeze(&b" a, b  c ".to_vec()), b"a,bc".to_vec());
    assert_eq!(squeeze(&b"a\tb".to_vec()), b"a\tb".to_vec());
    assert_eq!(squeeze(&b"   ".to_vec()), b"".to_vec());
    assert_eq!(squeeze(&b"".to_vec()), b"".to_vec());
}

#[test]
fn split_cuts_at_commas() {
    assert_eq!(split(&b"a,bc,d".to_vec(), b','), vec![b"a".to_vec(), b"bc".to_vec(), b"d".to_vec()]);
    assert_eq!(split(&b"abc".to_vec(), b','), vec![b"abc".to_vec()]);
    assert_eq!(split(&b"".to_vec(), b','), vec![b"".to_vec()]);
    assert_eq!(split(&b",".to_vec(), b','), vec![b"".to_vec(), b"".to_vec()]);
    assert_eq!(
        split(&b"a,,b,".to_vec(), b','),
        vec![b"a".to_vec(), b"".to_vec(), b"b".to_vec(), b"".to_vec()]
    );
    assert_eq!(split(&b"a,b;c".to_vec(), b';'), vec![b"a,b".to_vec(), b"c".to_vec()]);
}

#[test]
fn to_number_reads_what_the_machine_reads() {
    for text in ["0", "7", "42", "007", "+5", "18446744073709551615", "", "+", "-5", "5a", "a5", "1 2", "++1", "1.5"] {
        assert_eq!(to_number(&text.as_bytes().to_vec()), text.parse::<usize>().ok(), "{}", text);
    }
    assert_eq!(to_number(&b"18446744073709551616".to_vec()), None);
    assert_eq!(to_number(&b"99999999999999999999999".to_vec()), None);
    assert_eq!(to_number(&b"184467440737095516150".to_vec()), None);
    assert_eq!(to_number(&b"123".to_vec()), Some(123));
}

#[test]
fn a_line_is_an_item_a_limit_or_nothing() {
    assert_eq!(parse_line(&b"A, 5, 10".to_vec()), Line::Item(5, 10));
    assert_eq!(parse_line(&b"gold bar,12,900,extra".to_vec()), Line::Item(12, 900));
    assert_eq!(parse_line(&b"4, 20".to_vec()), Line::Limit(20));
    assert_eq!(parse_line(&b"4,0".to_vec()), Line::Limit(0));
    assert_eq!(parse_line(&b"A, five, 10".to_vec()), Line::Garbled);
    assert_eq!(parse_line(&b"A, 5, ".to_vec()), Line::Garbled);
    assert_eq!(parse_line(&b"4, twenty".to_vec()), Line::BadLimit);
    assert_eq!(parse_line(&b"4,".to_vec()), Line::BadLimit);
    assert_eq!(parse_line(&b"".to_vec()), Line::Blank);
    assert_eq!(parse_line(&b"just words".to_vec()), Line::Blank);
}

#[test]
fn a_listing_gives_limit_and_items() {
    let read = parse_lines(&lines(&["4, 10", "A, 5, 10", "B, 4, 40", "", "C, x, 1", "D, 3, 50"]));
    assert_eq!(read, Some((10, vec![(5, 10), (4, 40), (3, 50)])));
    // the last limit counts, wherever it stands
    let twice = parse_lines(&lines(&["A, 5, 10", "1, 10", "B, 4, 40", "2, 15"]));
    assert_eq!(twice, Some((15, vec![(5, 10), (4, 40)])));
    assert_eq!(parse_lines(&lines(&["1, 7"])), Some((7, vec![])));
}

#[test]
fn a_listing_without_a_limit_is_refused() {
    assert_eq!(parse_lines(&lines(&[])), None);
    assert_eq!(parse_lines(&lines(&["A, 5, 10"])), None);
    assert_eq!(parse_lines(&lines(&["4, 0", "A, 5, 10"])), None);
    assert_eq!(parse_lines(&lines(&["4, 10", "A, 5, 10", "4, ten"])), None);
    assert_eq!(parse_lines(&lines(&["4, ten", "4, 10"])), None);
}

#[test]
fn a_listing_makes_a_knapsack() {
    let (limit, items) = parse_lines(&lines(&["2, 10", "A, 5, 10", "B, 4, 40"])).unwrap();
    let knapsack = Knapsack::new(limit, items).unwrap();
    assert_eq!(knapsack.max_weight, 10);
    assert_eq!(knapsack.items, vec![(5, 10), (4, 40)]);
}

#[test]
fn cut_lines_reads_lines_as_a_buffered_reader_does() {
    use_lines("", &[]);
    use_lines("abc", &["abc"]);
    use_lines("abc\n", &["abc"]);
    use_lines("abc\ndef", &["abc", "def"]);
    use_lines("abc\r\ndef\r\n", &["abc", "def"]);
    use_lines("\n\nabc\n\n", &["", "", "abc", ""]);
    use_lines("abc\r", &["abc\r"]);
    use_lines("a\rb\n", &["a\rb"]);
    use_lines("abc\r\r\n", &["abc\r"]);
    use_lines("\r\n", &[""]);
}

fn use_lines(content: &str, expected: &[&str]) {
    let cut = cut_lines(&content.as_bytes().to_vec());
    assert_eq!(cut, lines(expected), "{:?}", content);
    let read: Vec<String> = std::io::BufRead::lines(content.as_bytes()).map(|l| l.unwrap()).collect();
    assert_eq!(read, expected, "{:?}", content);
}

#[test]
fn a_file_gives_limit_and_items() {
    let content = b"4, 10\r\nA, 5, 10\r\nB, 4, 40\r\nC, 6, 30\r\nD, 3, 50\r\n".to_vec();
    assert_eq!(parse_file(&content), Some((10, vec![(5, 10), (4, 40), (6, 30), (3, 50)])));
    assert_eq!(parse_file(&b"4, 10\nA, 5, 10".to_vec()), Some((10, vec![(5, 10)])));
    assert_eq!(parse_file(&b"".to_vec()), None);
    assert_eq!(parse_file(&b"A, 5, 10\n".to_vec()), None);
    assert_eq!(parse_file(&b"4, ten\n".to_vec()), None);
}

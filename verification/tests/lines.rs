use otternel::lines::extract_last_line;

fn by_std_lines(chunk: &str) -> Option<String> {
    let closed = chunk.ends_with('\n');
    let mut lines = chunk.lines().rev();
    let picked = if closed { lines.next() } else { lines.nth(1) };
    picked.map(|line| line.to_string())
}

#[test]
fn chunk_that_ends_with_newline_gives_its_last_line() {
    assert_eq!(extract_last_line("a\nb\nc\n"), Some("c".to_string()));
}

#[test]
fn chunk_with_open_tail_gives_the_line_before_it() {
    assert_eq!(extract_last_line("a\nb\nc"), Some("b".to_string()));
}

#[test]
fn single_partial_line_gives_nothing() {
    assert_eq!(extract_last_line("a"), None);
    assert_eq!(extract_last_line(""), None);
}

#[test]
fn carriage_return_before_line_feed_is_dropped() {
    assert_eq!(extract_last_line("a\r\nb\r\n"), Some("b".to_string()));
    assert_eq!(extract_last_line("a\r\nb"), Some("a".to_string()));
    assert_eq!(extract_last_line("x\r\r\n"), Some("x\r".to_string()));
}

#[test]
fn empty_lines_count_as_lines() {
    assert_eq!(extract_last_line("\n"), Some(String::new()));
    assert_eq!(extract_last_line("a\n\n"), Some(String::new()));
    assert_eq!(extract_last_line("a\n\nb"), Some(String::new()));
    assert_eq!(extract_last_line("\r\n"), Some(String::new()));
}

#[test]
fn only_one_line_of_a_burst_is_forwarded() {
    let chunk = "<Ann> one\n<Bob> two\n<Cid> three\n";
    assert_eq!(extract_last_line(chunk), Some("<Cid> three".to_string()));
}

#[test]
fn non_ascii_lines_are_cut_at_character_positions() {
    assert_eq!(extract_last_line("été\nnoël čaj\nfin"), Some("noël čaj".to_string()));
    assert_eq!(extract_last_line("😀\n"), Some("😀".to_string()));
}

#[test]
fn agrees_with_the_standard_line_splitting() {
    let chunks = [
        "", "a", "a\n", "a\nb", "a\nb\n", "\n", "\n\n", "\r", "\r\n", "a\r", "a\r\nb\r", "a\n\r",
        "a\n\r\n", "\na", "a\r\n\r\nb", "one two\nthree\r\nfour five", "x\r\r\n", "\r\r\n\ny",
    ];
    for chunk in chunks {
        assert_eq!(extract_last_line(chunk), by_std_lines(chunk), "chunk {:?}", chunk);
    }
}

use rsigild::logs::{decode_log, newest_lines, split_lines, tail_log};

fn chars(s: &str) -> Vec<char> {
    s.chars().collect()
}

#[test]
fn lines_split_like_str_lines() {
    assert_eq!(split_lines(""), Vec::<Vec<char>>::new());
    assert_eq!(split_lines("\n"), vec![chars("")]);
    assert_eq!(split_lines("a\r\nb\n\nc"), vec![chars("a"), chars("b"), chars(""), chars("c")]);
    assert_eq!(split_lines("a\rb\n"), vec![chars("a\rb")]);
    assert_eq!(split_lines("x\r"), vec![chars("x\r")]);
    let text = "one\r\ntwo\n\nthree\r\n";
    let expected: Vec<Vec<char>> = text.lines().map(chars).collect();
    assert_eq!(split_lines(text), expected);
}

#[test]
fn newest_lines_come_first() {
    assert_eq!(newest_lines("a\nb\nc\n", 2), "c\nb");
    assert_eq!(newest_lines("a\nb\nc", 5), "c\nb\na");
    assert_eq!(newest_lines("a\nb\nc", 0), "c\nb\na");
    assert_eq!(newest_lines("", 3), "");
    assert_eq!(newest_lines("only", 1), "only");
}

#[test]
fn utf8_logs_are_read_as_utf8() {
    let bytes = "héllo\nwörld\n".as_bytes();
    assert_eq!(decode_log(bytes), "héllo\nwörld\n");
    assert_eq!(tail_log(bytes, 1), "wörld");
}

#[test]
fn non_utf8_logs_are_read_as_gbk() {
    // "中文" in GBK, which is not well-formed UTF-8.
    let bytes: Vec<u8> = vec![0xD6, 0xD0, 0xCE, 0xC4, b'\n', b'o', b'k'];
    assert_eq!(decode_log(&bytes), "中文\nok");
    assert_eq!(tail_log(&bytes, 0), "ok\n中文");
}

use dsh_desktop::text::{
    chars_of, decimal_exec, find_str, lines_exec, parse_u32_exec, replace_exec, rfind_exec,
    signed_decimal_exec, trim_matches, trim_ws, words_exec,
};

fn s(v: &[char]) -> String {
    v.iter().collect()
}

fn ls(v: Vec<Vec<char>>) -> Vec<String> {
    v.iter().map(|l| s(l)).collect()
}

#[test]
fn lines_follow_str_lines() {
    for text in ["", "a", "a\n", "a\r\nb", "foo\r\nbar\n\nbaz\r", "\n", "\n\n", "x\ry\n"] {
        let expect: Vec<String> = text.lines().map(|l| l.to_string()).collect();
        assert_eq!(ls(lines_exec(&chars_of(text))), expect, "{text:?}");
    }
}

#[test]
fn words_follow_split_whitespace() {
    for text in ["", "  ", "a b", "  TCP    0.0.0.0:3081   0.0.0.0:0  LISTENING  42\r", "x\u{3000}y\u{a0}z", "\u{2003}w\u{85}"] {
        let expect: Vec<String> = text.split_whitespace().map(|l| l.to_string()).collect();
        assert_eq!(ls(words_exec(&chars_of(text))), expect, "{text:?}");
    }
}

#[test]
fn trims_follow_str() {
    for text in ["", "  a b  ", "\t\u{2028}x\u{3000}", "\"\"q\"", "  \"h\"  "] {
        assert_eq!(s(&trim_ws(&chars_of(text))), text.trim());
        assert_eq!(s(&trim_matches(&chars_of(text), '"')), text.trim_matches('"'));
    }
}

#[test]
fn numbers_format_and_parse() {
    assert_eq!(s(&decimal_exec(0)), "0");
    assert_eq!(s(&decimal_exec(3081)), "3081");
    assert_eq!(s(&decimal_exec(u64::MAX)), u64::MAX.to_string());
    assert_eq!(s(&signed_decimal_exec(-7)), "-7");
    assert_eq!(s(&signed_decimal_exec(i32::MIN)), i32::MIN.to_string());
    for text in ["0", "42", "+42", "4294967295", "4294967296", "", "+", "-1", "1a", " 1", "00012"] {
        assert_eq!(parse_u32_exec(&chars_of(text)), text.parse::<u32>().ok(), "{text:?}");
    }
}

#[test]
fn search_and_replace_follow_str() {
    let hay = chars_of("a%dp0b%~dp0c%dp0");
    assert_eq!(find_str(&hay, "%dp0"), Some(1));
    assert_eq!(find_str(&hay, "zz"), None);
    assert_eq!(rfind_exec(&hay, hay.len(), '%'), Some(12));
    assert_eq!(rfind_exec(&hay, 3, '%'), Some(1));
    let r = replace_exec(&hay, &chars_of("%dp0"), &chars_of("DIR"));
    assert_eq!(s(&r), "a%dp0b%~dp0c%dp0".replace("%dp0", "DIR"));
    let r2 = replace_exec(&chars_of("aaa"), &chars_of("aa"), &chars_of("b"));
    assert_eq!(s(&r2), "aaa".replace("aa", "b"));
}

#[test]
fn decimal_text_reads_back() {
    for n in [0u32, 7, 10, 3081, 65535, u32::MAX] {
        assert_eq!(parse_u32_exec(&decimal_exec(n as u64)), Some(n));
    }
}

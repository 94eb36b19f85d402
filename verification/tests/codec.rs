use clang_binding::bindings::{
    char_is_whitespace, count_leading_whitespace, decode, encode, has_nul, parse_result,
    terminated, EncodingError, ForeignArgs,
};

fn ok(text: &str) -> Result<String, String> {
    Ok(text.to_string())
}

fn err(text: &str) -> Result<String, String> {
    Err(text.to_string())
}

#[test]
fn decode_success_tag_gives_the_payload() {
    assert_eq!(decode("0formatted code"), ok("formatted code"));
    assert_eq!(parse_result(b"0formatted code"), ok("formatted code"));
}

#[test]
fn decode_failure_tag_gives_the_message() {
    assert_eq!(decode("1parse error"), err("parse error"));
    assert_eq!(parse_result(b"1parse error"), err("parse error"));
}

#[test]
fn decode_empty_answer_is_an_unknown_error() {
    assert_eq!(decode(""), err("Unknown error"));
    assert_eq!(parse_result(b""), err("Unknown error"));
}

#[test]
fn decode_strips_whitespace_before_the_tag_only() {
    assert_eq!(decode("  0 x"), ok(" x"));
    assert_eq!(parse_result(b"  0 x"), ok(" x"));
    assert_eq!(decode("\n\t 1  message \n"), err("  message \n"));
}

#[test]
fn decode_other_first_character_is_an_unknown_error() {
    assert_eq!(decode("2formatted"), err("Unknown error"));
    assert_eq!(decode("x0"), err("Unknown error"));
    assert_eq!(decode("   "), err("Unknown error"));
    assert_eq!(decode(" \n\t"), err("Unknown error"));
}

#[test]
fn decode_tag_alone_gives_an_empty_payload() {
    assert_eq!(decode("0"), ok(""));
    assert_eq!(decode("1"), err(""));
    assert_eq!(decode(" 0"), ok(""));
}

#[test]
fn decode_only_the_first_tag_counts() {
    assert_eq!(decode("01"), ok("1"));
    assert_eq!(decode("10"), err("0"));
    assert_eq!(decode("00"), ok("0"));
}

#[test]
fn decode_skips_unicode_whitespace() {
    assert_eq!(decode("\u{3000}\u{a0}\u{2003}0int x;"), ok("int x;"));
    assert_eq!(decode("\u{85}\u{2028}\u{2029}1bad"), err("bad"));
}

#[test]
fn decode_does_not_skip_what_is_no_whitespace() {
    // Zero width space and the Mongolian vowel separator are not whitespace.
    assert_eq!(decode("\u{200b}0x"), err("Unknown error"));
    assert_eq!(decode("\u{180e}0x"), err("Unknown error"));
    assert_eq!(decode("\u{0}0x"), err("Unknown error"));
}

#[test]
fn decode_keeps_a_payload_of_many_bytes_per_character() {
    assert_eq!(decode("0// größe → 大きさ\n"), ok("// größe → 大きさ\n"));
    assert_eq!(parse_result("\u{3000}1файл 🙂".as_bytes()), err("файл 🙂"));
}

#[test]
fn parse_result_invalid_utf8_is_an_unknown_error() {
    assert_eq!(parse_result(&[0x30, 0xff, 0xfe]), err("Unknown error"));
    assert_eq!(parse_result(&[0xc3]), err("Unknown error"));
    // An overlong encoding and a surrogate are no text either.
    assert_eq!(parse_result(&[0x30, 0xc0, 0x80]), err("Unknown error"));
    assert_eq!(parse_result(&[0x30, 0xed, 0xa0, 0x80]), err("Unknown error"));
}

#[test]
fn whitespace_is_what_std_holds_to_be_whitespace() {
    let mut v: u32 = 0;
    while v <= 0x10ffff {
        if let Some(c) = char::from_u32(v) {
            assert_eq!(char_is_whitespace(c), c.is_whitespace(), "U+{:04X}", v);
        }
        v += 1;
    }
}

#[test]
fn whitespace_has_twenty_five_characters() {
    let mut count: u32 = 0;
    let mut v: u32 = 0;
    while v <= 0x10ffff {
        if let Some(c) = char::from_u32(v) {
            if char_is_whitespace(c) {
                count += 1;
            }
        }
        v += 1;
    }
    assert_eq!(count, 25);
}

#[test]
fn leading_whitespace_is_counted_in_characters() {
    assert_eq!(count_leading_whitespace(""), 0);
    assert_eq!(count_leading_whitespace("0"), 0);
    assert_eq!(count_leading_whitespace("  0 x"), 2);
    assert_eq!(count_leading_whitespace(" \t\r\n"), 4);
    assert_eq!(count_leading_whitespace("\u{3000}\u{2000}x \u{3000}"), 2);
}

#[test]
fn leading_whitespace_agrees_with_trim_start() {
    for text in ["", " ", "a b", "  a", "\u{a0}\u{1680}\u{205f}é ", "\n\n\n", "\u{200b} x"] {
        let trimmed = text.trim_start();
        let skipped = text.chars().count() - trimmed.chars().count();
        assert_eq!(count_leading_whitespace(text), skipped, "{:?}", text);
    }
}

#[test]
fn encode_terminates_both_arguments() {
    let args = encode(b"src/main.c", "int main(){}").unwrap();
    assert_eq!(args.file_name, b"src/main.c\0".to_vec());
    assert_eq!(args.code, b"int main(){}\0".to_vec());
}

#[test]
fn encode_empty_path_and_code() {
    let args = encode(b"", "").unwrap();
    assert_eq!(args, ForeignArgs { file_name: vec![0], code: vec![0] });
}

#[test]
fn encode_keeps_the_utf8_bytes_of_the_code() {
    let args = encode("dir/größe.c".as_bytes(), "// 大").unwrap();
    assert_eq!(args.file_name, vec![
        b'd', b'i', b'r', b'/', b'g', b'r', 0xc3, 0xb6, 0xc3, 0x9f, b'e', b'.', b'c', 0,
    ]);
    assert_eq!(args.code, vec![b'/', b'/', b' ', 0xe5, 0xa4, 0xa7, 0]);
}

#[test]
fn encode_rejects_a_null_byte_in_the_path() {
    assert_eq!(encode(b"src/ma\0in.c", "int x;"), Err(EncodingError::PathHasNul));
    assert_eq!(encode(b"\0", "int x;"), Err(EncodingError::PathHasNul));
    assert_eq!(encode(b"a.c\0", "int x;"), Err(EncodingError::PathHasNul));
}

#[test]
fn encode_rejects_a_null_byte_in_the_code() {
    assert_eq!(encode(b"a.c", "int\0 x;"), Err(EncodingError::ContentHasNul));
    assert_eq!(encode(b"a.c", "\0"), Err(EncodingError::ContentHasNul));
    assert_eq!(encode(b"a.c", "int x;\0"), Err(EncodingError::ContentHasNul));
}

#[test]
fn encode_rejects_a_path_that_is_no_text() {
    assert_eq!(encode(&[b'a', 0xff, b'.', b'c'], "int x;"), Err(EncodingError::PathNotText));
    assert_eq!(encode(&[0xc3], "int x;"), Err(EncodingError::PathNotText));
}

#[test]
fn encode_names_the_first_failure() {
    assert_eq!(encode(&[0xff, 0], "\0"), Err(EncodingError::PathNotText));
    assert_eq!(encode(b"a\0", "\0"), Err(EncodingError::PathHasNul));
}

#[test]
fn encoding_errors_describe_themselves() {
    assert_eq!(EncodingError::PathNotText.message(), "Failed to convert path to string");
    assert_eq!(EncodingError::PathHasNul.message(), "Failed to convert file name to CString");
    assert_eq!(EncodingError::ContentHasNul.message(), "Failed to convert code to CString");
}

#[test]
fn has_nul_finds_a_null_byte_anywhere() {
    assert!(!has_nul(b""));
    assert!(!has_nul(b"abc"));
    assert!(has_nul(b"\0abc"));
    assert!(has_nul(b"ab\0c"));
    assert!(has_nul(b"abc\0"));
}

#[test]
fn terminated_appends_one_null_byte() {
    assert_eq!(terminated(b""), vec![0]);
    assert_eq!(terminated(b"ab"), vec![b'a', b'b', 0]);
    assert_eq!(terminated(b"a\0"), vec![b'a', 0, 0]);
}

#[test]
fn echoed_code_decodes_to_itself() {
    for code in ["int main(){}", "", " \n x", "0", "1", "größe 大"] {
        let args = encode(b"a.c", code).unwrap();
        let mut answer = vec![b'0'];
        answer.extend_from_slice(&args.code[..args.code.len() - 1]);
        assert_eq!(parse_result(&answer), ok(code));
    }
}

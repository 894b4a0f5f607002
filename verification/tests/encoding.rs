use google_admin::encoding::{encode_path, unreserved};

fn expected(text: &str) -> String {
    let mut out = String::new();
    for b in text.bytes() {
        let plain = b.is_ascii_alphanumeric() || b == b'-' || b == b'.' || b == b'_' || b == b'~';
        if plain {
            out.push(char::from(b));
        } else {
            out.push_str(&format!("%{:02X}", b));
        }
    }
    out
}

#[test]
fn unreserved_text_is_unchanged() {
    assert_eq!(encode_path("my_customer"), "my_customer");
    assert_eq!(encode_path("AZaz09-._~"), "AZaz09-._~");
    assert_eq!(
        encode_path("ABCDEFGHIJKLMNOPQRSTUVWXYZabcdefghijklmnopqrstuvwxyz0123456789"),
        "ABCDEFGHIJKLMNOPQRSTUVWXYZabcdefghijklmnopqrstuvwxyz0123456789"
    );
}

#[test]
fn empty_text_is_empty() {
    assert_eq!(encode_path(""), "");
}

#[test]
fn dividing_characters_are_escaped() {
    assert_eq!(encode_path("/"), "%2F");
    assert_eq!(encode_path("?"), "%3F");
    assert_eq!(encode_path(" "), "%20");
    assert_eq!(encode_path("#"), "%23");
    assert_eq!(encode_path("&"), "%26");
    assert_eq!(encode_path("="), "%3D");
    assert_eq!(encode_path("%"), "%25");
    assert_eq!(encode_path("+"), "%2B");
    assert_eq!(encode_path(":"), "%3A");
    assert_eq!(encode_path("@"), "%40");
}

#[test]
fn hexadecimal_digits_are_upper_case() {
    assert_eq!(encode_path("\u{0}"), "%00");
    assert_eq!(encode_path("\t"), "%09");
    assert_eq!(encode_path("\n"), "%0A");
    assert_eq!(encode_path("\u{1f}"), "%1F");
    assert_eq!(encode_path("*"), "%2A");
    assert_eq!(encode_path("["), "%5B");
    assert_eq!(encode_path("`"), "%60");
    assert_eq!(encode_path("{"), "%7B");
    assert_eq!(encode_path("\u{7f}"), "%7F");
}

#[test]
fn neighbours_of_the_unreserved_ranges_are_escaped() {
    assert_eq!(encode_path("@AZ["), "%40AZ%5B");
    assert_eq!(encode_path("`az{"), "%60az%7B");
    assert_eq!(encode_path("/09:"), "%2F09%3A");
    assert_eq!(encode_path(",-./"), "%2C-.%2F");
    assert_eq!(encode_path("^_`"), "%5E_%60");
    assert_eq!(encode_path("}~\u{7f}"), "%7D~%7F");
}

#[test]
fn other_scripts_are_escaped_byte_by_byte() {
    assert_eq!(encode_path("é"), "%C3%A9");
    assert_eq!(encode_path("ß"), "%C3%9F");
    assert_eq!(encode_path("€"), "%E2%82%AC");
    assert_eq!(encode_path("日本"), "%E6%97%A5%E6%9C%AC");
    assert_eq!(encode_path("😀"), "%F0%9F%98%80");
    assert_eq!(encode_path("\u{80}"), "%C2%80");
    assert_eq!(encode_path("\u{7ff}"), "%DF%BF");
    assert_eq!(encode_path("\u{ffff}"), "%EF%BF%BF");
    assert_eq!(encode_path("\u{10ffff}"), "%F4%8F%BF%BF");
}

#[test]
fn mixed_text_keeps_its_order() {
    assert_eq!(encode_path("a b"), "a%20b");
    assert_eq!(encode_path("corp/sales team"), "corp%2Fsales%20team");
    assert_eq!(encode_path("Vertrieb/Süd"), "Vertrieb%2FS%C3%BCd");
    assert_eq!(encode_path("%2F"), "%252F");
}

#[test]
fn every_ascii_character_alone() {
    for code in 0u8..128 {
        let text = String::from(char::from(code));
        assert_eq!(encode_path(&text), expected(&text));
    }
}

#[test]
fn every_two_byte_character_alone() {
    for code in 0x80u32..0x800 {
        let text = String::from(char::from_u32(code).unwrap());
        let out = encode_path(&text);
        assert_eq!(out, expected(&text));
        assert_eq!(out.len(), 6);
    }
}

#[test]
fn result_holds_component_characters_only() {
    let text = "a/b?c d#e&f=g%h+i:j@k\\l\"m'n<o>p[q]r{s}t|u^v`w,x;y!z$(*)é日😀\u{0}\u{7f}";
    let out = encode_path(text);
    assert_eq!(out, expected(text));
    for c in out.chars() {
        assert!(c.is_ascii_alphanumeric() || "-._~%".contains(c));
    }
}

#[test]
fn distinct_texts_have_distinct_encodings() {
    let texts = ["", "a", "A", "%", "%25", "%2F", "/", "a/b", "a%2Fb", " ", "%20", "+", "é", "e"];
    for (i, a) in texts.iter().enumerate() {
        for (j, b) in texts.iter().enumerate() {
            if i != j {
                assert_ne!(encode_path(a), encode_path(b));
            }
        }
    }
}

#[test]
fn unreserved_bytes() {
    for b in 0u8..=255 {
        let plain = b.is_ascii_alphanumeric() || b == b'-' || b == b'.' || b == b'_' || b == b'~';
        assert_eq!(unreserved(b), plain);
    }
    assert!(unreserved(b'A'));
    assert!(unreserved(b'z'));
    assert!(unreserved(b'5'));
    assert!(unreserved(b'~'));
    assert!(!unreserved(b'/'));
    assert!(!unreserved(b'%'));
    assert!(!unreserved(b' '));
    assert!(!unreserved(0x80));
}

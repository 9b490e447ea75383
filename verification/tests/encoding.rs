use gamemon::encode::url_encode;

fn replacement_chain(data: &str) -> String {
    data.replace("\n", "%0A")
        .replace("+", "%2b")
        .replace("\r", "%0D")
        .replace("'", "%27")
        .replace(" ", "%20")
        .replace("#", "%23")
        .replace("&", "^&")
}

#[test]
fn url_encode_leaves_plain_text_alone() {
    assert_eq!(url_encode("GameMon".to_string()), "GameMon");
    assert_eq!(url_encode(String::new()), "");
}

#[test]
fn url_encode_is_the_chain_of_replacements() {
    for s in ["Screen Ambience", "100% & more#1\n", "it's+fun\r\n", "a&&b", "%20 already", "ünïcode text"] {
        assert_eq!(url_encode(s.to_string()), replacement_chain(s));
    }
}

#[test]
fn url_encode_of_a_concatenation_concatenates() {
    let pairs = [("Night ", "Mode"), ("a+", "b&c"), ("", "#x"), ("tail\n", "")];
    for (a, b) in pairs {
        let whole = url_encode(format!("{}{}", a, b));
        let parts = format!("{}{}", url_encode(a.to_string()), url_encode(b.to_string()));
        assert_eq!(whole, parts);
    }
}

#[test]
fn url_encode_leaves_no_reserved_character_and_escapes_each_ampersand() {
    let out = url_encode("x y+z\n\r'#&&w".to_string());
    for c in [' ', '+', '\n', '\r', '\'', '#'] {
        assert!(!out.contains(c));
    }
    let chars: Vec<char> = out.chars().collect();
    for (i, c) in chars.iter().enumerate() {
        if *c == '&' {
            assert!(i > 0 && chars[i - 1] == '^');
        }
    }
    assert_eq!(out, "x%20y%2bz%0A%0D%27%23^&^&w");
}

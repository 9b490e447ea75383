use gamemon::encode::url_encode;

#[test]
fn test() {}

#[test]
fn url_encode_escapes_each_special_character() {
    assert_eq!(url_encode("a b+c\n\r'#&".to_string()), "a%20b%2bc%0A%0D%27%23^&");
}

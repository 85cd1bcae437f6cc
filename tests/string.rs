use rsscript::string::JsString;

fn js(s: &str) -> JsString {
    JsString::new(s.to_string())
}

#[test]
fn concat_appends_in_order() {
    let s = js("ab").concat(&[js("c"), js(""), js("de")]);
    assert_eq!(s.as_str(), "abcde");
    assert_eq!(js("x").concat(&[]).as_str(), "x");
}

#[test]
fn ends_with_checks_suffix() {
    assert!(js("hello").endsWith("llo"));
    assert!(js("hello").endsWith(""));
    assert!(js("hello").endsWith("hello"));
    assert!(!js("hello").endsWith("hell"));
    assert!(!js("lo").endsWith("hello"));
    assert!(js("héllo").endsWith("éllo"));
}

#[test]
fn includes_finds_anywhere() {
    assert!(js("hello").includes("ell"));
    assert!(js("hello").includes(""));
    assert!(js("hello").includes("h"));
    assert!(js("hello").includes("o"));
    assert!(!js("hello").includes("lol"));
    assert!(!js("").includes("a"));
}

#[test]
fn replace_replaces_every_occurrence() {
    assert_eq!(js("a-b-c").replace("-", "+").as_str(), "a+b+c");
    assert_eq!(js("aaa").replace("aa", "b").as_str(), "ba");
    assert_eq!(js("abc").replace("x", "y").as_str(), "abc");
    assert_eq!(js("ab").replace("", "-").as_str(), "-a-b-");
    assert_eq!(js("").replace("", "-").as_str(), "-");
    assert_eq!(js("héé").replace("é", "e").as_str(), "hee");
}

#[test]
fn replace_all_matches_replace() {
    assert_eq!(js("x.y.z").replaceAll(".", "").as_str(), "xyz");
    assert_eq!(js("abab").replaceAll("ab", "ba").as_str(), "baba");
}

#[test]
fn char_at_and_at() {
    let s = js("héllo");
    assert_eq!(s.charAt(1).unwrap().as_str(), "é");
    assert_eq!(s.at(4).unwrap().as_str(), "o");
    assert!(s.charAt(5).is_none());
    assert!(s.charAt(-1).is_none());
    assert!(s.at(-1).is_none());
}

#[test]
fn char_codes() {
    let s = js("Aé€");
    assert_eq!(s.charCodeAt(0), Some(65));
    assert_eq!(s.codePointAt(1), Some(0xE9));
    assert_eq!(s.codePointAt(2), Some(0x20AC));
    assert_eq!(s.charCodeAt(2), Some(0xAC));
    assert_eq!(s.codePointAt(3), None);
    assert_eq!(s.charCodeAt(-2), None);
}

#[test]
fn from_codes() {
    assert_eq!(JsString::fromCharCode(&[72, 105, 0xE9]).as_str(), "Hié");
    assert_eq!(JsString::fromCodePoint(&[0x48, 0x20AC]).unwrap().as_str(), "H€");
    assert!(JsString::fromCodePoint(&[0xD800]).is_none());
    assert!(JsString::fromCodePoint(&[0x110000]).is_none());
    assert_eq!(JsString::fromCodePoint(&[]).unwrap().as_str(), "");
}

#[test]
fn index_of_first_and_last() {
    let s = js("abcabc");
    assert_eq!(s.indexOf("bc"), Some(1));
    assert_eq!(s.lastIndexOf("bc"), Some(4));
    assert_eq!(s.indexOf("x"), None);
    assert_eq!(s.lastIndexOf("x"), None);
    assert_eq!(s.indexOf(""), Some(0));
    assert_eq!(s.lastIndexOf(""), Some(6));
    assert_eq!(js("éa").indexOf("a"), Some(1));
}

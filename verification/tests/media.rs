use chill::media::MediaType;

#[test]
fn media_type_parts() {
    let media_type = MediaType::parse("Application/JSON; charset=utf-8").unwrap();
    assert_eq!("application", media_type.top_level());
    assert_eq!("json", media_type.subtype());
    assert_eq!("application/json; charset=utf-8", media_type.as_str());
    assert!(media_type.is_json());
    assert_eq!(media_type, media_type.clone());
    let svg = MediaType::parse("image/svg+xml").unwrap();
    assert_eq!("image", svg.top_level());
    assert_eq!("svg", svg.subtype());
    assert!(!svg.is_json());
    assert!(!MediaType::parse("text/json").unwrap().is_json());
    assert!(!MediaType::parse("application/xml").unwrap().is_json());
    let bare = MediaType::parse("application/").unwrap();
    assert_eq!("", bare.subtype());
    assert!(!bare.is_json());
}

#[test]
fn media_type_refuses_what_is_none() {
    assert!(MediaType::parse("").is_none());
    assert!(MediaType::parse("json").is_none());
    assert!(MediaType::parse("application json").is_none());
    assert!(MediaType::parse("/json").is_none());
    assert!(MediaType::parse("application/json; charset").is_none());
}

#[test]
fn media_type_parsing_takes_any_text() {
    for text in [
        "*/*", "a/b", "a/b;", "a/b; ", "a/b;c", "a/b;c=", "a/b; c=d", "a/b; c=\"d\"", "a/b; c=\"d",
        "a/b+c", "a/+c", "a/b+", "a/b; charset=utf-8", "a/b;charset=utf-8", "a/b; charset=utf-8; x=y",
        "a/b; charset=utf-8;", "text/plain; charset=UTF-8; boundary=\"x y\"", "\u{e9}/b", "a/\u{e9}",
        "a/b; \u{e9}=c", " a/b", "a /b", "a//b", "/", ";", "=", "a/b;;", "a/b; ; c=d",
    ] {
        match MediaType::parse(text) {
            Some(media_type) => {
                assert!(!media_type.as_str().is_empty(), "{}", text);
                assert!(media_type.as_str().contains(media_type.top_level()), "{}", text);
                assert!(media_type.as_str().contains(media_type.subtype()), "{}", text);
            },
            None => {},
        }
    }
}

use graphql_core::headers::{HeaderError, Headers, SharedHeaders, SURE_ROOM};

#[test]
fn insert_replaces_and_returns_the_first_value() {
    let mut headers = Headers::new();
    assert_eq!(headers.insert("Custom-Header", "1234".to_string()), Ok(None));
    assert_eq!(
        headers.insert("Custom-Header", "Hello World".to_string()),
        Ok(Some("1234".to_string()))
    );
    assert_eq!(headers.get_all("Custom-Header"), vec!["Hello World".to_string()]);
}

#[test]
fn append_adds_and_tells_whether_the_key_existed() {
    let mut headers = Headers::new();
    assert_eq!(headers.insert("Set-Cookie", "Chocolate Chip".to_string()), Ok(None));
    assert_eq!(headers.append("Set-Cookie", "Macadamia".to_string()), Ok(true));
    assert_eq!(
        headers.get_all("Set-Cookie"),
        vec!["Chocolate Chip".to_string(), "Macadamia".to_string()]
    );
    assert_eq!(headers.append("Other", "x".to_string()), Ok(false));
    assert_eq!(headers.get_all("Other"), vec!["x".to_string()]);
    assert_eq!(
        headers.insert("set-cookie", "Oatmeal".to_string()),
        Ok(Some("Chocolate Chip".to_string()))
    );
    assert_eq!(headers.get_all("SET-COOKIE"), vec!["Oatmeal".to_string()]);
}

#[test]
fn contains_ignores_the_case_of_letters() {
    let mut headers = Headers::new();
    assert!(!headers.contains("Access-Control-Allow-Origin"));
    assert_eq!(headers.insert("Access-Control-Allow-Origin", "*".to_string()), Ok(None));
    assert!(headers.contains("Access-Control-Allow-Origin"));
    assert!(headers.contains("access-control-allow-origin"));
    assert!(!headers.contains("access control"));
    assert!(!headers.contains(""));
    assert!(headers.get_all("missing").is_empty());
}

#[test]
fn a_text_that_is_no_header_name_is_refused() {
    let mut headers = Headers::new();
    assert_eq!(headers.insert("not a name", "x".to_string()), Err(HeaderError::InvalidName));
    assert_eq!(headers.insert("", "x".to_string()), Err(HeaderError::InvalidName));
    assert_eq!(headers.append("né", "x".to_string()), Err(HeaderError::InvalidName));
    assert_eq!(headers.append("a:b", "x".to_string()), Err(HeaderError::InvalidName));
    assert_eq!(headers.insert("a\"b", "x".to_string()), Ok(None));
    assert_eq!(headers.insert("!#$%&'*+-.^_`|~09", "x".to_string()), Ok(None));
    assert!(headers.contains("A\"B"));
}

#[test]
fn shared_headers_behave_like_headers() {
    let shared = SharedHeaders::new(Headers::new());
    assert_eq!(shared.insert("Custom-Header", "1234".to_string()), Ok(None));
    assert_eq!(shared.insert("Custom-Header", "Hello World".to_string()), Ok(Some("1234".to_string())));
    assert_eq!(shared.append("Custom-Header", "again".to_string()), Ok(true));
    assert!(shared.contains("custom-header"));
    assert_eq!(shared.get_all("Custom-Header"), vec!["Hello World".to_string(), "again".to_string()]);
    assert_eq!(shared.insert("bad name", "x".to_string()), Err(HeaderError::InvalidName));
}

#[test]
fn a_full_map_refuses_new_names_and_stays_as_it_is() {
    let mut headers = Headers::new();
    let mut accepted = 0usize;
    let mut refused = None;
    for i in 0..40000 {
        match headers.insert(&format!("h{}", i), "v".to_string()) {
            Ok(previous) => {
                assert_eq!(previous, None);
                accepted += 1;
            }
            Err(e) => {
                refused = Some((i, e));
                break;
            }
        }
    }
    let (first_refused, error) = refused.unwrap();
    assert_eq!(error, HeaderError::MaxSizeReached);
    assert_eq!(accepted, first_refused);
    assert!(first_refused >= SURE_ROOM);
    assert!(!headers.contains(&format!("h{}", first_refused)));
    assert!(headers.contains("h0"));
    assert!(headers.contains(&format!("h{}", first_refused - 1)));
    assert_eq!(headers.append(&format!("n{}", first_refused), "v".to_string()), Err(HeaderError::MaxSizeReached));
    assert_eq!(headers.get_all("h0"), vec!["v".to_string()]);
}

#[test]
fn there_is_room_for_names_below_the_sure_number() {
    let mut headers = Headers::new();
    for i in 0..SURE_ROOM {
        assert_eq!(headers.append(&format!("n{}", i), "v".to_string()), Ok(false));
    }
    assert_eq!(headers.append("n0", "w".to_string()), Ok(true));
    assert_eq!(headers.get_all("n0"), vec!["v".to_string(), "w".to_string()]);
}

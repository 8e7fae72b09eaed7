use saffron::collection::SerializableRequest;
use saffron::environment::Environment;
use saffron::error::ParseError;
use saffron::history::HistoryResponse;
use saffron::http::{classify_transport_error, HttpError};
use saffron::importers::{auto_import, ImportError};
use saffron::json::{Json, JsonElement, JsonObject};
use saffron::parse::Parse;
use saffron::request::HttpMethod;
use saffron::request_body::{encode, encode_form_urlencoded, ContentType};
use saffron::response::HttpResponse;
use saffron::string_map::StringMap;
use saffron::text;
use saffron::token_stream::TokenStream;
use saffron::tokenizer::{Span, Token, TokenKind, Tokenizer};
use std::time::Duration;

#[test]
fn test_duplicate_key_last_wins() {
    let result = Json::parse(r#"{"k":1,"k":2}"#).unwrap();
    if let JsonElement::Object(map) = result.root {
        assert_eq!(map.len(), 1);
        assert_eq!(map.get("k"), Some(&JsonElement::Number("2".to_string())));
    } else {
        panic!("Expected Object");
    }
}

#[test]
fn test_parse_idempotent() {
    let input = r#"{"a":[1,"x",true],"b":{"c":null}}"#;
    let first = Json::parse(input).unwrap();
    let second = Json::parse(input).unwrap();
    assert_eq!(first.root, second.root);
}

#[test]
fn test_whitespace_does_not_change_tree() {
    let tight = Json::parse(r#"[1,{"a":true}]"#).unwrap();
    let spaced = Json::parse(" [ \n 1 ,\t { \"a\" :\n true } ] ").unwrap();
    assert_eq!(tight.root, spaced.root);
}

#[test]
fn test_end_to_end_document() {
    let input =
        r#"{"project":"X","version":0.1,"features":["a","b"],"config":{"port":8080,"ssl":true}}"#;
    let result = Json::parse(input).unwrap();
    if let JsonElement::Object(map) = result.root {
        assert_eq!(map.len(), 4);
        assert_eq!(map.get("project"), Some(&JsonElement::String("X".to_string())));
        assert_eq!(map.get("version"), Some(&JsonElement::Number("0.1".to_string())));
        match map.get("features") {
            Some(JsonElement::Array(items)) => {
                assert_eq!(items.len(), 2);
                assert_eq!(items[0], JsonElement::String("a".to_string()));
                assert_eq!(items[1], JsonElement::String("b".to_string()));
            }
            _ => panic!("Expected features array"),
        }
        match map.get("config") {
            Some(JsonElement::Object(config)) => {
                assert_eq!(
                    config.get("port"),
                    Some(&JsonElement::Number(8080.0.to_string()))
                );
                assert_eq!(config.get("ssl"), Some(&JsonElement::Boolean(true)));
            }
            _ => panic!("Expected config object"),
        }
    } else {
        panic!("Expected Object");
    }
}

#[test]
fn test_lexical_error_messages() {
    let err = Json::parse("@").unwrap_err();
    assert_eq!(err.message, "Invalid character '@' at line 1");

    let err = Json::parse("[\n@").unwrap_err();
    assert_eq!(err.message, "Invalid character '@' at line 2");

    let err = Json::parse("\"abc").unwrap_err();
    assert_eq!(err.message, "Unterminated string at line 1.");

    let err = Json::parse("-x").unwrap_err();
    assert_eq!(err.message, "Invalid character '-' at line 1");
}

#[test]
fn test_syntactic_error_messages() {
    let err = Json::parse("[1 2]").unwrap_err();
    assert_eq!(err.message, "Expected ',' or ']' in array, found Number");

    let err = Json::parse(r#"{"a":1 "b":2}"#).unwrap_err();
    assert_eq!(err.message, "Expected ',' or '}' in object, found String");

    let err = Json::parse(r#"{"a" 1}"#).unwrap_err();
    assert_eq!(err.message, "Expected ':' after object key");

    let err = Json::parse(r#"{1:"v"}"#).unwrap_err();
    assert_eq!(err.message, "Expected string key in object, found Number");

    let err = Json::parse("}").unwrap_err();
    assert_eq!(err.message, "Unexpected token: RightBrace");

    let err = Json::parse("nope").unwrap_err();
    assert_eq!(err.message, "Unexpected token: Identifier");

    let err = Json::parse("").unwrap_err();
    assert_eq!(err.message, "Unexpected token: EndOfFile");
}

#[test]
fn test_parse_error_display_message() {
    let err = ParseError::new("boom");
    assert_eq!(err.message, "boom");
    assert_eq!(err.display_message(), "ParseError: boom");
}

#[test]
fn test_token_stream_cursor() {
    let tokens = vec![
        Token::new(TokenKind::LeftBracket, "[".to_string(), 1, 2, Span(0, 1)),
        Token::new(TokenKind::Number, "7".to_string(), 1, 3, Span(1, 2)),
        Token::new(TokenKind::RightBracket, "]".to_string(), 1, 4, Span(2, 3)),
        Token::new(TokenKind::EndOfFile, "\0".to_string(), 1, 4, Span(2, 3)),
    ];
    let mut stream = TokenStream::new(tokens);

    assert_eq!(stream.current().kind, TokenKind::LeftBracket);
    assert_eq!(stream.previous().kind, TokenKind::LeftBracket);
    assert_eq!(stream.look_ahead(1).kind, TokenKind::Number);
    assert_eq!(stream.look_ahead(9).kind, TokenKind::EndOfFile);

    let consumed = stream.advance();
    assert_eq!(consumed.kind, TokenKind::LeftBracket);
    assert_eq!(stream.current().kind, TokenKind::Number);

    stream.backtrack();
    assert_eq!(stream.current().kind, TokenKind::LeftBracket);

    let empty = TokenStream::new(Vec::new());
    assert_eq!(empty.current().kind, TokenKind::EndOfFile);
    assert_eq!(empty.current().lexeme, "\0");
}

#[test]
fn test_token_new_synthetic() {
    let token = Token::new_synthetic("ghost");
    assert_eq!(token.kind, TokenKind::Identifier);
    assert_eq!(token.lexeme, "ghost");
    assert_eq!(token.line, 0);
    assert_eq!(token.span, Span(0, 1));
}

#[test]
fn test_tokenizer_lexemes_and_lines() {
    let mut tokenizer = Tokenizer::new("{\n \"a\": -1.5}".to_string());
    let mut stream = tokenizer.scan_tokens().unwrap();

    let t = stream.advance();
    assert_eq!(t.kind, TokenKind::LeftBrace);
    assert_eq!(t.line, 1);

    let t = stream.advance();
    assert_eq!(t.kind, TokenKind::String);
    assert_eq!(t.lexeme, "a");
    assert_eq!(t.line, 2);

    let t = stream.advance();
    assert_eq!(t.kind, TokenKind::Colon);

    let t = stream.advance();
    assert_eq!(t.kind, TokenKind::Number);
    assert_eq!(t.lexeme, "-1.5");

    let t = stream.advance();
    assert_eq!(t.kind, TokenKind::RightBrace);

    let t = stream.advance();
    assert_eq!(t.kind, TokenKind::EndOfFile);
}

#[test]
fn test_tokenizer_keywords_and_identifiers() {
    let mut tokenizer = Tokenizer::new("true false null nully".to_string());
    let mut stream = tokenizer.scan_tokens().unwrap();

    assert_eq!(stream.advance().kind, TokenKind::Boolean);
    assert_eq!(stream.advance().kind, TokenKind::Boolean);
    assert_eq!(stream.advance().kind, TokenKind::Null);
    let t = stream.advance();
    assert_eq!(t.kind, TokenKind::Identifier);
    assert_eq!(t.lexeme, "nully");
}

#[test]
fn test_number_lexeme_stops_before_bare_dot() {
    let mut tokenizer = Tokenizer::new("1.".to_string());
    let err = tokenizer.scan_tokens().unwrap_err();
    assert_eq!(err.message, "Invalid character '.' at line 1");
}

#[test]
fn test_string_map_operations() {
    let mut map = StringMap::new();
    assert!(map.is_empty());
    map.insert("a".to_string(), "1".to_string());
    map.insert("b".to_string(), "2".to_string());
    map.insert("a".to_string(), "3".to_string());

    assert_eq!(map.len(), 2);
    assert_eq!(map.get("a"), Some(&"3".to_string()));
    assert!(map.contains_key("b"));
    assert_eq!(map.remove("a"), Some("3".to_string()));
    assert_eq!(map.get("a"), None);
    assert_eq!(map.len(), 1);
    assert_eq!(map.remove("missing"), None);
}

#[test]
fn test_json_object_insert_and_get() {
    let mut obj = JsonObject::new();
    obj.insert("x".to_string(), JsonElement::Null);
    obj.insert("x".to_string(), JsonElement::Boolean(true));
    obj.insert("y".to_string(), JsonElement::String("v".to_string()));

    assert_eq!(obj.len(), 2);
    assert_eq!(obj.get("x"), Some(&JsonElement::Boolean(true)));
    assert_eq!(obj.get("y"), Some(&JsonElement::String("v".to_string())));
    assert_eq!(obj.get("z"), None);
}

#[test]
fn test_urlencoding() {
    assert_eq!(encode("hello world"), "hello+world");
    assert_eq!(encode("a/b&c=d"), "a%2Fb%26c%3Dd");
    assert_eq!(encode("safe-_.~AZaz09"), "safe-_.~AZaz09");

    let mut data = StringMap::new();
    data.insert("q".to_string(), "a b".to_string());
    data.insert("lang".to_string(), "en/us".to_string());
    assert_eq!(encode_form_urlencoded(&data), "q=a+b&lang=en%2Fus");

    let empty = StringMap::new();
    assert_eq!(encode_form_urlencoded(&empty), "");
}

#[test]
fn test_content_type_round_trip() {
    assert_eq!(ContentType::Json.as_mime_type(), "application/json");
    assert_eq!(
        ContentType::FormUrlEncoded.as_mime_type(),
        "application/x-www-form-urlencoded"
    );
    assert_eq!(
        ContentType::from_mime_type("Application/JSON; charset=utf-8"),
        ContentType::Json
    );
    assert_eq!(ContentType::from_mime_type("text/xml"), ContentType::Xml);
    assert_eq!(
        ContentType::from_mime_type("something/else"),
        ContentType::Custom("something/else".to_string())
    );
}

#[test]
fn test_content_length_edge_cases() {
    let mut headers = StringMap::new();
    headers.insert("Content-Length".to_string(), "+42".to_string());
    let response = HttpResponse::new(
        200,
        "OK".to_string(),
        headers,
        vec![],
        Duration::from_millis(1),
        "https://example.com".to_string(),
    );
    assert_eq!(response.content_length(), Some(42));

    let mut headers = StringMap::new();
    headers.insert(
        "Content-Length".to_string(),
        "99999999999999999999999999".to_string(),
    );
    let response = HttpResponse::new(
        200,
        "OK".to_string(),
        headers,
        vec![],
        Duration::from_millis(1),
        "https://example.com".to_string(),
    );
    assert_eq!(response.content_length(), None);
}

#[test]
fn test_text_helpers() {
    assert!(text::contains_str("haystack", "sta"));
    assert!(!text::contains_str("haystack", "stacks"));
    assert_eq!(text::dec_string(0), "0");
    assert_eq!(text::dec_string(90107), "90107");
    assert_eq!(text::parse_usize("123"), Some(123));
    assert_eq!(text::parse_usize(""), None);
    assert_eq!(text::parse_usize("12a"), None);
    assert_eq!(text::ascii_lowercase("MiXeD-09"), "mixed-09");
    assert_eq!(text::ascii_uppercase("MiXeD-09"), "MIXED-09");
    assert!(text::str_eq_ignore_case("Content-TYPE", "content-type"));
    assert!(!text::str_eq_ignore_case("a", "b"));
    assert_eq!(text::replace_all("aaa", "aa", "b"), "ba");
    assert_eq!(text::replace_all("x{{k}}y{{k}}", "{{k}}", "v"), "xvyv");
}

#[test]
fn test_history_preview_short_text() {
    let response = HttpResponse::new(
        200,
        "OK".to_string(),
        StringMap::new(),
        b"short body".to_vec(),
        Duration::from_millis(1),
        "https://example.com".to_string(),
    );
    let snap = HistoryResponse::from_response(&response);
    assert_eq!(snap.status, 200);
    assert_eq!(snap.body_preview, "short body");
}

#[test]
fn test_history_preview_truncates_long_text() {
    let long = "a".repeat(600);
    let response = HttpResponse::new(
        200,
        "OK".to_string(),
        StringMap::new(),
        long.into_bytes(),
        Duration::from_millis(1),
        "https://example.com".to_string(),
    );
    let snap = HistoryResponse::from_response(&response);
    let expected = format!("{}...", "a".repeat(500));
    assert_eq!(snap.body_preview, expected);
}

#[test]
fn test_history_preview_binary_body() {
    let response = HttpResponse::new(
        200,
        "OK".to_string(),
        StringMap::new(),
        vec![0xFF, 0xFE, 0xFD],
        Duration::from_millis(1),
        "https://example.com".to_string(),
    );
    let snap = HistoryResponse::from_response(&response);
    assert_eq!(snap.body_preview, "<binary data, 3 bytes>");
}

#[test]
fn test_http_error_io_message_prefix() {
    let io_error = std::io::Error::new(std::io::ErrorKind::Other, "disk gone");
    let error = HttpError::IoError(io_error);
    assert!(error.message().starts_with("IO error: "));
}

#[test]
fn test_import_error_messages() {
    assert_eq!(
        ImportError::InvalidFormat("bad".to_string()).message(),
        "Invalid format: bad"
    );
    assert_eq!(
        ImportError::UnsupportedVersion("v9".to_string()).message(),
        "Unsupported version: v9"
    );
    assert_eq!(
        ImportError::ParseError("oops".to_string()).message(),
        "Parse error: oops"
    );
    assert_eq!(
        ImportError::MissingField("_id".to_string()).message(),
        "Missing required field: _id"
    );
}

#[test]
fn test_auto_import_unknown_format() {
    let result = auto_import("{}");
    match result {
        Err(ImportError::InvalidFormat(m)) => {
            assert_eq!(m, "Unknown format. Supported: Insomnia v4");
        }
        _ => panic!("Expected InvalidFormat"),
    }
}

#[test]
fn test_auto_import_insomnia_document() {
    let content = r#"{
        "__export_format": 4,
        "resources": [
            {"_id": "wrk_1", "name": "My Workspace", "_type": "workspace",
             "description": "main"},
            {"_id": "req_1", "name": "List Users", "_type": "request",
             "parentId": "wrk_1", "method": "GET",
             "url": "https://api.example.com/users",
             "headers": [{"name": "Accept", "value": "application/json"}],
             "body": {"text": "ignored for GET"}},
            {"_id": "req_2", "name": "Elsewhere", "_type": "request",
             "parentId": "other", "method": "POST", "url": "https://x"},
            {"_id": "env_1", "name": "Base", "_type": "environment",
             "data": {"host": "example.com", "port": 8080}}
        ]
    }"#;

    let collections = auto_import(content).unwrap();
    assert_eq!(collections.len(), 1);
    let col = &collections[0];
    assert_eq!(col.name, "My Workspace");
    assert_eq!(col.description, Some("main".to_string()));
    assert_eq!(col.requests.len(), 1);
    let req = &col.requests[0];
    assert_eq!(req.id, "req_1");
    assert_eq!(req.name, "List Users");
    assert_eq!(req.method, "GET");
    assert_eq!(req.url, "https://api.example.com/users");
    assert_eq!(
        req.headers,
        vec![("Accept".to_string(), "application/json".to_string())]
    );
    assert_eq!(req.body, Some("ignored for GET".to_string()));
}

#[test]
fn test_auto_import_rejects_other_versions() {
    let content = r#"{"__export_format": 5, "resources": []}"#;
    match auto_import(content) {
        Err(ImportError::UnsupportedVersion(m)) => {
            assert_eq!(m, "Insomnia v5 (only v4 supported)");
        }
        _ => panic!("Expected UnsupportedVersion"),
    }
}

#[test]
fn test_auto_import_missing_field() {
    let content = r#"{"__export_format": 4, "resources": [{"name": "x", "_type": "request"}]}"#;
    match auto_import(content) {
        Err(ImportError::MissingField(m)) => assert_eq!(m, "_id"),
        _ => panic!("Expected MissingField"),
    }
}

#[test]
fn test_serializable_method_fallback() {
    let stored = SerializableRequest {
        method: "delete".to_string(),
        url: "https://example.com".to_string(),
        headers: vec![],
        body: None,
        timeout_seconds: None,
    };
    let request = stored.to_http_request();
    assert_eq!(request.method, HttpMethod::Delete);
    assert_eq!(request.timeout_seconds, Some(30));

    let odd = SerializableRequest {
        method: "bogus".to_string(),
        url: "https://example.com".to_string(),
        headers: vec![],
        body: None,
        timeout_seconds: Some(5),
    };
    let request = odd.to_http_request();
    assert_eq!(request.method, HttpMethod::Get);
    assert_eq!(request.timeout_seconds, Some(5));
}

#[test]
fn test_environment_template_through_values() {
    let mut env = Environment::new("stage");
    env.set("greeting", "hi there");
    assert_eq!(env.resolve_template("say: {{greeting}}!"), "say: hi there!");
}

#[test]
fn test_token_stream_default_and_into_tokens() {
    let empty = TokenStream::default();
    assert_eq!(empty.current().kind, TokenKind::EndOfFile);

    let tokens = vec![
        Token::new(TokenKind::Null, "null".to_string(), 1, 5, Span(0, 4)),
        Token::new(TokenKind::EndOfFile, "\0".to_string(), 1, 5, Span(0, 4)),
    ];
    let stream = TokenStream::new(tokens);
    let back: Vec<Token> = stream.into();
    assert_eq!(back.len(), 2);
    assert_eq!(back[0].lexeme, "null");
}

#[test]
fn test_json_element_clone() {
    let tree = Json::parse(r#"{"a":[1,true],"b":"x"}"#).unwrap().root;
    let copy = tree.clone();
    assert_eq!(copy, tree);
}

#[test]
fn test_sanitize_filename() {
    assert_eq!(text::sanitize_filename("plain-name"), "plain-name");
    assert_eq!(text::sanitize_filename("a/b\\c:d*e?f\"g<h>i|j"), "a_b_c_d_e_f_g_h_i_j");
}

#[test]
fn test_classify_transport_error() {
    assert!(matches!(
        classify_transport_error("connection timed out".to_string()),
        HttpError::Timeout
    ));
    match classify_transport_error("bad certificate chain".to_string()) {
        HttpError::TlsError(m) => assert_eq!(m, "bad certificate chain"),
        _ => panic!("Expected TlsError"),
    }
    match classify_transport_error("connection refused".to_string()) {
        HttpError::NetworkError(m) => assert_eq!(m, "connection refused"),
        _ => panic!("Expected NetworkError"),
    }
}

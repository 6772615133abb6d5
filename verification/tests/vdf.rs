use zegra::vdf::{parse, VdfError, VdfValue};

#[test]
fn parses_simple_flat_object() {
    let src = r#"
            "AppState"
            {
                "appid"     "440"
                "name"      "Team Fortress 2"
                "installdir"        "Team Fortress 2"
            }
        "#;
    let root = parse(src).unwrap();
    let app_state = root.get("AppState").unwrap();
    let flat = app_state.flat_strings();
    assert_eq!(flat.get("appid").unwrap(), "440");
    assert_eq!(flat.get("name").unwrap(), "Team Fortress 2");
    assert_eq!(flat.get("installdir").unwrap(), "Team Fortress 2");
}

#[test]
fn parses_nested_library_folders() {
    let src = r#"
            "libraryfolders"
            {
                "0"
                {
                    "path"        "/home/user/.steam/steam"
                    "label"       ""
                    "apps"
                    {
                        "440"        "123456789"
                        "730"        "987654321"
                    }
                }
                "1"
                {
                    "path"        "/mnt/games/SteamLibrary"
                    "apps"
                    {
                        "570"       "555"
                    }
                }
            }
        "#;
    let root = parse(src).unwrap();
    let folders = root.get("libraryfolders").unwrap().as_obj().unwrap();
    assert_eq!(folders.len(), 2);
    let (_, first) = &folders[0];
    assert_eq!(first.get("path").unwrap().as_str().unwrap(), "/home/user/.steam/steam");
    let apps = first.get("apps").unwrap().as_obj().unwrap();
    assert_eq!(apps.len(), 2);
}

#[test]
fn handles_comments_and_case_insensitive_keys() {
    let src = r#"
            // this is a comment
            "AppState"
            {
                "AppID" "440" // trailing comment
            }
        "#;
    let root = parse(src).unwrap();
    let app_state = root.get("appstate").unwrap();
    assert_eq!(app_state.get("appid").unwrap().as_str().unwrap(), "440");
}

#[test]
fn handles_escaped_quotes() {
    let src = r#"
            "name" "Some \"Quoted\" Game"
        "#;
    let root = parse(src).unwrap();
    assert_eq!(root.get("name").unwrap().as_str().unwrap(), "Some \"Quoted\" Game");
}

#[test]
fn empty_document_is_an_empty_object() {
    let root = parse("").unwrap();
    assert_eq!(root, VdfValue::Obj(vec![]));
    let root = parse("   // only a comment").unwrap();
    assert_eq!(root, VdfValue::Obj(vec![]));
}

#[test]
fn barewords_are_read_up_to_whitespace_or_braces() {
    let root = parse("key{}").unwrap();
    assert_eq!(root.get("key").unwrap().as_str(), None);
    assert_eq!(root.get("key").unwrap().as_obj().unwrap().len(), 0);
    assert_eq!(parse("key value{"), Err(VdfError::UnexpectedToken(9)));
    let root = parse("a b c d").unwrap();
    assert_eq!(
        root,
        VdfValue::Obj(vec![
            ("a".to_string(), VdfValue::Str("b".to_string())),
            ("c".to_string(), VdfValue::Str("d".to_string())),
        ])
    );
}

#[test]
fn escapes_take_the_next_character_verbatim() {
    let root = parse(r#""k" "a\\b\nc""#).unwrap();
    assert_eq!(root.get("k").unwrap().as_str().unwrap(), "a\\bnc");
}

#[test]
fn unterminated_string_is_unexpected_eof() {
    assert_eq!(parse(r#""key" "value"#), Err(VdfError::UnexpectedEof));
    assert_eq!(parse(r#""key" "value\"#), Err(VdfError::UnexpectedEof));
}

#[test]
fn key_without_value_is_unexpected_eof() {
    assert_eq!(parse(r#""key""#), Err(VdfError::UnexpectedEof));
    assert_eq!(parse(r#""outer" { "key" }"#), Err(VdfError::UnexpectedEof));
}

#[test]
fn brace_in_key_position_is_an_unexpected_token() {
    assert_eq!(parse("{ }"), Err(VdfError::UnexpectedToken(0)));
}

#[test]
fn stray_closing_brace_ends_the_document() {
    let root = parse(r#""a" "1" } "b" "2""#).unwrap();
    assert_eq!(root.as_obj().unwrap().len(), 1);
    assert!(root.get("b").is_none());
}

#[test]
fn unclosed_object_runs_to_the_end_of_input() {
    let root = parse(r#""outer" { "k" "v""#).unwrap();
    assert_eq!(root.get("outer").unwrap().get("k").unwrap().as_str().unwrap(), "v");
}

#[test]
fn get_returns_the_first_matching_child() {
    let root = parse(r#""Name" "first" "NAME" "second""#).unwrap();
    assert_eq!(root.get("name").unwrap().as_str().unwrap(), "first");
}

#[test]
fn flat_strings_keeps_the_last_value_and_skips_objects() {
    let root = parse(r#""a" "1" "b" { "x" "y" } "a" "2""#).unwrap();
    let flat = root.flat_strings();
    assert_eq!(flat.len(), 1);
    assert_eq!(flat.get("a").unwrap(), "2");
    assert!(flat.get("b").is_none());
    assert!(flat.get("A").is_none());
}

#[test]
fn string_nodes_have_no_children() {
    let v = VdfValue::Str("x".to_string());
    assert!(v.get("x").is_none());
    assert!(v.as_obj().is_none());
    assert_eq!(v.flat_strings().len(), 0);
}

#[test]
fn error_messages_match_their_variants() {
    assert_eq!(VdfError::UnexpectedEof.message(), "unexpected end of input while parsing VDF");
    assert_eq!(VdfError::UnexpectedToken(17).message(), "unexpected token at byte offset 17");
}

#[test]
fn comment_marker_needs_two_slashes() {
    let root = parse("/a b").unwrap();
    assert_eq!(root.get("/a").unwrap().as_str().unwrap(), "b");
    let root = parse("a b//c\ne f").unwrap();
    assert_eq!(root.get("b//c"), None);
    assert_eq!(root.get("a").unwrap().as_str().unwrap(), "b//c");
}

#[test]
fn clones_are_equal() {
    let root = parse(r#""a" { "b" "c" } "d" "e""#).unwrap();
    assert_eq!(root.clone(), root);
}

#[test]
fn leading_whitespace_and_comment_lines_do_not_change_a_document() {
    let body = r#""AppState" { "appid" "440" }"#;
    let prefixed = format!("  // generated\n\t// another\n{body}");
    assert_eq!(parse(&prefixed), parse(body));
}

#[test]
fn keys_differing_only_in_ascii_case_find_the_same_child() {
    let root = parse(r#""LibraryFolders" { "0" { "path" "/a" } }"#).unwrap();
    assert_eq!(root.get("libraryfolders"), root.get("LIBRARYFOLDERS"));
    assert!(root.get("libraryfolders").is_some());
    // Only ASCII letters are folded.
    let root = parse("\"Ä\" \"x\"").unwrap();
    assert!(root.get("ä").is_none());
}

#[test]
fn unexpected_token_offsets_count_bytes() {
    assert_eq!(parse(r#""a" "b" {"#), Err(VdfError::UnexpectedToken(8)));
    assert_eq!(parse("\"\u{e9}\" \"b\" {"), Err(VdfError::UnexpectedToken(9)));
    assert_eq!(parse(r#""o" { "k" "v" { } }"#), Err(VdfError::UnexpectedToken(14)));
    // A leading comment shifts the offset by its length in bytes.
    assert_eq!(parse("// c\n\"a\" \"b\" {"), Err(VdfError::UnexpectedToken(13)));
}

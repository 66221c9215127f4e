use sharelink::ato::api::{get_language, Language, Registry};
use sharelink::ato::link::{LinkSchema, LinkState};
use sharelink::ato::state::{args_of_items, parse_arg_list, Encoding, ParseError, State};
use sharelink::json::JsonItem;

fn language_named(name: &str, sbcs: bool) -> Language {
    Language {
        name: name.into(),
        image: format!("attemptthisonline/{name}"),
        version: "1".into(),
        url: format!("https://example.org/{name}"),
        sbcs,
        se_class: Some(name.into()),
    }
}

fn two_languages() -> Registry {
    let mut registry = Registry::new();
    registry.insert("python".into(), language_named("Python", false));
    registry.insert("jelly".into(), language_named("Jelly", true));
    registry
}

#[test]
fn an_argument_list_is_a_json_array_of_scalars() {
    assert_eq!(parse_arg_list("[\"--\", \"-6\"]").unwrap(), vec!["--", "-6"]);
    assert_eq!(parse_arg_list("[]").unwrap(), Vec::<String>::new());
    assert_eq!(parse_arg_list("").unwrap(), Vec::<String>::new());
    assert_eq!(
        parse_arg_list("[\"a b\", 1, -2.5, true, false, null, \"\\u2603\\n\"]").unwrap(),
        vec!["a b", "1", "-2.5", "true", "false", "null", "\u{2603}\n"]
    );
}

#[test]
fn an_object_or_an_array_is_no_argument() {
    match parse_arg_list("[{\"a\":1}]") {
        Err(ParseError::ObjectArg(value)) => assert_eq!(value, "{\"a\":1}"),
        other => panic!("{other:?}"),
    }
    match parse_arg_list("[\"x\", [1, 2], {\"a\": 1}]") {
        Err(ParseError::ObjectArg(value)) => assert_eq!(value, "[1,2]"),
        other => panic!("{other:?}"),
    }
}

#[test]
fn a_text_that_is_no_json_array_is_rejected() {
    for text in ["[", "\"--\"", "{\"a\":1}", "1", "[1,]", "[1] x", " "] {
        assert!(matches!(parse_arg_list(text), Err(ParseError::InvalidJson(_))), "{text:?}");
    }
}

#[test]
fn the_elements_of_an_array_become_arguments_one_by_one() {
    let items = vec![
        JsonItem::Text("--".into()),
        JsonItem::Number("-6".into()),
        JsonItem::Bool(true),
        JsonItem::Bool(false),
        JsonItem::Null,
    ];
    assert_eq!(args_of_items(&items).unwrap(), vec!["--", "-6", "true", "false", "null"]);
    let items = vec![
        JsonItem::Text("--".into()),
        JsonItem::Composite("[1]".into()),
        JsonItem::Composite("{}".into()),
    ];
    match args_of_items(&items) {
        Err(ParseError::ObjectArg(value)) => assert_eq!(value, "[1]"),
        other => panic!("{other:?}"),
    }
    assert_eq!(args_of_items(&vec![]).unwrap(), Vec::<String>::new());
}

#[test]
fn each_tag_names_its_encoding() {
    assert_eq!(Encoding::try_from("utf-8".to_string()).unwrap(), Encoding::Utf8);
    assert_eq!(Encoding::try_from("".to_string()).unwrap(), Encoding::Utf8);
    assert_eq!(Encoding::try_from("sbcs".to_string()).unwrap(), Encoding::Sbcs);
    assert_eq!(Encoding::try_from("base64".to_string()).unwrap(), Encoding::Base64);
    assert_eq!(Encoding::default(), Encoding::Utf8);
    for tag in ["latin-1", "UTF-8", "utf8", "base64 ", "sbc"] {
        match Encoding::try_from(tag.to_string()) {
            Err(ParseError::InvalidEncoding(t)) => assert_eq!(t, tag),
            other => panic!("{other:?}"),
        }
    }
}

#[test]
fn the_registry_gives_the_last_language_registered() {
    let mut registry = two_languages();
    assert_eq!(get_language(&registry, "python"), Some(&language_named("Python", false)));
    assert_eq!(get_language(&registry, "jelly"), Some(&language_named("Jelly", true)));
    assert_eq!(get_language(&registry, "Python"), None);
    assert_eq!(get_language(&registry, ""), None);
    assert_eq!(get_language(&Registry::new(), "python"), None);
    registry.insert("python".into(), language_named("Python 3", false));
    assert_eq!(get_language(&registry, "python"), Some(&language_named("Python 3", false)));
    assert_eq!(get_language(&registry, "jelly"), Some(&language_named("Jelly", true)));
}

fn jelly_link_state() -> LinkState {
    LinkState {
        schema: LinkSchema::V1,
        language: "jelly".into(),
        options: "[\"-x\"]".into(),
        header: "h".into(),
        header_encoding: "utf-8".into(),
        code: "c".into(),
        code_encoding: "sbcs".into(),
        footer: "f".into(),
        footer_encoding: "".into(),
        program_arguments: "[\"Hello World\", 2]".into(),
        input: "aQ==".into(),
        input_encoding: "base64".into(),
    }
}

#[test]
fn a_link_state_resolves_to_its_meaning() {
    let registry = two_languages();
    let jelly = language_named("Jelly", true);
    let state = jelly_link_state().parse(&registry).unwrap();
    assert_eq!(
        state,
        State {
            language: Some(&jelly),
            options: vec!["-x".into()],
            header: "h".into(),
            header_encoding: Encoding::Utf8,
            code: "c".into(),
            code_encoding: Encoding::Sbcs,
            footer: "f".into(),
            footer_encoding: Encoding::Utf8,
            program_arguments: vec!["Hello World".into(), "2".into()],
            input: "aQ==".into(),
            input_encoding: Encoding::Base64,
        }
    );
}

#[test]
fn a_state_without_language_has_none() {
    let registry = Registry::new();
    let state = LinkState::new().parse(&registry).unwrap();
    assert_eq!(state, State::default());
    assert_eq!(state.language, None);
    assert_eq!(state.input_encoding, Encoding::Utf8);
}

#[test]
fn the_first_field_without_meaning_decides() {
    let registry = two_languages();
    let mut state = jelly_link_state();
    state.language = "cobol".into();
    state.options = "[".into();
    match state.parse(&registry) {
        Err(ParseError::InvalidLanguage(l)) => assert_eq!(l, "cobol"),
        other => panic!("{other:?}"),
    }
    let mut state = jelly_link_state();
    state.options = "[".into();
    state.header_encoding = "latin-1".into();
    assert!(matches!(state.parse(&registry), Err(ParseError::InvalidJson(_))));
    let mut state = jelly_link_state();
    state.header_encoding = "h".into();
    state.code_encoding = "c".into();
    match state.parse(&registry) {
        Err(ParseError::InvalidEncoding(t)) => assert_eq!(t, "h"),
        other => panic!("{other:?}"),
    }
    let mut state = jelly_link_state();
    state.code_encoding = "c".into();
    state.footer_encoding = "f".into();
    match state.parse(&registry) {
        Err(ParseError::InvalidEncoding(t)) => assert_eq!(t, "c"),
        other => panic!("{other:?}"),
    }
    let mut state = jelly_link_state();
    state.footer_encoding = "f".into();
    state.program_arguments = "[[]]".into();
    match state.parse(&registry) {
        Err(ParseError::InvalidEncoding(t)) => assert_eq!(t, "f"),
        other => panic!("{other:?}"),
    }
    let mut state = jelly_link_state();
    state.program_arguments = "[[]]".into();
    state.input_encoding = "i".into();
    match state.parse(&registry) {
        Err(ParseError::ObjectArg(v)) => assert_eq!(v, "[]"),
        other => panic!("{other:?}"),
    }
    let mut state = jelly_link_state();
    state.input_encoding = "i".into();
    match state.parse(&registry) {
        Err(ParseError::InvalidEncoding(t)) => assert_eq!(t, "i"),
        other => panic!("{other:?}"),
    }
}

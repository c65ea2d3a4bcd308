use lectic::error::ParseError;
use lectic::parse::{get_body, get_header, normalize, parse};
use lectic::types::{LecticBlock, LecticData, Message, Role};

fn named(name: &str, content: &str) -> LecticBlock {
    LecticBlock::InterlocBlock { name: name.to_string(), content: content.to_string() }
}

fn plain(content: &str) -> LecticBlock {
    LecticBlock::UserBlock { content: content.to_string() }
}

const HEADER: &str = "---\ninterlocutor:\n  name: Bob\n  prompt: Be terse.\n---\n";

#[test]
fn parses_a_header_and_two_turns() {
    let text = "---\ninterlocutor:\n  name: Bob\n  prompt: Be terse.\n---\nHello\n:::Bob\nHi there\n:::\n";
    let data = parse(text).unwrap();
    assert_eq!(data.header.interlocutor.name, "Bob");
    assert_eq!(data.header.interlocutor.prompt, "Be terse.");
    assert_eq!(data.header.interlocutor.temperature, None);
    assert_eq!(data.header.interlocutor.token_limit, None);
    assert_eq!(data.body, vec![plain("Hello\n"), named("Bob", "Hi there\n")]);
    let messages = LecticData::as_chat(&data.body);
    assert_eq!(
        messages,
        vec![
            Message { role: Role::User, content: "Hello\n".to_string() },
            Message { role: Role::Assistant, content: "Hi there\n".to_string() },
        ]
    );
}

#[test]
fn text_without_a_leading_marker_line_has_no_header() {
    assert_eq!(parse("Hello\n:::Bob\nHi\n:::\n"), Err(ParseError::MissingHeader));
    assert_eq!(parse(""), Err(ParseError::MissingHeader));
    assert_eq!(parse("--- \ninterlocutor:\n  name: Bob\n  prompt: x\n---\n"), Err(ParseError::MissingHeader));
    assert_eq!(parse("\n---\ninterlocutor:\n  name: Bob\n  prompt: x\n---\n"), Err(ParseError::MissingHeader));
}

#[test]
fn header_without_a_closing_marker_line_is_missing() {
    assert_eq!(parse("---\ninterlocutor:\n  name: Bob\n  prompt: x\n"), Err(ParseError::MissingHeader));
    assert_eq!(parse("---"), Err(ParseError::MissingHeader));
    assert_eq!(parse("---\n--- \n"), Err(ParseError::MissingHeader));
    assert_eq!(parse("---\nname: x ---\n"), Err(ParseError::MissingHeader));
}

#[test]
fn whitespace_body_gives_no_messages() {
    let text = format!("{}  \n\t\n \n", HEADER);
    let data = parse(&text).unwrap();
    assert!(data.body.is_empty());
    assert!(LecticData::as_chat(&data.body).is_empty());
}

#[test]
fn empty_body_gives_no_blocks() {
    let data = parse(HEADER).unwrap();
    assert!(data.body.is_empty());
    let text = "---\ninterlocutor:\n  name: Bob\n  prompt: Be terse.\n---";
    let data = parse(text).unwrap();
    assert!(data.body.is_empty());
}

#[test]
fn unterminated_named_segment_is_refused() {
    let fault = ParseError::MalformedSegment {
        context: "named segment without a closing marker".to_string(),
    };
    assert_eq!(parse(&format!("{}Hello\n:::Bob\nHi there\n", HEADER)), Err(fault.clone()));
    assert_eq!(get_body(":::Bob\nHi there"), Err(fault.clone()));
    assert_eq!(get_body(":::Bob"), Err(fault.clone()));
    assert_eq!(get_body(":::Bob\n::"), Err(fault.clone()));
    assert_eq!(get_body("a:::Bob\nb:::c:::Bob\nd"), Err(fault.clone()));
}

#[test]
fn opening_marker_without_a_name_is_refused() {
    let fault = ParseError::MalformedSegment {
        context: "opening marker without a name".to_string(),
    };
    assert_eq!(get_body(":::\nHi there\n:::"), Err(fault.clone()));
    assert_eq!(get_body(":::"), Err(fault.clone()));
    assert_eq!(get_body("::::::"), Err(fault.clone()));
    assert_eq!(get_body("Hello:::  \nHi:::"), Err(fault.clone()));
    assert_eq!(get_body("::: \u{a0}\t\nHi:::"), Err(fault.clone()));
    assert_eq!(parse(&format!("{}:::\nHi\n:::", HEADER)), Err(fault.clone()));
}

#[test]
fn header_comes_back_with_the_rest_of_the_text() {
    let text = "---\ninterlocutor:\n  name: Bob\n  prompt: Be terse.\n  temperature: 51\n  token_limit: 1024\n---\nrest\n---\n";
    let (header, rest) = get_header(text).unwrap();
    assert_eq!(header.interlocutor.name, "Bob");
    assert_eq!(header.interlocutor.prompt, "Be terse.");
    assert_eq!(header.interlocutor.temperature, Some(51));
    assert_eq!(header.interlocutor.token_limit, Some(1024));
    assert_eq!(rest, "rest\n---\n");
}

#[test]
fn header_interior_may_hold_hyphens() {
    let text = "---\ninterlocutor:\n  name: Anne-Marie\n  prompt: \"--- be brief ---\"\n---\nHi";
    let (header, rest) = get_header(text).unwrap();
    assert_eq!(header.interlocutor.name, "Anne-Marie");
    assert_eq!(header.interlocutor.prompt, "--- be brief ---");
    assert_eq!(rest, "Hi");
}

#[test]
fn body_keeps_the_order_of_the_text() {
    let blocks = get_body("one\n:::A\ntwo\n:::\nthree\n::::B::::\n\nfour:::::five").unwrap();
    assert_eq!(
        blocks,
        vec![
            plain("one\n"),
            named("A", "two\n"),
            plain("\nthree\n"),
            named("B", "four"),
            plain("five"),
        ]
    );
}

#[test]
fn segmenter_keeps_blank_segments_and_normalizer_drops_them() {
    let blocks = get_body(" \n:::A\n  \n:::\n:::B\nhi:::\n").unwrap();
    assert_eq!(
        blocks,
        vec![plain(" \n"), named("A", ""), plain("\n"), named("B", "hi"), plain("\n")]
    );
    assert_eq!(normalize(blocks), vec![named("B", "hi")]);
}

#[test]
fn names_are_trimmed_and_may_hold_spaces() {
    let blocks = get_body("::: Dr. Bob \t:::\nHi:::").unwrap();
    assert_eq!(blocks, vec![named("Dr. Bob", "Hi")]);
    let blocks = get_body(":::\u{2003}Bob\u{a0}\nHi:::").unwrap();
    assert_eq!(blocks, vec![named("Bob", "Hi")]);
}

#[test]
fn content_is_never_altered() {
    let blocks = get_body(":::Bob\n\u{a0} é: ::x \r\n:::").unwrap();
    assert_eq!(blocks, vec![named("Bob", "\u{a0} é: ::x \r\n")]);
    let blocks = get_body("a::b:c::").unwrap();
    assert_eq!(blocks, vec![plain("a::b:c::")]);
}

#[test]
fn normalizer_drops_unicode_whitespace() {
    let blocks = vec![plain("\u{a0}\u{2003}\u{3000}\n"), plain("x"), named("B", "\u{2028}"), plain("")];
    assert_eq!(normalize(blocks), vec![plain("x")]);
}

#[test]
fn normalizer_keeps_what_is_not_whitespace() {
    let blocks = vec![plain("\u{200b}"), named("B", " . ")];
    assert_eq!(normalize(blocks.clone()), blocks);
}

use lectic::error::ParseError;
use lectic::header::HeaderField;
use lectic::parse::{get_header, parse};
use lectic::types::Interlocutor;

fn refused(reason: &str) -> ParseError {
    ParseError::HeaderDecodeError { reason: reason.to_string() }
}

fn text(s: &str) -> HeaderField {
    HeaderField::Text(s.to_string())
}

fn header_error(interior: &str) -> ParseError {
    get_header(&format!("---\n{}---\n", interior)).unwrap_err()
}

#[test]
fn fields_make_a_persona() {
    let persona = Interlocutor::from_fields(
        text("Bob"),
        text(""),
        HeaderField::Unsigned(255),
        HeaderField::Unsigned(4294967295),
    );
    assert_eq!(
        persona,
        Ok(Interlocutor {
            name: "Bob".to_string(),
            prompt: "".to_string(),
            temperature: Some(255),
            token_limit: Some(4294967295),
        })
    );
    let persona =
        Interlocutor::from_fields(text("Bob"), text("p"), HeaderField::Missing, HeaderField::Null);
    assert_eq!(
        persona,
        Ok(Interlocutor {
            name: "Bob".to_string(),
            prompt: "p".to_string(),
            temperature: None,
            token_limit: None,
        })
    );
}

#[test]
fn fields_at_fault_are_named_in_order() {
    let m = || HeaderField::Missing;
    assert_eq!(
        Interlocutor::from_fields(m(), m(), HeaderField::Other, HeaderField::Other),
        Err(refused("missing field `name`"))
    );
    assert_eq!(
        Interlocutor::from_fields(HeaderField::Unsigned(3), m(), m(), m()),
        Err(refused("field `name` is not a string"))
    );
    assert_eq!(
        Interlocutor::from_fields(HeaderField::Null, m(), m(), m()),
        Err(refused("field `name` is not a string"))
    );
    assert_eq!(
        Interlocutor::from_fields(text(""), m(), m(), m()),
        Err(refused("field `name` is empty"))
    );
    assert_eq!(
        Interlocutor::from_fields(text("Bob"), m(), HeaderField::Other, m()),
        Err(refused("missing field `prompt`"))
    );
    assert_eq!(
        Interlocutor::from_fields(text("Bob"), HeaderField::Other, m(), m()),
        Err(refused("field `prompt` is not a string"))
    );
    assert_eq!(
        Interlocutor::from_fields(text("Bob"), text("p"), HeaderField::Unsigned(256), m()),
        Err(refused("field `temperature` is not an integer from 0 to 255"))
    );
    assert_eq!(
        Interlocutor::from_fields(text("Bob"), text("p"), text("1"), HeaderField::Other),
        Err(refused("field `temperature` is not an integer from 0 to 255"))
    );
    assert_eq!(
        Interlocutor::from_fields(text("Bob"), text("p"), m(), HeaderField::Unsigned(4294967296)),
        Err(refused("field `token_limit` is not an integer from 0 to 4294967295"))
    );
    assert_eq!(
        Interlocutor::from_fields(text("Bob"), text("p"), m(), HeaderField::Other),
        Err(refused("field `token_limit` is not an integer from 0 to 4294967295"))
    );
}

#[test]
fn header_must_hold_an_interlocutor() {
    assert_eq!(header_error(""), refused("missing field `interlocutor`"));
    assert_eq!(header_error("name: Bob\nprompt: p\n"), refused("missing field `interlocutor`"));
    assert_eq!(header_error("- interlocutor\n"), refused("missing field `interlocutor`"));
    assert_eq!(header_error("interlocutor: Bob\n"), refused("missing field `name`"));
    assert_eq!(header_error("interlocutor:\n  prompt: p\n"), refused("missing field `name`"));
    assert_eq!(header_error("interlocutor:\n  name: Bob\n"), refused("missing field `prompt`"));
}

#[test]
fn header_fields_must_have_their_types() {
    assert_eq!(
        header_error("interlocutor:\n  name: 12\n  prompt: p\n"),
        refused("field `name` is not a string")
    );
    assert_eq!(
        header_error("interlocutor:\n  name: \"\"\n  prompt: p\n"),
        refused("field `name` is empty")
    );
    assert_eq!(
        header_error("interlocutor:\n  name: Bob\n  prompt: [a, b]\n"),
        refused("field `prompt` is not a string")
    );
    assert_eq!(
        header_error("interlocutor:\n  name: Bob\n  prompt: p\n  temperature: 256\n"),
        refused("field `temperature` is not an integer from 0 to 255")
    );
    assert_eq!(
        header_error("interlocutor:\n  name: Bob\n  prompt: p\n  temperature: -1\n"),
        refused("field `temperature` is not an integer from 0 to 255")
    );
    assert_eq!(
        header_error("interlocutor:\n  name: Bob\n  prompt: p\n  temperature: 0.5\n"),
        refused("field `temperature` is not an integer from 0 to 255")
    );
    assert_eq!(
        header_error("interlocutor:\n  name: Bob\n  prompt: p\n  token_limit: 4294967296\n"),
        refused("field `token_limit` is not an integer from 0 to 4294967295")
    );
    assert_eq!(
        header_error("interlocutor:\n  name: Bob\n  prompt: p\n  token_limit: many\n"),
        refused("field `token_limit` is not an integer from 0 to 4294967295")
    );
}

#[test]
fn optional_fields_may_be_null_and_other_keys_are_passed_over() {
    let text = "---\nversion: 3\ninterlocutor:\n  name: Bob\n  prompt: p\n  temperature: ~\n  token_limit:\n  mood: sunny\n---\n";
    let (header, rest) = get_header(text).unwrap();
    assert_eq!(header.interlocutor.temperature, None);
    assert_eq!(header.interlocutor.token_limit, None);
    assert_eq!(rest, "");
}

#[test]
fn tagged_values_are_read_through_their_tags() {
    let text = "---\ninterlocutor: !persona\n  name: !short Bob\n  prompt: p\n  temperature: !t 7\n---\n";
    let (header, _) = get_header(text).unwrap();
    assert_eq!(header.interlocutor.name, "Bob");
    assert_eq!(header.interlocutor.temperature, Some(7));
}

#[test]
fn broken_yaml_is_reported_with_the_reader_s_message() {
    let interior = "interlocutor: [unclosed\n";
    let expected = serde_yaml::from_str::<serde_yaml::Value>(interior).unwrap_err().to_string();
    assert!(!expected.is_empty());
    assert_eq!(header_error(interior), refused(&expected));
    let again = interior.to_string();
    assert_eq!(header_error(&again), refused(&expected));
}

#[test]
fn header_error_comes_before_body_error() {
    assert_eq!(
        parse("---\ninterlocutor:\n  name: Bob\n---\n:::\n"),
        Err(refused("missing field `prompt`"))
    );
}

#[test]
fn errors_read_as_sentences() {
    assert_eq!(ParseError::MissingHeader.message(), "couldn't locate the header");
    assert_eq!(
        refused("missing field `name`").message(),
        "couldn't decode the header: missing field `name`"
    );
    assert_eq!(
        ParseError::MalformedSegment { context: "opening marker without a name".to_string() }
            .message(),
        "couldn't read the body: opening marker without a name"
    );
}

use lectic::parse::parse;
use lectic::types::{
    Interlocutor, LecticBlock, LecticData, LecticHeader, Message, Role, Temperature,
};

fn data(temperature: Option<u8>, token_limit: Option<u32>) -> LecticData {
    LecticData {
        header: LecticHeader {
            interlocutor: Interlocutor {
                name: "Bob".to_string(),
                prompt: "Be terse.".to_string(),
                temperature,
                token_limit,
            },
        },
        body: Vec::new(),
    }
}

fn as_float(t: Temperature) -> f32 {
    t.numerator as f32 / t.denominator as f32
}

#[test]
fn prompt_follows_the_template() {
    assert_eq!(
        data(None, None).get_prompt(),
        "Your name is Bob.\nBe terse.\n\nYou should use unicode symbols instead of LaTeX for mathematical notation.\n\nYou must line wrap at approximately 78 characters unless this harms readability.\n"
    );
}

#[test]
fn temperature_defaults_to_seven_tenths() {
    let t = data(None, Some(7)).get_temp();
    assert_eq!(t, Temperature { numerator: 7, denominator: 10 });
    assert_eq!(as_float(t), 0.7);
}

#[test]
fn temperature_is_the_header_value_out_of_255() {
    assert_eq!(data(Some(0), None).get_temp(), Temperature { numerator: 0, denominator: 255 });
    assert_eq!(data(Some(51), None).get_temp(), Temperature { numerator: 51, denominator: 255 });
    assert_eq!(as_float(data(Some(51), None).get_temp()), 0.2);
    assert_eq!(as_float(data(Some(255), None).get_temp()), 1.0);
}

#[test]
fn temperature_lies_in_the_unit_interval_for_every_header_value() {
    for value in 0..=255u8 {
        let t = data(Some(value), None).get_temp();
        assert_eq!(t.denominator, 255);
        assert_eq!(t.numerator, value);
        let f = as_float(t);
        assert!(0.0 <= f && f <= 1.0);
        assert_eq!(f, value as f32 / 255.0);
    }
}

#[test]
fn token_limit_defaults_to_512() {
    assert_eq!(data(Some(3), None).get_token_limit(), 512);
}

#[test]
fn token_limit_is_the_header_value() {
    assert_eq!(data(None, Some(0)).get_token_limit(), 0);
    assert_eq!(data(None, Some(1024)).get_token_limit(), 1024);
    assert_eq!(data(None, Some(u32::MAX)).get_token_limit(), u32::MAX);
}

#[test]
fn role_depends_on_the_variant_alone() {
    let named = |name: &str, content: &str| LecticBlock::InterlocBlock {
        name: name.to_string(),
        content: content.to_string(),
    };
    let plain = |content: &str| LecticBlock::UserBlock { content: content.to_string() };
    for (name, content) in [("Bob", "hi"), ("user", "user"), ("", ""), ("x", ":::")] {
        assert_eq!(named(name, content).to_msg().role, Role::Assistant);
        assert_eq!(named(name, content).to_msg().content, content);
        assert_eq!(plain(content).to_msg().role, Role::User);
        assert_eq!(plain(content).to_msg().content, content);
    }
    assert_eq!(Role::User.label(), "user");
    assert_eq!(Role::Assistant.label(), "assistant");
}

#[test]
fn messages_follow_the_blocks_in_order() {
    let text = "---\ninterlocutor:\n  name: Bob\n  prompt: p\n---\na:::Bob\nb:::c:::Bob\nd:::";
    let body = parse(text).unwrap().body;
    let messages = LecticData::as_chat(&body);
    let expected: Vec<Message> = [
        (Role::User, "a"),
        (Role::Assistant, "b"),
        (Role::User, "c"),
        (Role::Assistant, "d"),
    ]
    .into_iter()
    .map(|(role, content)| Message { role, content: content.to_string() })
    .collect();
    assert_eq!(messages, expected);
}

#[test]
fn blocks_tell_their_content_and_blankness() {
    let block = LecticBlock::InterlocBlock { name: "Bob".to_string(), content: " \n".to_string() };
    assert_eq!(block.content(), " \n");
    assert!(block.is_empty());
    assert!(!block.is_nonempty());
    let block = LecticBlock::UserBlock { content: " x ".to_string() };
    assert_eq!(block.content(), " x ");
    assert!(!block.is_empty());
    assert!(block.is_nonempty());
    let block = LecticBlock::UserBlock { content: String::new() };
    assert!(block.is_empty());
}

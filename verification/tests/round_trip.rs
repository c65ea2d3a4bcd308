use lectic::encode::encode_body;
use lectic::parse::{get_body, normalize, parse};
use lectic::types::LecticBlock;

fn named(name: &str, content: &str) -> LecticBlock {
    LecticBlock::InterlocBlock { name: name.to_string(), content: content.to_string() }
}

fn plain(content: &str) -> LecticBlock {
    LecticBlock::UserBlock { content: content.to_string() }
}

fn body_of_document(body: &str) -> Vec<LecticBlock> {
    let text = format!("---\ninterlocutor:\n  name: Bob\n  prompt: Be terse.\n---\n{}", body);
    parse(&text).unwrap().body
}

fn read_back(blocks: &Vec<LecticBlock>) -> Vec<LecticBlock> {
    normalize(get_body(&encode_body(blocks)).unwrap())
}

#[test]
fn blocks_are_written_with_fences() {
    assert_eq!(encode_body(&vec![]), "");
    assert_eq!(encode_body(&vec![plain("Hello\n")]), "Hello\n");
    assert_eq!(encode_body(&vec![named("Bob", "Hi there\n")]), ":::Bob\nHi there\n:::");
    assert_eq!(
        encode_body(&vec![plain("Hello\n"), named("Bob", "Hi there\n"), plain("\nBye")]),
        "Hello\n:::Bob\nHi there\n:::\nBye"
    );
}

#[test]
fn named_blocks_in_a_row_are_set_apart() {
    assert_eq!(
        encode_body(&vec![named("A", "x"), named("B", "y"), plain("z"), named("C", "w")]),
        ":::A\nx:::\n:::B\ny:::z:::C\nw:::"
    );
}

#[test]
fn parsed_blocks_come_back_from_their_text() {
    let bodies = [
        "",
        "Hello\n:::Bob\nHi there\n:::\n",
        "Hello\n:::Bob\nHi there\n:::\nAnd then?\n::::: Bob :::::\n\n  Nothing.\n\n:::::",
        ":::A\nx\n:::\n:::B\ny\n:::\n\n::: C D :::z:::",
        "::colons: at :: the start\n:::Bob\n1 :: 2\n:::",
        ":::Bob\nx:::\ntrailing colons::",
        "one\n:::Bob\n \n:::two\n:::Bob:::\n:::three",
        ":::A:::\n\n:::\n \n:::B\n:::",
        "\u{a0}é\n:::Ünï cödé\n\u{2003}wide\u{3000}:::",
    ];
    for body in bodies {
        let blocks = body_of_document(body);
        assert_eq!(read_back(&blocks), blocks, "body {:?}", body);
    }
}

#[test]
fn order_and_kinds_come_back() {
    let blocks = body_of_document("a\n:::A\nb:::c:::B\nd:::\n:::C\ne:::");
    let kinds = |blocks: &Vec<LecticBlock>| -> Vec<bool> {
        blocks.iter().map(|b| matches!(b, LecticBlock::InterlocBlock { .. })).collect()
    };
    assert_eq!(kinds(&blocks), vec![false, true, false, true, true]);
    assert_eq!(kinds(&read_back(&blocks)), vec![false, true, false, true, true]);
}

#[test]
fn plain_blocks_in_a_row_are_set_apart() {
    let blocks = body_of_document("Hello\n:::Bob\n \n:::\nWorld");
    assert_eq!(blocks, vec![plain("Hello\n"), plain("\nWorld")]);
    assert_eq!(encode_body(&blocks), "Hello\n:::_\n:::\nWorld");
    assert_eq!(read_back(&blocks), blocks);
}

#[test]
fn spacers_are_read_as_blank_blocks() {
    let text = encode_body(&vec![plain("a"), plain("b"), named("N", "c"), named("M", "d")]);
    assert_eq!(text, "a:::_\n:::b:::N\nc:::\n:::M\nd:::");
    assert_eq!(
        get_body(&text).unwrap(),
        vec![plain("a"), named("_", ""), plain("b"), named("N", "c"), plain("\n"), named("M", "d")]
    );
}

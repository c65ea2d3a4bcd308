use lectic::args::Args;
use lectic::parse::get_body;
use lectic::reply::{format_reply, transcript};
use lectic::types::LecticBlock;

#[test]
fn reply_stands_between_fences() {
    assert_eq!(format_reply("Bob", "  Hi there.\n\n"), "::: Bob\n\nHi there.\n\n:::");
    assert_eq!(format_reply("Bob", "\u{2003}é\u{a0}"), "::: Bob\n\né\n\n:::");
    assert_eq!(format_reply("", ""), "::: \n\n\n\n:::");
}

#[test]
fn reply_reads_as_a_turn_of_the_persona() {
    let blocks = get_body(&format_reply("Bob", " Hi there. ")).unwrap();
    assert_eq!(
        blocks,
        vec![LecticBlock::InterlocBlock {
            name: "Bob".to_string(),
            content: "Hi there.\n\n".to_string()
        }]
    );
}

#[test]
fn transcript_is_the_reply_alone_when_short() {
    assert_eq!(transcript(true, "  source \n", "reply"), "reply");
}

#[test]
fn transcript_puts_the_reply_behind_the_source() {
    assert_eq!(transcript(false, "\n  source text \n\n", "reply\n"), "source text\n\nreply\n");
    assert_eq!(transcript(false, "", ""), "\n\n");
}

#[test]
fn a_single_hyphen_means_standard_input() {
    let args = |lectic: &str| Args { lectic: lectic.to_string(), short: false };
    assert!(args("-").reads_stdin());
    assert!(!args("").reads_stdin());
    assert!(!args("--").reads_stdin());
    assert!(!args("./-").reads_stdin());
    assert!(!args("notes.lec").reads_stdin());
}

//! What is written out once the persona has answered.

use crate::text::trim;
use crate::text::trimmed;
use vstd::prelude::*;
use vstd::string::StringExecFns;

verus! {

/// An answer as a turn of the persona `name`: an opening fence with the
/// name, the answer without the whitespace around it, and a closing fence,
/// with an empty line before and behind the answer.
pub open spec fn reply_text(name: Seq<char>, answer: Seq<char>) -> Seq<char> {
    "::: "@ + name + "\n\n"@ + trim(answer) + "\n\n:::"@
}

/// What is written out for a document and the reply to it: the reply alone
/// where `short` is set, and else the source without the whitespace around
/// it, an empty line, and the reply.
pub open spec fn transcript_text(short: bool, source: Seq<char>, reply: Seq<char>) -> Seq<char> {
    if short {
        reply
    } else {
        trim(source) + "\n\n"@ + reply
    }
}

/// The answer of the persona `name`, written as a turn of a document.
pub fn format_reply(name: &str, answer: &str) -> (r: String)
    ensures
        r@ == reply_text(name@, answer@),
{
    let mut out = String::from_str("::: ");
    out.append(name);
    out.append("\n\n");
    out.append(trimmed(answer));
    out.append("\n\n:::");
    out
}

/// What is written out for the document `source` and the reply to it.
pub fn transcript(short: bool, source: &str, reply: &str) -> (r: String)
    ensures
        r@ == transcript_text(short, source@, reply@),
{
    if short {
        String::from_str(reply)
    } else {
        let mut out = String::from_str(trimmed(source));
        out.append("\n\n");
        out.append(reply);
        out
    }
}

} // verus!

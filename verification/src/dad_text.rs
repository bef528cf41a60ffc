//! Building the bot's reply to a matched phrase: the pattern's capture
//! groups name what was said, and the reply greets it, optionally with
//! the affection line.

use vstd::prelude::*;

use crate::rng_manager::{chance_wf, RngManager};

verus! {

/// What the dadded pattern captures in a message: the matched first-person
/// form and the text to be greeted.  The outcome is a function of the
/// pattern and the message alone.
pub uninterp spec fn dadded_captures(pattern: Seq<char>, text: Seq<char>) -> Option<
    (Seq<char>, Seq<char>),
>;

/// Relies on regex::RegexBuilder::build (case-insensitive) and
/// regex::Regex::captures: compiles the pattern, matches it against the
/// message, and hands out the groups named `im` and `dad_text` (falling
/// back to the first two groups).  Both crates compute deterministically
/// from the two strings alone.
#[verifier::external_body]
fn capture_dadded_groups(pattern: &str, text: &str) -> (r: Option<(String, String)>)
    ensures
        match r {
            Some(caps) => dadded_captures(pattern@, text@) == Some((caps.0@, caps.1@)),
            None => dadded_captures(pattern@, text@) is None,
        },
{
    let re = regex::RegexBuilder::new(pattern).case_insensitive(true).build().ok()?;
    let caps = re.captures(text)?;
    let im = caps.name("im").or_else(|| caps.get(1))?;
    let dad = caps.name("dad_text").or_else(|| caps.get(2))?;
    Some((im.as_str().to_string(), dad.as_str().to_string()))
}

/// The reply to a captured phrase: the captured text greeted back, with
/// the affection line when the roll granted it.
pub open spec fn dadded_reply(dad_text: Seq<char>, love: bool) -> Seq<char> {
    "Hi "@ + dad_text + "! "@ + (if love {
        "I'm Dad and I love you"@
    } else {
        "I'm Dad"@
    }) + "!"@
}

/// Builds the reply to `msg` when the pattern captures a phrase in it,
/// and nothing otherwise.
pub fn create_dadded_text(dadded_regex: &str, msg: &str, should_love: bool) -> (r: Option<String>)
    ensures
        match dadded_captures(dadded_regex@, msg@) {
            Some(caps) => r matches Some(s) && s@ == dadded_reply(caps.1, should_love),
            None => r is None,
        },
{
    match capture_dadded_groups(dadded_regex, msg) {
        None => None,
        Some(caps) => {
            let mut out = String::from_str("Hi ");
            out.append(caps.1.as_str());
            out.append("! ");
            if should_love {
                out.append("I'm Dad and I love you");
            } else {
                out.append("I'm Dad");
            }
            out.append("!");
            proof {
                assert(out@ =~= dadded_reply(
                    dadded_captures(dadded_regex@, msg@)->Some_0.1,
                    should_love,
                ));
            }
            Some(out)
        },
    }
}

/// Decides by the configured chances whether to react to `msg` at all and
/// whether the reply carries the affection line, and builds it.
pub fn handle_dadded_text(rng: &mut RngManager, dadded_regex: &str, msg: &str) -> (r: Option<
    String,
>)
    requires
        chance_wf(old(rng).dadded_chance),
        chance_wf(old(rng).love_me_chance),
    ensures
        final(rng).dadded_chance == old(rng).dadded_chance,
        final(rng).love_me_chance == old(rng).love_me_chance,
        r matches Some(s) ==> dadded_captures(dadded_regex@, msg@) matches Some(caps) && (s@
            == dadded_reply(caps.1, true) || s@ == dadded_reply(caps.1, false)),
        !(old(rng).dadded_chance is In) && old(rng).love_me_chance is Off ==> match dadded_captures(
            dadded_regex@,
            msg@,
        ) {
            Some(caps) => r matches Some(s) && s@ == dadded_reply(caps.1, false),
            None => r is None,
        },
        !(old(rng).dadded_chance is In) && old(rng).love_me_chance is Always ==> match dadded_captures(
            dadded_regex@,
            msg@,
        ) {
            Some(caps) => r matches Some(s) && s@ == dadded_reply(caps.1, true),
            None => r is None,
        },
{
    if rng.should_dad() {
        let love = rng.should_love_you();
        create_dadded_text(dadded_regex, msg, love)
    } else {
        None
    }
}

} // verus!

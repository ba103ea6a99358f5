//! `fp experiments message`: the text of a message cell and where the
//! mention of its author starts.
use crate::text::{chars_of, extend_chars, string_of};
use vstd::prelude::*;

verus! {

/// The words joined with single spaces.
pub open spec fn join_words(words: Seq<Seq<char>>) -> Seq<char>
    decreases words.len(),
{
    if words.len() == 0 {
        Seq::empty()
    } else if words.len() == 1 {
        words[0]
    } else {
        join_words(words.drop_last()) + seq![' '] + words.last()
    }
}

/// The part of a message before the mention of its author.
pub open spec fn message_prefix(timestamp: Seq<char>) -> Seq<char> {
    seq!['\u{1f4ac}', ' '] + timestamp + seq![' ']
}

/// The text of a message cell: the timestamp, the author's mention and the
/// words of the message.
pub open spec fn message_spec(timestamp: Seq<char>, name: Seq<char>, words: Seq<Seq<char>>) -> Seq<
    char,
> {
    message_prefix(timestamp) + seq!['@'] + name + seq![':', ' ', ' '] + join_words(words)
}

/// A message cell's text and the character offset of its mention.
pub struct MessageCell {
    pub content: String,
    pub mention_start: usize,
}

/// The message cell for `words` written by `name` at `timestamp`; the
/// mention starts after the timestamp prefix (counted in characters).
pub fn message_cell(timestamp: &str, name: &str, words: &Vec<String>) -> (m: MessageCell)
    ensures
        m.content@ == message_spec(timestamp@, name@, words@.map_values(|w: String| w@)),
        m.mention_start == message_prefix(timestamp@).len(),
{
    let mut out: Vec<char> = Vec::new();
    out.push('\u{1f4ac}');
    out.push(' ');
    extend_chars(&mut out, &chars_of(timestamp));
    out.push(' ');
    let mention_start = out.len();
    out.push('@');
    extend_chars(&mut out, &chars_of(name));
    out.push(':');
    out.push(' ');
    out.push(' ');
    let ghost start = out@;
    let ghost wv = words@.map_values(|w: String| w@);
    let mut i: usize = 0;
    while i < words.len()
        invariant
            i <= words@.len(),
            wv == words@.map_values(|w: String| w@),
            out@ == start + join_words(wv.subrange(0, i as int)),
        decreases words@.len() - i,
    {
        let ghost before = out@;
        if i > 0 {
            out.push(' ');
        }
        extend_chars(&mut out, &chars_of(words[i].as_str()));
        proof {
            let sub = wv.subrange(0, i + 1);
            assert(sub.drop_last() =~= wv.subrange(0, i as int));
            assert(sub.last() == wv[i as int]);
            assert(out@ =~= start + join_words(sub));
        }
        i = i + 1;
    }
    proof {
        assert(wv.subrange(0, wv.len() as int) =~= wv);
        assert(out@ =~= message_spec(timestamp@, name@, wv));
    }
    MessageCell { content: string_of(&out), mention_start }
}

} // verus!

//! The text that echoing a list of words prints.

use vstd::prelude::*;
use vstd::string::StringExecFns;

verus! {

/// The words with a single space between each two of them.
pub open spec fn joined(words: Seq<Seq<char>>) -> Seq<char>
    decreases words.len(),
{
    if words.len() == 0 {
        Seq::empty()
    } else if words.len() == 1 {
        words[0]
    } else {
        joined(words.drop_last()).push(' ') + words.last()
    }
}

/// What echoing `words` prints: the words with single spaces between
/// them, and a newline unless it is left out.
pub open spec fn echoed(words: Seq<Seq<char>>, omit_newline: bool) -> Seq<char> {
    if omit_newline {
        joined(words)
    } else {
        joined(words).push('\n')
    }
}

/// Builds the text that echoing `words` prints.
pub fn echo(words: &Vec<String>, omit_newline: bool) -> (text: String)
    ensures
        text@ == echoed(words.deep_view(), omit_newline),
{
    let ghost all = words.deep_view();
    let mut text = String::new();
    let mut done: usize = 0;
    while done < words.len()
        invariant
            done <= words.len(),
            all == words.deep_view(),
            text@ == joined(all.take(done as int)),
        decreases words.len() - done,
    {
        proof {
            let next = all.take(done + 1);
            assert(next.drop_last() == all.take(done as int));
            assert(next.last() == words[done as int]@);
            if done == 0 {
                assert(text@ + words[0]@ =~= words[0]@);
            }
        }
        if done > 0 {
            text.push(' ');
        }
        text.append(words[done].as_str());
        done = done + 1;
    }
    assert(all.take(done as int) == all);
    if !omit_newline {
        text.push('\n');
    }
    text
}

} // verus!

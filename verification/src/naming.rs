//! Names of command kinds: from the `CamelCase` of a type to `snake_case` and to a title.

use vstd::prelude::*;
use crate::outside::{
    char_is_lowercase, char_is_uppercase, char_to_lowercase, is_lowercase, is_uppercase, lowercase,
    push_char,
};

verus! {

/// What stands for an uppercase character in snake case: the first character of its
/// lowercase mapping. (The mapping of a character is never empty; were it so, nothing
/// would stand for the character.)
pub open spec fn lowercase_start(c: char) -> Seq<char> {
    if lowercase(c).len() > 0 {
        seq![lowercase(c)[0]]
    } else {
        Seq::empty()
    }
}

/// A name in snake case: every uppercase character is replaced by the first character
/// of its lowercase mapping, with an underscore before it unless it starts the name.
pub open spec fn snake_case(name: Seq<char>) -> Seq<char>
    decreases name.len(),
{
    if name.len() == 0 {
        Seq::empty()
    } else {
        let before = snake_case(name.drop_last());
        let c = name.last();
        if is_uppercase(c) {
            if name.len() > 1 {
                before.push('_') + lowercase_start(c)
            } else {
                before + lowercase_start(c)
            }
        } else {
            before.push(c)
        }
    }
}

/// A name as a title: a space is put before every uppercase character that follows a
/// lowercase one.
pub open spec fn title_case(name: Seq<char>) -> Seq<char>
    decreases name.len(),
{
    if name.len() == 0 {
        Seq::empty()
    } else {
        let before = title_case(name.drop_last());
        let c = name.last();
        if name.len() > 1 && is_uppercase(c) && is_lowercase(name[name.len() - 2]) {
            before.push(' ').push(c)
        } else {
            before.push(c)
        }
    }
}

/// Turns a name in camel case, such as `FilledRect`, into snake case: `filled_rect`.
pub fn to_snake_case(s: &str) -> (result: String)
    ensures
        result@ == snake_case(s@),
{
    let mut result = String::new();
    let mut first = true;
    for ch in it: s.chars()
        invariant
            it.seq() == s@,
            first == (it.index() == 0),
            result@ == snake_case(s@.take(it.index() as int)),
    {
        proof {
            let next = s@.take(it.index() + 1);
            assert(next.drop_last() =~= s@.take(it.index() as int));
            assert(next.last() == ch);
        }
        if char_is_uppercase(ch) {
            if !first {
                push_char(&mut result, '_');
            }
            let mapping = char_to_lowercase(ch);
            if mapping.len() > 0 {
                push_char(&mut result, mapping[0]);
            }
        } else {
            push_char(&mut result, ch);
        }
        first = false;
        proof {
            assert(result@ =~= snake_case(s@.take(it.index() + 1)));
        }
    }
    proof {
        assert(s@.take(s@.len() as int) =~= s@);
    }
    result
}

/// Turns a name in camel case, such as `FilledRect`, into a title: `Filled Rect`.
pub fn to_title_case(s: &str) -> (result: String)
    ensures
        result@ == title_case(s@),
{
    let mut result = String::new();
    let mut prev_was_lower = false;
    for ch in it: s.chars()
        invariant
            it.seq() == s@,
            prev_was_lower == (it.index() > 0 && is_lowercase(s@[it.index() - 1])),
            result@ == title_case(s@.take(it.index() as int)),
    {
        proof {
            let next = s@.take(it.index() + 1);
            assert(next.drop_last() =~= s@.take(it.index() as int));
            assert(next.last() == ch);
            assert(it.index() > 0 ==> next[next.len() - 2] == s@[it.index() - 1]);
        }
        if prev_was_lower && char_is_uppercase(ch) {
            push_char(&mut result, ' ');
        }
        push_char(&mut result, ch);
        prev_was_lower = char_is_lowercase(ch);
    }
    proof {
        assert(s@.take(s@.len() as int) =~= s@);
    }
    result
}

} // verus!

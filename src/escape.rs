//! Escaping of text for the formatted-markup consumer, and what that consumer
//! reads back from it.
use vstd::prelude::*;
use crate::text::starts_with;

verus! {

/// The five entity references that formatted markup understands.
pub open spec fn amp_entity() -> Seq<char> {
    seq!['&', 'a', 'm', 'p', ';']
}

pub open spec fn lt_entity() -> Seq<char> {
    seq!['&', 'l', 't', ';']
}

pub open spec fn gt_entity() -> Seq<char> {
    seq!['&', 'g', 't', ';']
}

pub open spec fn quot_entity() -> Seq<char> {
    seq!['&', 'q', 'u', 'o', 't', ';']
}

pub open spec fn apos_entity() -> Seq<char> {
    seq!['&', 'a', 'p', 'o', 's', ';']
}

/// How one character is written in escaped text.
pub open spec fn escape_char(c: char) -> Seq<char> {
    if c == '&' {
        amp_entity()
    } else if c == '<' {
        lt_entity()
    } else if c == '>' {
        gt_entity()
    } else {
        seq![c]
    }
}

/// `s` with every `&`, `<` and `>` replaced by its entity reference.
pub open spec fn escaped(s: Seq<char>) -> Seq<char>
    decreases s.len(),
{
    if s.len() == 0 {
        seq![]
    } else {
        escape_char(s[0]) + escaped(s.drop_first())
    }
}

/// The characters that a markup reader sees in the text `t`: each entity
/// reference stands for its character, every other character for itself.
pub open spec fn unescaped(t: Seq<char>) -> Seq<char>
    decreases t.len(),
{
    if t.len() == 0 {
        seq![]
    } else if starts_with(t, amp_entity()) {
        seq!['&'] + unescaped(t.skip(5))
    } else if starts_with(t, lt_entity()) {
        seq!['<'] + unescaped(t.skip(4))
    } else if starts_with(t, gt_entity()) {
        seq!['>'] + unescaped(t.skip(4))
    } else if starts_with(t, quot_entity()) {
        seq!['"'] + unescaped(t.skip(6))
    } else if starts_with(t, apos_entity()) {
        seq!['\''] + unescaped(t.skip(6))
    } else {
        seq![t[0]] + unescaped(t.drop_first())
    }
}

/// Reading escaped text back gives exactly the characters it was made from.
pub proof fn lemma_escape_round_trip(s: Seq<char>)
    ensures
        unescaped(escaped(s)) == s,
    decreases s.len(),
{
    if s.len() > 0 {
        let c = s[0];
        let rest = s.drop_first();
        let t = escaped(s);
        lemma_escape_round_trip(rest);
        assert(t == escape_char(c) + escaped(rest));
        let k = escape_char(c).len() as int;
        assert(t.skip(k) == escaped(rest));
        if c == '&' {
            assert(t.take(5) == amp_entity());
        } else if c == '<' {
            assert(t.take(4) == lt_entity());
            assert(!starts_with(t, amp_entity())) by {
                if t.len() >= 5 {
                    assert(t.take(5)[1] == 'l');
                }
            }
        } else if c == '>' {
            assert(t.take(4) == gt_entity());
            assert(!starts_with(t, amp_entity())) by {
                if t.len() >= 5 {
                    assert(t.take(5)[1] == 'g');
                }
            }
            assert(!starts_with(t, lt_entity())) by {
                assert(t.take(4)[1] == 'g');
            }
        } else {
            assert(t[0] == c);
            assert(!starts_with(t, amp_entity())) by {
                if t.len() >= 5 {
                    assert(t.take(5)[0] == c);
                }
            }
            assert(!starts_with(t, lt_entity())) by {
                if t.len() >= 4 {
                    assert(t.take(4)[0] == c);
                }
            }
            assert(!starts_with(t, gt_entity())) by {
                if t.len() >= 4 {
                    assert(t.take(4)[0] == c);
                }
            }
            assert(!starts_with(t, quot_entity())) by {
                if t.len() >= 6 {
                    assert(t.take(6)[0] == c);
                }
            }
            assert(!starts_with(t, apos_entity())) by {
                if t.len() >= 6 {
                    assert(t.take(6)[0] == c);
                }
            }
        }
        assert(s == seq![c] + rest);
    }
}

/// Escaped text holds no `<` or `>`, so no part of it reads as a tag.
pub proof fn lemma_escaped_has_no_angle_brackets(s: Seq<char>)
    ensures
        forall|i: int| 0 <= i < escaped(s).len() ==> escaped(s)[i] != '<' && escaped(s)[i] != '>',
    decreases s.len(),
{
    if s.len() > 0 {
        lemma_escaped_has_no_angle_brackets(s.drop_first());
        let head = escape_char(s[0]);
        let tail = escaped(s.drop_first());
        assert forall|i: int| 0 <= i < escaped(s).len() implies escaped(s)[i] != '<'
            && escaped(s)[i] != '>' by {
            if i < head.len() {
                assert(escaped(s)[i] == head[i]);
            } else {
                assert(escaped(s)[i] == tail[i - head.len()]);
            }
        }
    }
}

/// Relies on html_escape::encode_text: it writes `&`, `<` and `>` as `&amp;`,
/// `&lt;` and `&gt;` and keeps every other character as it is.
#[verifier::external_body]
pub(crate) fn encode_text(s: &str) -> (r: String)
    ensures
        r@ == escaped(s@),
{
    html_escape::encode_text(s).into_owned()
}

} // verus!

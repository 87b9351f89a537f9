//! How much text the readers take. A reader of source text descends once for
//! each construct that lies within another: a bracket within a bracket, a
//! reference to a reference, the operand of an operator. Each descent takes
//! at least one token, so a text of few tokens cannot lead it deep.

use vstd::prelude::*;

verus! {

/// The most tokens that a text may hold and still be read. However such a
/// text nests, what a reader keeps on the stack while it descends stays well
/// within the stack that a thread has by default.
pub const MAX_TOKENS: usize = 64;

/// Whether `c` separates tokens and is part of none: a space, a tab, a line
/// feed or a carriage return.
pub open spec fn is_blank(c: char) -> bool {
    c == ' ' || c == '\t' || c == '\n' || c == '\r'
}

/// Whether `c` can stand inside a word: an ASCII letter, a digit or an
/// underscore. A run of such characters is never more than one token.
pub open spec fn is_word_char(c: char) -> bool {
    ('a' <= c && c <= 'z') || ('A' <= c && c <= 'Z') || ('0' <= c && c <= '9') || c == '_'
}

/// Whether a token may begin at `i`: the character there is no blank, and it
/// does not continue a word. Every other character is counted by itself, so
/// one that begins no token is counted too.
pub open spec fn may_start_token(s: Seq<char>, i: int) -> bool {
    &&& !is_blank(s[i])
    &&& !is_word_char(s[i]) || i == 0 || !is_word_char(s[i - 1])
}

/// A number that the tokens of `s` cannot exceed, however `s` is split into
/// tokens: the number of places at which a token may begin.
pub open spec fn token_bound(s: Seq<char>) -> nat
    decreases s.len(),
{
    if s.len() == 0 {
        0
    } else {
        token_bound(s.drop_last()) + if may_start_token(s, s.len() - 1) {
            1nat
        } else {
            0nat
        }
    }
}

/// A text holds at least as many places as any of its beginnings.
pub proof fn lemma_token_bound_grows(s: Seq<char>, k: int)
    requires
        0 <= k <= s.len(),
    ensures
        token_bound(s.subrange(0, k)) <= token_bound(s),
    decreases s.len() - k,
{
    if k == s.len() {
        assert(s.subrange(0, k) =~= s);
    } else {
        lemma_token_bound_grows(s.drop_last(), k);
        assert(s.drop_last().subrange(0, k) =~= s.subrange(0, k));
    }
}

/// Whether `text` is short enough to be read: whether it holds at most
/// `MAX_TOKENS` places at which a token may begin.
pub fn within_limit(text: &str) -> (r: bool)
    ensures
        r == (token_bound(text@) <= MAX_TOKENS),
{
    let mut count: usize = 0;
    let mut in_word = false;
    for c in it: text.chars()
        invariant
            it.seq() == text@,
            count == token_bound(text@.subrange(0, it.index() as int)),
            count <= MAX_TOKENS,
            in_word == (it.index() > 0 && is_word_char(text@[it.index() - 1])),
    {
        let ghost i = it.index() as int;
        let ghost before = text@.subrange(0, i);
        let ghost after = text@.subrange(0, i + 1);
        proof {
            assert(after.drop_last() =~= before);
            assert(after[i] == c);
            if i > 0 {
                assert(after[i - 1] == text@[i - 1]);
            }
        }
        let blank = c == ' ' || c == '\t' || c == '\n' || c == '\r';
        let word = ('a' <= c && c <= 'z') || ('A' <= c && c <= 'Z') || ('0' <= c && c <= '9') || c
            == '_';
        if !blank && !(word && in_word) {
            if count == MAX_TOKENS {
                proof {
                    lemma_token_bound_grows(text@, i + 1);
                }
                return false;
            }
            count = count + 1;
        }
        in_word = word;
    }
    proof {
        assert(text@.subrange(0, text@.len() as int) =~= text@);
    }
    true
}

} // verus!

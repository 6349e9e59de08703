//! Splits program text into tokens. The three delimiters become tokens of
//! their own wherever they stand; whitespace separates everything else.
use vstd::prelude::*;

use crate::text::{is_space, push_char, whitespace_char};

verus! {

/// The reserved list-open delimiter.
pub const LPAREN: char = '💖';

/// The reserved list-close delimiter.
pub const RPAREN: char = '💔';

/// The reserved quote prefix.
pub const QUOTE: char = '😪';

/// The reserved boolean literals.
pub const TRUE_TOKEN: char = '👍';

pub const FALSE_TOKEN: char = '👎';

/// The reserved special-form keywords.
pub const IF_TOKEN: char = '🐶';

pub const VAR_TOKEN: char = '🌹';

pub const CLOSURE_TOKEN: char = '🐷';

pub const SCOPED_LET_TOKEN: char = '🍙';

/// Whether a character is one of the three delimiters that always form a
/// token of their own.
pub open spec fn is_delimiter(c: char) -> bool {
    c == LPAREN || c == RPAREN || c == QUOTE
}

/// One step per character: a delimiter closes the pending token and
/// stands alone; whitespace closes the pending token; anything else
/// extends it. A pending token left at the end is emitted.
pub open spec fn tokenize_rec(rest: Seq<char>, cur: Seq<char>, acc: Seq<Seq<char>>) -> Seq<
    Seq<char>,
>
    decreases rest.len(),
{
    if rest.len() == 0 {
        if cur.len() > 0 {
            acc.push(cur)
        } else {
            acc
        }
    } else {
        let c = rest[0];
        if is_delimiter(c) {
            let flushed = if cur.len() > 0 {
                acc.push(cur)
            } else {
                acc
            };
            tokenize_rec(rest.drop_first(), Seq::empty(), flushed.push(seq![c]))
        } else if is_space(c) {
            let flushed = if cur.len() > 0 {
                acc.push(cur)
            } else {
                acc
            };
            tokenize_rec(rest.drop_first(), Seq::empty(), flushed)
        } else {
            tokenize_rec(rest.drop_first(), cur.push(c), acc)
        }
    }
}

/// The token sequence of a piece of program text.
pub open spec fn tokenize_spec(s: Seq<char>) -> Seq<Seq<char>> {
    tokenize_rec(s, Seq::empty(), Seq::empty())
}

pub struct Tokenizer {
    pub input: String,
}

impl Tokenizer {
    pub fn new(input: String) -> (t: Tokenizer)
        ensures
            t.input.view() == input.view(),
    {
        Tokenizer { input }
    }

    /// Split the text into tokens: each delimiter character stands alone,
    /// whitespace runs separate tokens, and every other run of characters
    /// becomes one token. No input is rejected here.
    #[verifier::loop_isolation(false)]
    pub fn tokenize(&self) -> (tokens: Vec<String>)
        ensures
            tokens.deep_view() == tokenize_spec(self.input.view()),
    {
        let ghost s = self.input.view();
        let text = self.input.as_str();
        let n = text.unicode_len();
        let mut tokens: Vec<String> = Vec::new();
        let mut cur = String::new();
        let mut i: usize = 0;
        proof {
            assert(s.skip(0) =~= s);
            assert(cur.view() =~= Seq::<char>::empty());
            assert(tokens.deep_view() =~= Seq::<Seq<char>>::empty());
        }
        while i < n
            invariant
                i <= n,
                tokenize_spec(s) == tokenize_rec(s.skip(i as int), cur.view(), tokens.deep_view()),
            decreases n - i,
        {
            let c = text.get_char(i);
            let ghost prev_tokens = tokens.deep_view();
            let ghost prev_cur = cur.view();
            proof {
                assert(s.skip(i as int)[0] == c);
                assert(s.skip(i as int).drop_first() =~= s.skip(i + 1));
            }
            if c == LPAREN || c == RPAREN || c == QUOTE {
                if !cur.as_str().is_empty() {
                    tokens.push(cur);
                    cur = String::new();
                }
                proof {
                    assert(cur.view() =~= Seq::<char>::empty());
                }
                let mut delim = String::new();
                push_char(&mut delim, c);
                proof {
                    assert(delim.view() =~= seq![c]);
                }
                tokens.push(delim);
                proof {
                    if prev_cur.len() > 0 {
                        assert(tokens.deep_view() =~= prev_tokens.push(prev_cur).push(seq![c]));
                    } else {
                        assert(tokens.deep_view() =~= prev_tokens.push(seq![c]));
                    }
                    assert(tokenize_spec(s) == tokenize_rec(
                        s.skip(i + 1),
                        cur.view(),
                        tokens.deep_view(),
                    ));
                }
            } else if whitespace_char(c) {
                if !cur.as_str().is_empty() {
                    tokens.push(cur);
                    cur = String::new();
                    proof {
                        assert(cur.view() =~= Seq::<char>::empty());
                        assert(tokens.deep_view() =~= prev_tokens.push(prev_cur));
                    }
                } else {
                    proof {
                        assert(cur.view() =~= Seq::<char>::empty());
                    }
                }
                proof {
                    assert(tokenize_spec(s) == tokenize_rec(
                        s.skip(i + 1),
                        cur.view(),
                        tokens.deep_view(),
                    ));
                }
            } else {
                push_char(&mut cur, c);
                proof {
                    assert(cur.view() == prev_cur.push(c));
                    assert(tokenize_spec(s) == tokenize_rec(
                        s.skip(i + 1),
                        cur.view(),
                        tokens.deep_view(),
                    ));
                }
            }
            i = i + 1;
        }
        proof {
            assert(s.skip(n as int) =~= Seq::<char>::empty());
        }
        if !cur.as_str().is_empty() {
            let ghost tv = tokens.deep_view();
            let ghost cv = cur.view();
            tokens.push(cur);
            proof {
                assert(tokens.deep_view() =~= tv.push(cv));
            }
        }
        proof {
            assert(tokens.deep_view() =~= tokenize_spec(s));
        }
        tokens
    }
}

} // verus!

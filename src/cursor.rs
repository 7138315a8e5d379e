use vstd::prelude::*;

use crate::token::{is_group, is_ident, is_punct, Delimiter, TokenTree};

verus! {

/// `s` read back to front.
pub open spec fn reversed<T>(s: Seq<T>) -> Seq<T> {
    Seq::new(s.len(), |i: int| s[s.len() - 1 - i])
}

/// An ordered, consuming view of a token sequence. Tokens are handed out by
/// value, so everything the parser passes on is the caller's own token.
pub struct Cursor {
    /// The remaining tokens, last one first.
    rev: Vec<TokenTree>,
}

impl View for Cursor {
    type V = Seq<TokenTree>;

    closed spec fn view(&self) -> Seq<TokenTree> {
        reversed(self.rev@)
    }
}

impl Cursor {
    pub fn new(tokens: Vec<TokenTree>) -> (c: Cursor)
        ensures
            c@ == tokens@,
    {
        let ghost all = tokens@;
        let mut tokens = tokens;
        let mut rev: Vec<TokenTree> = Vec::new();
        while tokens.len() > 0
            invariant
                tokens@.len() <= all.len(),
                tokens@ == all.subrange(0, tokens@.len() as int),
                reversed(rev@) == all.subrange(tokens@.len() as int, all.len() as int),
            decreases tokens.len(),
        {
            let ghost before = tokens@;
            let ghost rev0 = rev@;
            let t = tokens.pop().unwrap();
            assert(t == all[tokens@.len() as int]);
            rev.push(t);
            assert(before.len() == tokens@.len() + 1);
            assert(reversed(rev0).len() == rev0.len());
            assert(rev0.len() == all.len() - before.len());
            assert forall|i: int| 0 <= i < rev@.len() - 1 implies #[trigger] rev@[i] == rev0[i] by {}
            assert forall|i: int| 0 <= i < reversed(rev@).len() implies #[trigger] reversed(rev@)[i]
                == all.subrange(tokens@.len() as int, all.len() as int)[i] by {
                let k = tokens@.len() as int;
                if i > 0 {
                    assert(reversed(rev@)[i] == rev@[rev@.len() - 1 - i]);
                    assert(reversed(rev@)[i] == reversed(rev0)[i - 1]);
                    assert(reversed(rev0)[i - 1] == all.subrange(k + 1, all.len() as int)[i - 1]);
                    assert(all.subrange(k + 1, all.len() as int)[i - 1] == all[k + i]);
                } else {
                    assert(reversed(rev@)[0] == t);
                }
            }
            assert(reversed(rev@) =~= all.subrange(tokens@.len() as int, all.len() as int));
        }
        assert(all.subrange(0, all.len() as int) =~= all);
        Cursor { rev }
    }

    pub fn at_end(&self) -> (r: bool)
        ensures
            r == (self@.len() == 0),
    {
        self.rev.len() == 0
    }

    /// Takes the next token.
    pub fn next(&mut self) -> (r: Option<TokenTree>)
        ensures
            old(self)@.len() == 0 ==> r is None && final(self)@ == old(self)@,
            old(self)@.len() > 0 ==> r == Some(old(self)@[0]) && final(self)@ == old(self)@.drop_first(),
    {
        let r = self.rev.pop();
        proof {
            if old(self)@.len() > 0 {
                assert(self@ =~= old(self)@.drop_first());
            }
        }
        r
    }

    /// Whether the next token is the punctuation mark `c`.
    pub fn peek_punct(&self, c: char) -> (r: bool)
        ensures
            r == (self@.len() > 0 && is_punct(self@[0], c)),
    {
        let n = self.rev.len();
        n > 0 && self.rev[n - 1].is_punct(c)
    }

    /// Whether the next token is the identifier `name`.
    pub fn peek_ident(&self, name: &str) -> (r: bool)
        ensures
            r == (self@.len() > 0 && is_ident(self@[0], name@)),
    {
        let n = self.rev.len();
        n > 0 && self.rev[n - 1].is_ident(name)
    }

    /// Whether the next token is a group delimited by `d`.
    pub fn peek_group(&self, d: Delimiter) -> (r: bool)
        ensures
            r == (self@.len() > 0 && is_group(self@[0], d)),
    {
        let n = self.rev.len();
        n > 0 && self.rev[n - 1].is_group(d)
    }
}

} // verus!

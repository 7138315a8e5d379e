use vstd::prelude::*;

use crate::cursor::Cursor;
use crate::diagnostic::{CompileError, EXPECTED_STRING_LITERAL};
use crate::token::{is_string_literal, span_of, Delimiter, Literal, Span, TokenTree};

verus! {

/// The text a variant is rendered with: a string literal, and the further
/// arguments of the substitution, separators included.
#[derive(Debug)]
pub struct Template {
    pub literal: Literal,
    pub extra: Vec<TokenTree>,
}

impl View for Template {
    type V = (Literal, Seq<TokenTree>);

    open spec fn view(&self) -> (Literal, Seq<TokenTree>) {
        (self.literal, self.extra@)
    }
}

/// The template or diagnostic of a template extraction, as values.
pub open spec fn outcome(r: Result<Template, CompileError>) -> Result<(Literal, Seq<TokenTree>), (Span, Seq<char>)> {
    match r {
        Ok(t) => Ok(t@),
        Err(e) => Err(e@),
    }
}

/// What the tokens `s` after a variant's `=` (itself at `eq_span`) give:
/// a string literal alone, or a parenthesized group that opens with one.
pub open spec fn template_of(s: Seq<TokenTree>, eq_span: Span) -> Result<(Literal, Seq<TokenTree>), (Span, Seq<char>)> {
    if s.len() == 0 {
        Err((eq_span, EXPECTED_STRING_LITERAL@))
    } else {
        match s[0] {
            TokenTree::Literal(l) => if is_string_literal(l) {
                Ok((l, seq![]))
            } else {
                Err((l.span, EXPECTED_STRING_LITERAL@))
            },
            TokenTree::Group(g) => if g.delimiter != Delimiter::Parenthesis {
                Err((g.span, EXPECTED_STRING_LITERAL@))
            } else if g.stream@.len() == 0 {
                Err((g.span, EXPECTED_STRING_LITERAL@))
            } else if g.stream@[0] matches TokenTree::Literal(l) && is_string_literal(l) {
                Ok((g.stream@[0]->Literal_0, g.stream@.drop_first()))
            } else {
                Err((span_of(g.stream@[0]), EXPECTED_STRING_LITERAL@))
            },
            t => Err((span_of(t), EXPECTED_STRING_LITERAL@)),
        }
    }
}

/// Reads the template that follows a variant's `=`, which stands at `eq_span`
/// and has already been consumed. Exactly one token is consumed, if any is
/// left.
pub fn extract_string(c: &mut Cursor, eq_span: Span) -> (r: Result<Template, CompileError>)
    ensures
        outcome(r) == template_of(old(c)@, eq_span),
        final(c)@ == (if old(c)@.len() > 0 { old(c)@.drop_first() } else { old(c)@ }),
{
    match c.next() {
        None => Err(CompileError::new(eq_span, EXPECTED_STRING_LITERAL)),
        Some(TokenTree::Literal(l)) => {
            if l.is_string() {
                Ok(Template { literal: l, extra: Vec::new() })
            } else {
                Err(CompileError::new(l.span, EXPECTED_STRING_LITERAL))
            }
        },
        Some(TokenTree::Group(g)) => {
            if g.delimiter != Delimiter::Parenthesis || g.stream.len() == 0 {
                return Err(CompileError::new(g.span, EXPECTED_STRING_LITERAL));
            }
            let ghost inner = g.stream@;
            let mut stream = g.stream;
            let first = stream.remove(0);
            assert(stream@ =~= inner.drop_first());
            match first {
                TokenTree::Literal(l) => {
                    if l.is_string() {
                        Ok(Template { literal: l, extra: stream })
                    } else {
                        Err(CompileError::new(l.span, EXPECTED_STRING_LITERAL))
                    }
                },
                t => Err(CompileError::new(t.span(), EXPECTED_STRING_LITERAL)),
            }
        },
        Some(t) => Err(CompileError::new(t.span(), EXPECTED_STRING_LITERAL)),
    }
}

} // verus!

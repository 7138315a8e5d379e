use vstd::prelude::*;

use crate::token::{is_ident, Delimiter, Group, Literal, LiteralForm, Punct, Spacing, Span, TokenTree};

verus! {

pub const UNEXPECTED_TOKEN: &'static str = "unexpected token";

pub const EXPECTED_ENUM: &'static str = "expected an `enum` item";

pub const EXPECTED_ENUM_NAME: &'static str = "expected the name of the `enum`";

pub const EXPECTED_ENUM_BODY: &'static str = "expected the braced body of the `enum`";

pub const EXPECTED_VARIANT_NAME: &'static str = "expected the name of a variant";

pub const EXPECTED_DISCRIMINANT: &'static str = "expected this variant to have a string discriminant: `= \"...\"`";

pub const EXPECTED_STRING_LITERAL: &'static str = "expected string literal";

/// A diagnostic: a message reported at a location.
#[derive(Debug)]
pub struct CompileError {
    /// Where the diagnostic is reported
    pub span: Span,
    /// What it says
    pub message: String,
}

impl View for CompileError {
    type V = (Span, Seq<char>);

    open spec fn view(&self) -> (Span, Seq<char>) {
        (self.span, self.message@)
    }
}

/// `t` is the tokens `compile_error! { "<message>" }`, each at `e`'s span.
pub open spec fn renders_error(t: Seq<TokenTree>, e: (Span, Seq<char>)) -> bool {
    &&& t.len() == 3
    &&& is_ident(t[0], "compile_error"@) && t[0]->Ident_0.span == e.0
    &&& t[1] == TokenTree::Punct(Punct { ch: '!', spacing: Spacing::Alone, span: e.0 })
    &&& t[2] matches TokenTree::Group(g)
    &&& g.delimiter == Delimiter::Brace && g.span == e.0 && g.stream@.len() == 1
    &&& g.stream@[0] matches TokenTree::Literal(l)
    &&& l.span == e.0
    &&& l.form matches LiteralForm::Text(m)
    &&& m@ == e.1
}

impl CompileError {
    /// Create a new compile error
    pub fn new(span: Span, message: &str) -> (r: CompileError)
        ensures
            r@ == (span, message@),
    {
        CompileError { span, message: message.to_owned() }
    }

    /// The tokens that report this error to the host compiler.
    pub fn to_tokens(self) -> (r: Vec<TokenTree>)
        ensures
            renders_error(r@, self@),
    {
        let span = self.span;
        let lit = TokenTree::Literal(Literal { form: LiteralForm::Text(self.message), span });
        let mut r: Vec<TokenTree> = Vec::new();
        let mut name = TokenTree::ident("compile_error");
        if let TokenTree::Ident(i) = &mut name {
            i.span = span;
        }
        r.push(name);
        r.push(TokenTree::Punct(Punct { ch: '!', spacing: Spacing::Alone, span }));
        r.push(TokenTree::Group(Group { delimiter: Delimiter::Brace, stream: vec![lit], span }));
        r
    }
}

} // verus!

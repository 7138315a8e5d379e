use vstd::prelude::*;

verus! {

/// Where a token came from: the invocation site of the transformation, or
/// the position of a token in the host's own table of source locations.
#[derive(Clone, Copy, Debug, PartialEq, Eq, Structural)]
pub enum Span {
    CallSite,
    At(u64),
}

/// The bracket pair around a group.
#[derive(Clone, Copy, Debug, PartialEq, Eq, Structural)]
pub enum Delimiter {
    Parenthesis,
    Brace,
    Bracket,
    Invisible,
}

/// Whether a punctuation mark is glued to the punctuation mark after it.
#[derive(Clone, Copy, Debug, PartialEq, Eq, Structural)]
pub enum Spacing {
    Alone,
    Joint,
}

/// How a literal token is spelled.
#[derive(Debug)]
pub enum LiteralForm {
    /// The literal exactly as it was written in the source, quotes included.
    Written(String),
    /// A string literal whose value is this text; the host adds quotes and
    /// escapes when it renders the token.
    Text(String),
}

#[derive(Debug)]
pub struct Ident {
    pub name: String,
    pub span: Span,
}

#[derive(Debug)]
pub struct Punct {
    pub ch: char,
    pub spacing: Spacing,
    pub span: Span,
}

#[derive(Debug)]
pub struct Literal {
    pub form: LiteralForm,
    pub span: Span,
}

#[derive(Debug)]
pub struct Group {
    pub delimiter: Delimiter,
    pub stream: Vec<TokenTree>,
    pub span: Span,
}

/// One lexical token; a group holds its own token sequence.
#[derive(Debug)]
pub enum TokenTree {
    Ident(Ident),
    Punct(Punct),
    Literal(Literal),
    Group(Group),
}

/// `t` is the punctuation mark `c`.
pub open spec fn is_punct(t: TokenTree, c: char) -> bool {
    t matches TokenTree::Punct(p) && p.ch == c
}

/// `t` is the identifier spelled `name`.
pub open spec fn is_ident(t: TokenTree, name: Seq<char>) -> bool {
    t matches TokenTree::Ident(i) && i.name@ == name
}

/// `t` is a group delimited by `d`.
pub open spec fn is_group(t: TokenTree, d: Delimiter) -> bool {
    t matches TokenTree::Group(g) && g.delimiter == d
}

/// The location a token reports diagnostics at.
pub open spec fn span_of(t: TokenTree) -> Span {
    match t {
        TokenTree::Ident(i) => i.span,
        TokenTree::Punct(p) => p.span,
        TokenTree::Literal(l) => l.span,
        TokenTree::Group(g) => g.span,
    }
}

/// A literal whose value is a string: a quoted or raw string literal, or
/// one made from text.
pub open spec fn is_string_literal(l: Literal) -> bool {
    match l.form {
        LiteralForm::Text(_) => true,
        LiteralForm::Written(s) => {
            ||| s@.len() > 0 && s@[0] == '"'
            ||| s@.len() > 1 && s@[0] == 'r' && (s@[1] == '"' || s@[1] == '#')
        },
    }
}

impl LiteralForm {
    pub fn copy(&self) -> (r: LiteralForm)
        ensures
            r == *self,
    {
        match self {
            LiteralForm::Written(s) => LiteralForm::Written(s.clone()),
            LiteralForm::Text(s) => LiteralForm::Text(s.clone()),
        }
    }
}

impl Ident {
    /// A fresh identifier at the call site.
    pub fn new(name: &str) -> (r: Ident)
        ensures
            r.name@ == name@,
            r.span == Span::CallSite,
    {
        Ident { name: name.to_owned(), span: Span::CallSite }
    }

    pub fn copy(&self) -> (r: Ident)
        ensures
            r == *self,
    {
        Ident { name: self.name.clone(), span: self.span }
    }
}

impl Literal {
    /// A string literal holding `content`, at the call site.
    pub fn string(content: &str) -> (r: Literal)
        ensures
            r.form matches LiteralForm::Text(s) && s@ == content@,
            r.span == Span::CallSite,
    {
        Literal { form: LiteralForm::Text(content.to_owned()), span: Span::CallSite }
    }

    pub fn copy(&self) -> (r: Literal)
        ensures
            r == *self,
    {
        Literal { form: self.form.copy(), span: self.span }
    }

    pub fn is_string(&self) -> (r: bool)
        ensures
            r == is_string_literal(*self),
    {
        match &self.form {
            LiteralForm::Text(_) => true,
            LiteralForm::Written(s) => {
                let t = s.as_str();
                let n = t.unicode_len();
                if n > 0 && t.get_char(0) == '"' {
                    true
                } else {
                    n > 1 && t.get_char(0) == 'r' && (t.get_char(1) == '"' || t.get_char(1) == '#')
                }
            },
        }
    }
}

impl TokenTree {
    /// A joint punctuation mark at the call site.
    pub fn punct(ch: char) -> (r: TokenTree)
        ensures
            r == TokenTree::Punct(Punct { ch, spacing: Spacing::Joint, span: Span::CallSite }),
    {
        TokenTree::Punct(Punct { ch, spacing: Spacing::Joint, span: Span::CallSite })
    }

    /// An identifier at the call site.
    pub fn ident(name: &str) -> (r: TokenTree)
        ensures
            r matches TokenTree::Ident(i) && i.name@ == name@ && i.span == Span::CallSite,
    {
        TokenTree::Ident(Ident::new(name))
    }

    /// A group at the call site.
    pub fn group(delimiter: Delimiter, stream: Vec<TokenTree>) -> (r: TokenTree)
        ensures
            r == TokenTree::Group(Group { delimiter, stream, span: Span::CallSite }),
    {
        TokenTree::Group(Group { delimiter, stream, span: Span::CallSite })
    }

    pub fn span(&self) -> (r: Span)
        ensures
            r == span_of(*self),
    {
        match self {
            TokenTree::Ident(i) => i.span,
            TokenTree::Punct(p) => p.span,
            TokenTree::Literal(l) => l.span,
            TokenTree::Group(g) => g.span,
        }
    }

    pub fn is_punct(&self, c: char) -> (r: bool)
        ensures
            r == is_punct(*self, c),
    {
        match self {
            TokenTree::Punct(p) => p.ch == c,
            _ => false,
        }
    }

    pub fn is_ident(&self, name: &str) -> (r: bool)
        ensures
            r == is_ident(*self, name@),
    {
        match self {
            TokenTree::Ident(i) => i.name == name.to_owned(),
            _ => false,
        }
    }

    pub fn is_group(&self, d: Delimiter) -> (r: bool)
        ensures
            r == is_group(*self, d),
    {
        match self {
            TokenTree::Group(g) => g.delimiter == d,
            _ => false,
        }
    }
}

} // verus!

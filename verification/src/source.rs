//! Source inputs and the small IRs around them: source files, token
//! trees, unparsed code blocks, class declarations, and the storage-mode
//! markers of declarations.

use vstd::prelude::*;

use crate::symir::Span;

verus! {

/// An absolute span within one source file.
#[derive(Copy, Clone, PartialEq, Eq, Structural, Debug)]
pub struct AbsoluteSpan {
    pub source_file: u32,
    pub start: u32,
    pub end: u32,
}

/// A registered source file: its interned path and its contents.
pub struct SourceFile {
    pub id: u32,
    pub path: String,
    pub contents: Vec<u8>,
}

impl SourceFile {
    /// The absolute span covering the entire source file.
    pub fn absolute_span(&self) -> (r: AbsoluteSpan)
        requires
            self.contents@.len() <= u32::MAX,
        ensures
            r.source_file == self.id,
            r.start == 0,
            r.end == self.contents@.len(),
    {
        AbsoluteSpan { source_file: self.id, start: 0, end: self.contents.len() as u32 }
    }
}

/// One token, as the lexer hands it over: its kind and its length in
/// bytes.
#[derive(Copy, Clone, PartialEq, Eq, Structural, Debug)]
pub struct Token {
    pub kind: u32,
    pub len: u32,
}

/// A token tree: a span and the tokens within it.
pub struct TokenTree {
    pub span: Span,
    pub tokens: Vec<Token>,
}

impl TokenTree {
    /// The length of the tree in bytes: the length of its span.
    pub fn len(&self) -> (r: u32)
        requires
            self.span.start <= self.span.end,
        ensures
            r == self.span.end - self.span.start,
    {
        self.span.end - self.span.start
    }

    /// Each token paired with its span: consecutive spans starting at the
    /// tree's start, each as long as its token.
    pub fn spanned_tokens(&self) -> (r: Vec<(Span, Token)>)
        requires
            self.span.start + spec_token_total(self.tokens@) <= u32::MAX,
        ensures
            r@.len() == self.tokens@.len(),
            forall|i: int|
                0 <= i < r@.len() ==> (#[trigger] r@[i]).1 == self.tokens@[i] && r@[i].0.start
                    == self.span.start + spec_token_total(self.tokens@.subrange(0, i)) && r@[i].0.end
                    == r@[i].0.start + self.tokens@[i].len,
    {
        let mut r: Vec<(Span, Token)> = Vec::new();
        let mut start: u32 = self.span.start;
        let mut i: usize = 0;
        while i < self.tokens.len()
            invariant
                i <= self.tokens@.len(),
                r@.len() == i,
                start == self.span.start + spec_token_total(self.tokens@.subrange(0, i as int)),
                self.span.start + spec_token_total(self.tokens@) <= u32::MAX,
                forall|j: int|
                    0 <= j < i ==> (#[trigger] r@[j]).1 == self.tokens@[j] && r@[j].0.start
                        == self.span.start + spec_token_total(self.tokens@.subrange(0, j))
                        && r@[j].0.end == r@[j].0.start + self.tokens@[j].len,
            decreases self.tokens@.len() - i,
        {
            let t = self.tokens[i];
            proof {
                lemma_token_total_prefix(self.tokens@, i as int);
                assert(self.tokens@.subrange(0, i as int + 1) =~= self.tokens@.subrange(
                    0,
                    i as int,
                ).push(self.tokens@[i as int]));
                lemma_token_total_push(self.tokens@.subrange(0, i as int), self.tokens@[i as int]);
            }
            let span = Span { start, end: start + t.len };
            r.push((span, t));
            start = start + t.len;
            i += 1;
        }
        r
    }
}

/// The total byte length of a sequence of tokens.
pub open spec fn spec_token_total(tokens: Seq<Token>) -> int
    decreases tokens.len(),
{
    if tokens.len() == 0 {
        0
    } else {
        spec_token_total(tokens.drop_last()) + tokens.last().len
    }
}

proof fn lemma_token_total_push(tokens: Seq<Token>, t: Token)
    ensures
        spec_token_total(tokens.push(t)) == spec_token_total(tokens) + t.len,
{
    assert(tokens.push(t).drop_last() =~= tokens);
}

proof fn lemma_token_total_nonneg(tokens: Seq<Token>)
    ensures
        spec_token_total(tokens) >= 0,
    decreases tokens.len(),
{
    if tokens.len() > 0 {
        lemma_token_total_nonneg(tokens.drop_last());
    }
}

proof fn lemma_token_total_prefix(tokens: Seq<Token>, i: int)
    requires
        0 <= i < tokens.len(),
    ensures
        spec_token_total(tokens.subrange(0, i)) + tokens[i].len <= spec_token_total(tokens),
    decreases tokens.len() - i,
{
    if i == tokens.len() - 1 {
        assert(tokens.subrange(0, i) =~= tokens.drop_last());
    } else {
        lemma_token_total_prefix(tokens, i + 1);
        assert(tokens.subrange(0, i + 1) =~= tokens.subrange(0, i).push(tokens[i]));
        lemma_token_total_push(tokens.subrange(0, i), tokens[i]);
        lemma_token_total_nonneg(tokens.subrange(0, i));
    }
}

/// A block of code attached to a method: after parsing it is just a token
/// tree.
pub struct UnparsedCode {
    pub body_tokens: TokenTree,
}

impl UnparsedCode {
    pub fn new(body_tokens: TokenTree) -> (r: UnparsedCode)
        ensures
            r.body_tokens.span == body_tokens.span,
            r.body_tokens.tokens@ == body_tokens.tokens@,
    {
        UnparsedCode { body_tokens }
    }

    /// The file the code came from.
    pub fn input_file(&self, file_of_span: u32) -> (r: u32)
        ensures
            r == file_of_span,
    {
        file_of_span
    }
}

/// A class declaration: its interned name, its file, the span of its name
/// and its whole span.
pub struct Class {
    pub name: u32,
    pub input_file: u32,
    pub name_span: Span,
    pub span: Span,
}

impl Class {
    /// The span of the class's name within its signature.
    pub fn name_span(&self) -> (r: Span)
        ensures
            r == self.name_span,
    {
        self.name_span
    }
}

/// A storage specifier of a declaration.
#[derive(Copy, Clone, PartialEq, Eq, Structural, Debug)]
pub enum Specifier {
    My,
    Our,
    Leased,
    OurLeased,
    Any,
}

/// A specifier together with its span and whether it was defaulted.
#[derive(Copy, Clone, PartialEq, Eq, Structural, Debug)]
pub struct SpannedSpecifier {
    pub specifier: Specifier,
    pub defaulted: bool,
    pub span: Span,
}

impl SpannedSpecifier {
    /// The specifier for a variable or field without an explicit one: any
    /// storage, marked defaulted, spanning the name.
    pub fn new_defaulted(name_span: Span) -> (r: SpannedSpecifier)
        ensures
            r == (SpannedSpecifier { specifier: Specifier::Any, defaulted: true, span: name_span }),
    {
        SpannedSpecifier { specifier: Specifier::Any, defaulted: true, span: name_span }
    }
}

/// Whether a path was traversed through an atomic step. Joining takes the
/// maximum: atomic wins.
#[derive(Copy, Clone, PartialEq, Eq, Structural, Debug)]
pub enum Atomic {
    No,
    Yes,
}

impl Atomic {
    /// The join of two atomic markers: `Yes` if either step was atomic.
    pub fn lub(self, other: Atomic) -> (r: Atomic)
        ensures
            r == (if self is Yes || other is Yes {
                Atomic::Yes
            } else {
                Atomic::No
            }),
    {
        match (self, other) {
            (Atomic::No, Atomic::No) => Atomic::No,
            _ => Atomic::Yes,
        }
    }
}

/// Whether a path was traversed through jointly owned storage.
#[derive(Copy, Clone, PartialEq, Eq, Structural, Debug)]
pub enum Joint {
    No,
    Yes,
}

impl Joint {
    /// The join of two joint markers: `Yes` if either step was joint.
    pub fn lub(self, other: Joint) -> (r: Joint)
        ensures
            r == (if self is Yes || other is Yes {
                Joint::Yes
            } else {
                Joint::No
            }),
    {
        match (self, other) {
            (Joint::No, Joint::No) => Joint::No,
            _ => Joint::Yes,
        }
    }
}

/// Whether a path was traversed through leased storage.
#[derive(Copy, Clone, PartialEq, Eq, Structural, Debug)]
pub enum Leased {
    No,
    Yes,
}

impl Leased {
    /// The join of two leased markers: `Yes` if either step was leased.
    pub fn lub(self, other: Leased) -> (r: Leased)
        ensures
            r == (if self is Yes || other is Yes {
                Leased::Yes
            } else {
                Leased::No
            }),
    {
        match (self, other) {
            (Leased::No, Leased::No) => Leased::No,
            _ => Leased::Yes,
        }
    }
}

} // verus!

//! Token trees: the currency between the generators and the front end.

use vstd::prelude::*;

verus! {

/// Where a token points in the source, for diagnostics and hygiene.
#[derive(Clone, Copy, Debug, PartialEq, Eq, Structural)]
pub enum Span {
    /// The place where the generator was invoked.
    CallSite,
    /// A place in the input, by the number the front end gave it.
    Source(u64),
}

/// The brackets round a group of tokens.
#[derive(Clone, Copy, Debug, PartialEq, Eq, Structural)]
pub enum Delimiter {
    Parenthesis,
    Brace,
    Bracket,
    Invisible,
}

/// One token, or a delimited group of tokens.
#[derive(Debug, PartialEq, Eq)]
pub enum TokenTree {
    /// An identifier or a keyword.
    Ident { name: String, span: Span },
    /// One character of punctuation; `joint` where the next one belongs to
    /// the same operator.
    Punct { ch: char, joint: bool, span: Span },
    /// A literal, as it is written in source.
    Literal { text: String, span: Span },
    /// A string literal, by the text it stands for; the front end spells it.
    Str { value: String, span: Span },
    /// Tokens in brackets.
    Group { delimiter: Delimiter, stream: Vec<TokenTree>, span: Span },
    /// Tokens given as source text, for the front end to read.
    Verbatim { source: String, span: Span },
}

/// The mathematical value of a token tree.
pub enum Tok {
    Ident { name: Seq<char>, span: Span },
    Punct { ch: char, joint: bool, span: Span },
    Literal { text: Seq<char>, span: Span },
    Str { value: Seq<char>, span: Span },
    Group { delimiter: Delimiter, stream: Seq<Tok>, span: Span },
    Verbatim { source: Seq<char>, span: Span },
}

/// The value of a token tree: names and texts as sequences of characters,
/// the trees of a group by their values.
pub open spec fn tree_view(t: TokenTree) -> Tok
    decreases t,
{
    match t {
        TokenTree::Ident { name, span } => Tok::Ident { name: name@, span },
        TokenTree::Punct { ch, joint, span } => Tok::Punct { ch, joint, span },
        TokenTree::Literal { text, span } => Tok::Literal { text: text@, span },
        TokenTree::Str { value, span } => Tok::Str { value: value@, span },
        TokenTree::Verbatim { source, span } => Tok::Verbatim { source: source@, span },
        TokenTree::Group { delimiter, stream, span } => Tok::Group {
            delimiter,
            stream: Seq::new(
                stream@.len(),
                |i: int|
                    if 0 <= i < stream@.len() {
                        tree_view(stream@[i])
                    } else {
                        arbitrary()
                    },
            ),
            span,
        },
    }
}

impl View for TokenTree {
    type V = Tok;

    open spec fn view(&self) -> Tok {
        tree_view(*self)
    }
}

/// The values of a run of token trees, in order.
pub open spec fn stream_view(s: Seq<TokenTree>) -> Seq<Tok> {
    Seq::new(s.len(), |i: int| s[i]@)
}

/// The value of a group holds the values of the trees inside it.
pub proof fn lemma_group_view(t: TokenTree)
    requires
        t is Group,
    ensures
        t@ == (Tok::Group {
            delimiter: t->delimiter,
            stream: stream_view(t->stream@),
            span: t->Group_span,
        }),
{
    assert(t@->stream =~= stream_view(t->stream@));
}

/// A copy of a token tree, with the same value.
pub fn copy_tree(t: &TokenTree) -> (r: TokenTree)
    ensures
        r@ == t@,
    decreases t,
{
    match t {
        TokenTree::Ident { name, span } => TokenTree::Ident { name: name.clone(), span: *span },
        TokenTree::Punct { ch, joint, span } => TokenTree::Punct { ch: *ch, joint: *joint, span: *span },
        TokenTree::Literal { text, span } => TokenTree::Literal { text: text.clone(), span: *span },
        TokenTree::Str { value, span } => TokenTree::Str { value: value.clone(), span: *span },
        TokenTree::Verbatim { source, span } => TokenTree::Verbatim {
            source: source.clone(),
            span: *span,
        },
        TokenTree::Group { delimiter, stream, span } => {
            let inner = copy_stream(stream);
            let r = TokenTree::Group { delimiter: *delimiter, stream: inner, span: *span };
            proof {
                lemma_group_view(r);
                lemma_group_view(*t);
            }
            r
        },
    }
}

/// A copy of a run of token trees, with the same values in the same order.
pub fn copy_stream(s: &Vec<TokenTree>) -> (r: Vec<TokenTree>)
    ensures
        stream_view(r@) == stream_view(s@),
    decreases s,
{
    let mut out: Vec<TokenTree> = Vec::new();
    let mut i: usize = 0;
    while i < s.len()
        invariant
            i <= s.len(),
            out.len() == i,
            forall|j: int| 0 <= j < i ==> out@[j]@ == s@[j]@,
        decreases s.len() - i,
    {
        let t = copy_tree(&s[i]);
        out.push(t);
        i += 1;
    }
    assert(stream_view(out@) =~= stream_view(s@));
    out
}

/// The values of several runs of token trees.
pub open spec fn streams_view(s: Seq<Vec<TokenTree>>) -> Seq<Seq<Tok>> {
    Seq::new(s.len(), |i: int| stream_view(s[i]@))
}

/// The values of a run followed by another are the values of the one
/// followed by the values of the other.
pub proof fn lemma_stream_view_add(a: Seq<TokenTree>, b: Seq<TokenTree>)
    ensures
        stream_view(a + b) == stream_view(a) + stream_view(b),
{
    assert(stream_view(a + b) =~= stream_view(a) + stream_view(b));
}

/// The values of a run with one more tree at its end.
pub proof fn lemma_stream_view_push(a: Seq<TokenTree>, t: TokenTree)
    ensures
        stream_view(a.push(t)) == stream_view(a).push(t@),
{
    assert(stream_view(a.push(t)) =~= stream_view(a).push(t@));
}

/// An identifier or keyword written by a generator.
pub open spec fn word(name: Seq<char>) -> Tok {
    Tok::Ident { name, span: Span::CallSite }
}

/// A punctuation character that stands alone.
pub open spec fn mark(ch: char) -> Tok {
    Tok::Punct { ch, joint: false, span: Span::CallSite }
}

/// A punctuation character that the next one continues, as the first
/// colon of `::`.
pub open spec fn joined(ch: char) -> Tok {
    Tok::Punct { ch, joint: true, span: Span::CallSite }
}

/// Tokens in brackets, written by a generator.
pub open spec fn group(delimiter: Delimiter, stream: Seq<Tok>) -> Tok {
    Tok::Group { delimiter, stream, span: Span::CallSite }
}

/// The path `::std::a::b`.
pub open spec fn std2(a: Seq<char>, b: Seq<char>) -> Seq<Tok> {
    seq![
        joined(':'),
        mark(':'),
        word("std"@),
        joined(':'),
        mark(':'),
        word(a),
        joined(':'),
        mark(':'),
        word(b),
    ]
}

/// The path `::std::a::b::c`.
pub open spec fn std3(a: Seq<char>, b: Seq<char>, c: Seq<char>) -> Seq<Tok> {
    std2(a, b) + seq![joined(':'), mark(':'), word(c)]
}

/// Several runs, one after the other.
pub open spec fn flat<A>(parts: Seq<Seq<A>>) -> Seq<A>
    decreases parts.len(),
{
    if parts.len() == 0 {
        Seq::empty()
    } else {
        flat(parts.drop_last()) + parts.last()
    }
}

/// One more run at the end comes last.
pub proof fn lemma_flat_push<A>(parts: Seq<Seq<A>>, last: Seq<A>)
    ensures
        flat(parts.push(last)) == flat(parts) + last,
{
    assert(parts.push(last).drop_last() =~= parts);
}

/// Several runs with a punctuation character between each two.
pub open spec fn separated(parts: Seq<Seq<Tok>>, sep: char) -> Seq<Tok> {
    flat(
        Seq::new(
            parts.len(),
            |i: int|
                if i == 0 {
                    parts[i]
                } else {
                    seq![mark(sep)] + parts[i]
                },
        ),
    )
}

/// One more run comes after a separator, unless it is the first.
pub proof fn lemma_separated_push(parts: Seq<Seq<Tok>>, last: Seq<Tok>, sep: char)
    ensures
        separated(parts.push(last), sep) == separated(parts, sep) + if parts.len() == 0 {
            last
        } else {
            seq![mark(sep)] + last
        },
{
    let before = Seq::new(
        parts.len(),
        |i: int|
            if i == 0 {
                parts[i]
            } else {
                seq![mark(sep)] + parts[i]
            },
    );
    let after = Seq::new(
        parts.push(last).len(),
        |i: int|
            if i == 0 {
                parts.push(last)[i]
            } else {
                seq![mark(sep)] + parts.push(last)[i]
            },
    );
    let added = if parts.len() == 0 {
        last
    } else {
        seq![mark(sep)] + last
    };
    assert(after =~= before.push(added));
    lemma_flat_push(before, added);
}

/// A run of tokens under construction.
pub struct Stream {
    pub trees: Vec<TokenTree>,
}

impl View for Stream {
    type V = Seq<Tok>;

    open spec fn view(&self) -> Seq<Tok> {
        stream_view(self.trees@)
    }
}

impl Stream {
    /// An empty run.
    pub fn new() -> (r: Stream)
        ensures
            r@ == Seq::<Tok>::empty(),
    {
        let r = Stream { trees: Vec::new() };
        assert(r@ =~= Seq::<Tok>::empty());
        r
    }

    /// Adds a tree at the end.
    pub fn push(&mut self, t: TokenTree)
        ensures
            final(self)@ == old(self)@.push(t@),
    {
        proof {
            lemma_stream_view_push(self.trees@, t);
        }
        self.trees.push(t);
    }

    /// Adds an identifier with the given name and place.
    pub fn ident(&mut self, name: &str, span: Span)
        ensures
            final(self)@ == old(self)@.push(Tok::Ident { name: name@, span }),
    {
        self.push(TokenTree::Ident { name: name.to_owned(), span });
    }

    /// Adds an identifier or keyword at the call site.
    pub fn word(&mut self, name: &str)
        ensures
            final(self)@ == old(self)@.push(word(name@)),
    {
        self.ident(name, Span::CallSite);
    }

    /// Adds a punctuation character that stands alone.
    pub fn mark(&mut self, ch: char)
        ensures
            final(self)@ == old(self)@.push(mark(ch)),
    {
        self.push(TokenTree::Punct { ch, joint: false, span: Span::CallSite });
    }

    /// Adds a punctuation character that the next one continues.
    pub fn joined(&mut self, ch: char)
        ensures
            final(self)@ == old(self)@.push(joined(ch)),
    {
        self.push(TokenTree::Punct { ch, joint: true, span: Span::CallSite });
    }

    /// Adds a string literal that stands for the given text.
    pub fn text(&mut self, value: &str, span: Span)
        ensures
            final(self)@ == old(self)@.push(Tok::Str { value: value@, span }),
    {
        self.push(TokenTree::Str { value: value.to_owned(), span });
    }

    /// Adds the path `::std::a::b`.
    pub fn std2(&mut self, a: &str, b: &str)
        ensures
            final(self)@ == old(self)@ + std2(a@, b@),
    {
        self.joined(':');
        self.mark(':');
        self.word("std");
        self.joined(':');
        self.mark(':');
        self.word(a);
        self.joined(':');
        self.mark(':');
        self.word(b);
        assert(self@ =~= old(self)@ + std2(a@, b@));
    }

    /// Adds the path `::std::a::b::c`.
    pub fn std3(&mut self, a: &str, b: &str, c: &str)
        ensures
            final(self)@ == old(self)@ + std3(a@, b@, c@),
    {
        self.std2(a, b);
        self.joined(':');
        self.mark(':');
        self.word(c);
        assert(self@ =~= old(self)@ + std3(a@, b@, c@));
    }

    /// Adds the trees of another run, in brackets.
    pub fn group(&mut self, delimiter: Delimiter, inner: Stream)
        ensures
            final(self)@ == old(self)@.push(group(delimiter, inner@)),
    {
        let t = TokenTree::Group { delimiter, stream: inner.trees, span: Span::CallSite };
        proof {
            lemma_group_view(t);
        }
        self.push(t);
    }

    /// Adds the trees of another run at the end.
    pub fn extend(&mut self, more: Stream)
        ensures
            final(self)@ == old(self)@ + more@,
    {
        let mut rest = more.trees;
        proof {
            lemma_stream_view_add(self.trees@, rest@);
        }
        self.trees.append(&mut rest);
    }

    /// Adds copies of the given runs, with a punctuation character between
    /// each two.
    pub fn separated(&mut self, parts: &Vec<Vec<TokenTree>>, sep: char)
        ensures
            final(self)@ == old(self)@ + separated(streams_view(parts@), sep),
    {
        let ghost all = streams_view(parts@);
        let mut i: usize = 0;
        proof {
            assert(all.take(0) =~= Seq::<Seq<Tok>>::empty());
            assert(separated(all.take(0), sep) =~= Seq::<Tok>::empty());
            assert(self@ + Seq::<Tok>::empty() =~= self@);
        }
        while i < parts.len()
            invariant
                i <= parts.len(),
                all == streams_view(parts@),
                self@ == old(self)@ + separated(all.take(i as int), sep),
            decreases parts.len() - i,
        {
            proof {
                assert(all.take(i + 1) =~= all.take(i as int).push(stream_view(parts@[i as int]@)));
                lemma_separated_push(all.take(i as int), stream_view(parts@[i as int]@), sep);
            }
            if i > 0 {
                self.mark(sep);
            }
            self.copy(&parts[i]);
            assert(self@ =~= old(self)@ + separated(all.take(i + 1), sep));
            i += 1;
        }
        proof {
            assert(all.take(parts.len() as int) =~= all);
        }
    }

    /// Adds copies of the given trees at the end.
    pub fn copy(&mut self, more: &Vec<TokenTree>)
        ensures
            final(self)@ == old(self)@ + stream_view(more@),
    {
        let rest = copy_stream(more);
        self.extend(Stream { trees: rest });
    }
}

/// A token without its place: every place in it is the call site.
pub open spec fn bare(t: Tok) -> Tok
    decreases t,
{
    match t {
        Tok::Ident { name, .. } => Tok::Ident { name, span: Span::CallSite },
        Tok::Punct { ch, joint, .. } => Tok::Punct { ch, joint, span: Span::CallSite },
        Tok::Literal { text, .. } => Tok::Literal { text, span: Span::CallSite },
        Tok::Str { value, .. } => Tok::Str { value, span: Span::CallSite },
        Tok::Group { delimiter, stream, .. } => Tok::Group {
            delimiter,
            stream: Seq::new(
                stream.len(),
                |i: int|
                    if 0 <= i < stream.len() {
                        bare(stream[i])
                    } else {
                        arbitrary()
                    },
            ),
            span: Span::CallSite,
        },
        Tok::Verbatim { source, .. } => Tok::Verbatim { source, span: Span::CallSite },
    }
}

/// A run of tokens without their places.
pub open spec fn bare_stream(s: Seq<Tok>) -> Seq<Tok> {
    Seq::new(s.len(), |i: int| bare(s[i]))
}

/// Whether two runs of tokens are the same but for where they stand.
pub open spec fn same_text(a: Seq<Tok>, b: Seq<Tok>) -> bool {
    bare_stream(a) == bare_stream(b)
}

/// Whether two tokens are the same but for where they stand.
pub fn same_tree(a: &TokenTree, b: &TokenTree) -> (r: bool)
    ensures
        r == (bare(a@) == bare(b@)),
    decreases a,
{
    match (a, b) {
        (TokenTree::Ident { name: x, .. }, TokenTree::Ident { name: y, .. }) => *x == *y,
        (
            TokenTree::Punct { ch: x, joint: p, .. },
            TokenTree::Punct { ch: y, joint: q, .. },
        ) => *x == *y && *p == *q,
        (TokenTree::Literal { text: x, .. }, TokenTree::Literal { text: y, .. }) => *x == *y,
        (TokenTree::Str { value: x, .. }, TokenTree::Str { value: y, .. }) => *x == *y,
        (TokenTree::Verbatim { source: x, .. }, TokenTree::Verbatim { source: y, .. }) => *x == *y,
        (
            TokenTree::Group { delimiter: d, stream: x, .. },
            TokenTree::Group { delimiter: e, stream: y, .. },
        ) => {
            proof {
                lemma_group_view(*a);
                lemma_group_view(*b);
                assert(bare(a@)->stream =~= bare_stream(stream_view(x@)));
                assert(bare(b@)->stream =~= bare_stream(stream_view(y@)));
            }
            let same = same_stream(x, y);
            *d == *e && same
        },
        _ => false,
    }
}

/// Whether two runs of tokens are the same but for where they stand.
pub fn same_stream(a: &Vec<TokenTree>, b: &Vec<TokenTree>) -> (r: bool)
    ensures
        r == same_text(stream_view(a@), stream_view(b@)),
    decreases a,
{
    let ghost x = bare_stream(stream_view(a@));
    let ghost y = bare_stream(stream_view(b@));
    if a.len() != b.len() {
        assert(x.len() != y.len());
        return false;
    }
    let mut i: usize = 0;
    while i < a.len()
        invariant
            i <= a.len(),
            a.len() == b.len(),
            x == bare_stream(stream_view(a@)),
            y == bare_stream(stream_view(b@)),
            forall|k: int| 0 <= k < i ==> x[k] == y[k],
        decreases a.len() - i,
    {
        if !same_tree(&a[i], &b[i]) {
            assert(x[i as int] != y[i as int]);
            return false;
        }
        i += 1;
    }
    assert(x =~= y);
    true
}

} // verus!

//! The sequence macro: `name in a..b { template }` stands for the template
//! once for every number of the range, with the number in the place of the
//! name.

use vstd::prelude::*;
use crate::attrs::diagnostic;
use crate::number::{decimal, number_of, read_number, write_number};
use crate::model::{Diagnostic, DiagnosticV};
use crate::shape::name_is;
use crate::syntax::{is_reserved, reserved};
use crate::tokens::{
    copy_stream, flat, group, lemma_flat_push, lemma_group_view, lemma_stream_view_add, mark,
    stream_view, word, Delimiter, Span, Tok, TokenTree,
};

verus! {

/// A range of whole numbers.
#[derive(Clone, Copy, Debug, PartialEq, Eq, Structural)]
pub struct Range {
    pub start: u64,
    pub end: u64,
    /// Whether `end` belongs to the range, as in `start..=end`.
    pub inclusive: bool,
}

impl Range {
    /// The first number after the range, where the range is not empty.
    pub open spec fn stop(self) -> int {
        if self.inclusive {
            self.end + 1
        } else {
            self.end as int
        }
    }
}

/// What the macro is given.
#[derive(Debug, PartialEq, Eq)]
pub struct SeqData {
    /// The loop variable.
    pub ident: String,
    pub span: Span,
    pub range: Range,
    /// The template between the braces.
    pub token_stream: Vec<TokenTree>,
}

/// The mathematical value of a `SeqData`.
pub struct SeqDataV {
    pub ident: Seq<char>,
    pub span: Span,
    pub range: Range,
    pub token_stream: Seq<Tok>,
}

impl View for SeqData {
    type V = SeqDataV;

    open spec fn view(&self) -> SeqDataV {
        SeqDataV {
            ident: self.ident@,
            span: self.span,
            range: self.range,
            token_stream: stream_view(self.token_stream@),
        }
    }
}

/// A token with a number in the place of the loop variable: an identifier
/// with the variable's name becomes the number's literal at the same place,
/// a group is changed inside, and any other token stays.
pub open spec fn substitute(t: Tok, var: Seq<char>, n: nat) -> Tok
    decreases t,
{
    match t {
        Tok::Ident { name, span } => if name == var {
            Tok::Literal { text: decimal(n), span }
        } else {
            t
        },
        Tok::Group { delimiter, stream, span } => Tok::Group {
            delimiter,
            stream: Seq::new(
                stream.len(),
                |i: int|
                    if 0 <= i < stream.len() {
                        substitute(stream[i], var, n)
                    } else {
                        arbitrary()
                    },
            ),
            span,
        },
        _ => t,
    }
}

/// A template with a number in the place of the loop variable.
pub open spec fn instance(template: Seq<Tok>, var: Seq<char>, n: nat) -> Seq<Tok> {
    Seq::new(template.len(), |i: int| substitute(template[i], var, n))
}

/// The template once for every number from `start` up to, but without,
/// `stop`, in rising order.
pub open spec fn repeated(template: Seq<Tok>, var: Seq<char>, start: int, stop: int) -> Seq<Tok>
    decreases stop - start,
{
    if start >= stop || start < 0 {
        Seq::empty()
    } else {
        repeated(template, var, start, stop - 1) + instance(template, var, (stop - 1) as nat)
    }
}

/// What the macro stands for.
pub open spec fn expansion(data: SeqDataV) -> Seq<Tok> {
    repeated(data.token_stream, data.ident, data.range.start as int, data.range.stop())
}

/// Puts a number in the place of the loop variable in a token.
pub fn substitute_tree(t: &TokenTree, var: &str, n: u64) -> (r: TokenTree)
    ensures
        r@ == substitute(t@, var@, n as nat),
    decreases t,
{
    match t {
        TokenTree::Ident { name, span } => {
            if name_is(name, var) {
                TokenTree::Literal { text: write_number(n), span: *span }
            } else {
                TokenTree::Ident { name: name.clone(), span: *span }
            }
        },
        TokenTree::Group { delimiter, stream, span } => {
            let inner = substitute_stream(stream, var, n);
            let r = TokenTree::Group { delimiter: *delimiter, stream: inner, span: *span };
            proof {
                lemma_group_view(r);
                lemma_group_view(*t);
                assert(substitute(t@, var@, n as nat)->stream =~= instance(
                    stream_view(stream@),
                    var@,
                    n as nat,
                ));
            }
            r
        },
        TokenTree::Punct { ch, joint, span } => TokenTree::Punct {
            ch: *ch,
            joint: *joint,
            span: *span,
        },
        TokenTree::Literal { text, span } => TokenTree::Literal { text: text.clone(), span: *span },
        TokenTree::Str { value, span } => TokenTree::Str { value: value.clone(), span: *span },
        TokenTree::Verbatim { source, span } => TokenTree::Verbatim {
            source: source.clone(),
            span: *span,
        },
    }
}

/// Puts a number in the place of the loop variable in a template.
pub fn substitute_stream(template: &Vec<TokenTree>, var: &str, n: u64) -> (r: Vec<TokenTree>)
    ensures
        stream_view(r@) == instance(stream_view(template@), var@, n as nat),
    decreases template,
{
    let mut out: Vec<TokenTree> = Vec::new();
    let mut i: usize = 0;
    while i < template.len()
        invariant
            i <= template.len(),
            out@.len() == i,
            forall|k: int| 0 <= k < i ==> out@[k]@ == substitute(template@[k]@, var@, n as nat),
        decreases template.len() - i,
    {
        out.push(substitute_tree(&template[i], var, n));
        i += 1;
    }
    assert(stream_view(out@) =~= instance(stream_view(template@), var@, n as nat));
    out
}

/// Writes what the macro stands for.
pub fn expand(data: &SeqData) -> (r: Vec<TokenTree>)
    ensures
        stream_view(r@) == expansion(data@),
{
    let ghost template = stream_view(data.token_stream@);
    let ghost var = data.ident@;
    let start = data.range.start;
    let end = data.range.end;
    let mut out: Vec<TokenTree> = Vec::new();
    assert(stream_view(out@) =~= Seq::<Tok>::empty());
    if start > end || (start == end && !data.range.inclusive) {
        return out;
    }
    let mut n = start;
    while n < end
        invariant
            start <= n <= end,
            template == stream_view(data.token_stream@),
            var == data.ident@,
            stream_view(out@) == repeated(template, var, start as int, n as int),
        decreases end - n,
    {
        let mut next = substitute_stream(&data.token_stream, data.ident.as_str(), n);
        proof {
            lemma_stream_view_add(out@, next@);
        }
        out.append(&mut next);
        n += 1;
    }
    if data.range.inclusive {
        let mut next = substitute_stream(&data.token_stream, data.ident.as_str(), end);
        proof {
            lemma_stream_view_add(out@, next@);
        }
        out.append(&mut next);
    }
    out
}

/// The place of a token.
pub open spec fn span_of(t: Tok) -> Span {
    match t {
        Tok::Ident { span, .. } => span,
        Tok::Punct { span, .. } => span,
        Tok::Literal { span, .. } => span,
        Tok::Str { span, .. } => span,
        Tok::Group { span, .. } => span,
        Tok::Verbatim { span, .. } => span,
    }
}

/// An error at the token with the given index, or at the call site where
/// the input ends before it.
pub open spec fn error_at(tokens: Seq<Tok>, i: int, message: Seq<char>) -> DiagnosticV {
    DiagnosticV {
        span: if 0 <= i < tokens.len() {
            span_of(tokens[i])
        } else {
            Span::CallSite
        },
        message,
    }
}

/// Whether the token with the given index is the given punctuation.
pub open spec fn punct_at(tokens: Seq<Tok>, i: int, ch: char) -> bool {
    0 <= i < tokens.len() && tokens[i] is Punct && tokens[i]->ch == ch
}

/// The number at the given index: that of an integer literal that fits.
pub open spec fn number_at(tokens: Seq<Tok>, i: int) -> Option<u64> {
    if 0 <= i < tokens.len() && tokens[i] is Literal {
        number_of(tokens[i]->text)
    } else {
        None
    }
}

/// Whether the token with the given index is a group in braces.
pub open spec fn braces_at(tokens: Seq<Tok>, i: int) -> bool {
    0 <= i < tokens.len() && tokens[i] is Group && tokens[i]->delimiter == Delimiter::Brace
}

/// Whether the token with the given index can name a variable: whether it
/// is an identifier, and neither a keyword nor `_`.
pub open spec fn variable_at(tokens: Seq<Tok>, i: int) -> bool {
    0 <= i < tokens.len() && tokens[i] is Ident && !reserved(tokens[i]->name)
}

/// What the input of the macro reads as. The input is an identifier that
/// is no keyword, the word `in`, an integer literal, `..` or `..=`, an
/// integer literal, and a group in braces, and nothing after it; the first
/// token that is not what its place asks for gets the error.
pub open spec fn parsed(tokens: Seq<Tok>) -> Result<SeqDataV, DiagnosticV> {
    if !variable_at(tokens, 0) {
        Err(error_at(tokens, 0, "expected identifier"@))
    } else if !(tokens.len() > 1 && tokens[1] is Ident && tokens[1]->name == "in"@) {
        Err(error_at(tokens, 1, "expected `in`"@))
    } else if number_at(tokens, 2) is None {
        Err(error_at(tokens, 2, "expected integer literal"@))
    } else if !punct_at(tokens, 3, '.') {
        Err(error_at(tokens, 3, "expected `..`"@))
    } else if !punct_at(tokens, 4, '.') {
        Err(error_at(tokens, 4, "expected `..`"@))
    } else {
        let inclusive = punct_at(tokens, 5, '=');
        let at: int = if inclusive {
            6
        } else {
            5
        };
        if number_at(tokens, at) is None {
            Err(error_at(tokens, at, "expected integer literal"@))
        } else if !braces_at(tokens, at + 1) {
            Err(error_at(tokens, at + 1, "expected curly braces"@))
        } else if tokens.len() > at + 2 {
            Err(error_at(tokens, at + 2, "unexpected token"@))
        } else {
            Ok(
                SeqDataV {
                    ident: tokens[0]->name,
                    span: tokens[0]->Ident_span,
                    range: Range {
                        start: number_at(tokens, 2).unwrap(),
                        end: number_at(tokens, at).unwrap(),
                        inclusive,
                    },
                    token_stream: tokens[at + 1]->stream,
                },
            )
        }
    }
}

fn span_of_tree(t: &TokenTree) -> (r: Span)
    ensures
        r == span_of(t@),
{
    match t {
        TokenTree::Ident { span, .. } => *span,
        TokenTree::Punct { span, .. } => *span,
        TokenTree::Literal { span, .. } => *span,
        TokenTree::Str { span, .. } => *span,
        TokenTree::Group { span, .. } => *span,
        TokenTree::Verbatim { span, .. } => *span,
    }
}

fn fail_at(tokens: &Vec<TokenTree>, i: usize, message: &str) -> (r: Diagnostic)
    ensures
        r@ == error_at(stream_view(tokens@), i as int, message@),
{
    if i < tokens.len() {
        diagnostic(span_of_tree(&tokens[i]), message)
    } else {
        diagnostic(Span::CallSite, message)
    }
}

fn is_punct_at(tokens: &Vec<TokenTree>, i: usize, ch: char) -> (r: bool)
    ensures
        r == punct_at(stream_view(tokens@), i as int, ch),
{
    if i < tokens.len() {
        match &tokens[i] {
            TokenTree::Punct { ch: found, .. } => *found == ch,
            _ => false,
        }
    } else {
        false
    }
}

fn read_number_at(tokens: &Vec<TokenTree>, i: usize) -> (r: Option<u64>)
    ensures
        r == number_at(stream_view(tokens@), i as int),
{
    if i < tokens.len() {
        match &tokens[i] {
            TokenTree::Literal { text, .. } => read_number(text.as_str()),
            _ => None,
        }
    } else {
        None
    }
}

impl SeqData {
    /// Reads the input of the macro.
    pub fn parse(tokens: &Vec<TokenTree>) -> (r: Result<SeqData, Diagnostic>)
        ensures
            match parsed(stream_view(tokens@)) {
                Ok(v) => r matches Ok(data) && data@ == v,
                Err(v) => r matches Err(d) && d@ == v,
            },
    {
        let ghost toks = stream_view(tokens@);
        if tokens.len() == 0 {
            return Err(fail_at(tokens, 0, "expected identifier"));
        }
        let (ident, span) = match &tokens[0] {
            TokenTree::Ident { name, span } => (name.clone(), *span),
            _ => {
                return Err(fail_at(tokens, 0, "expected identifier"));
            },
        };
        if is_reserved(&ident) {
            return Err(fail_at(tokens, 0, "expected identifier"));
        }
        if tokens.len() < 2 {
            return Err(fail_at(tokens, 1, "expected `in`"));
        }
        let keyword = match &tokens[1] {
            TokenTree::Ident { name, .. } => name_is(name, "in"),
            _ => false,
        };
        if !keyword {
            return Err(fail_at(tokens, 1, "expected `in`"));
        }
        let start = match read_number_at(tokens, 2) {
            Some(n) => n,
            None => {
                return Err(fail_at(tokens, 2, "expected integer literal"));
            },
        };
        if !is_punct_at(tokens, 3, '.') {
            return Err(fail_at(tokens, 3, "expected `..`"));
        }
        if !is_punct_at(tokens, 4, '.') {
            return Err(fail_at(tokens, 4, "expected `..`"));
        }
        let inclusive = is_punct_at(tokens, 5, '=');
        let at: usize = if inclusive {
            6
        } else {
            5
        };
        let end = match read_number_at(tokens, at) {
            Some(n) => n,
            None => {
                return Err(fail_at(tokens, at, "expected integer literal"));
            },
        };
        if at + 1 >= tokens.len() {
            return Err(fail_at(tokens, at + 1, "expected curly braces"));
        }
        let template = match &tokens[at + 1] {
            TokenTree::Group { delimiter: Delimiter::Brace, stream, .. } => {
                proof {
                    lemma_group_view(tokens@[at + 1]);
                }
                copy_stream(stream)
            },
            _ => {
                return Err(fail_at(tokens, at + 1, "expected curly braces"));
            },
        };
        if tokens.len() > at + 2 {
            return Err(fail_at(tokens, at + 2, "unexpected token"));
        }
        Ok(SeqData { ident, span, range: Range { start, end, inclusive }, token_stream: template })
    }
}

/// What the macro makes of its input: what the input stands for, or the
/// error in it.
pub open spec fn expanded(tokens: Seq<Tok>) -> Result<Seq<Tok>, DiagnosticV> {
    match parsed(tokens) {
        Ok(data) => Ok(expansion(data)),
        Err(d) => Err(d),
    }
}

/// Expands the macro: the tokens that stand in its place, or the error to
/// report.
pub fn seq(input: &Vec<TokenTree>) -> (r: Result<Vec<TokenTree>, Diagnostic>)
    ensures
        match expanded(stream_view(input@)) {
            Ok(tokens) => r matches Ok(v) && stream_view(v@) == tokens,
            Err(d) => r matches Err(e) && e@ == d,
        },
{
    match SeqData::parse(input) {
        Ok(data) => Ok(expand(&data)),
        Err(d) => Err(d),
    }
}

/// What the macro stands for is the template for the first number of the
/// range, then for the next, and so on to the last.
pub proof fn law_unrolled(template: Seq<Tok>, var: Seq<char>, start: nat, count: nat)
    ensures
        repeated(template, var, start as int, (start + count) as int) == flat(
            Seq::new(count, |i: int| instance(template, var, (start + i) as nat)),
        ),
    decreases count,
{
    let all = Seq::new(count, |i: int| instance(template, var, (start + i) as nat));
    if count > 0 {
        let fewer = Seq::new((count - 1) as nat, |i: int| instance(template, var, (start + i) as nat));
        law_unrolled(template, var, start, (count - 1) as nat);
        assert(all =~= fewer.push(instance(template, var, (start + count - 1) as nat)));
        lemma_flat_push(fewer, instance(template, var, (start + count - 1) as nat));
    } else {
        assert(flat(all) =~= Seq::<Tok>::empty());
    }
}

/// The statement `callee(argument);`.
pub open spec fn call_statement(callee: Seq<char>, argument: Tok) -> Seq<Tok> {
    seq![word(callee), group(Delimiter::Parenthesis, seq![argument]), mark(';')]
}

/// For the template `f(N);` and the range `0..k`, the macro stands for
/// `f(0); f(1);` and so on to `f(k - 1);`, as if they were written out.
pub proof fn law_calls_written_out(callee: Seq<char>, var: Seq<char>, k: nat)
    requires
        callee != var,
    ensures
        repeated(call_statement(callee, word(var)), var, 0, k as int) == flat(
            Seq::new(
                k,
                |i: int|
                    call_statement(
                        callee,
                        Tok::Literal { text: decimal(i as nat), span: Span::CallSite },
                    ),
            ),
        ),
{
    let template = call_statement(callee, word(var));
    law_unrolled(template, var, 0, k);
    assert forall|i: int| 0 <= i < k implies #[trigger] instance(template, var, i as nat)
        == call_statement(
        callee,
        Tok::Literal { text: decimal(i as nat), span: Span::CallSite },
    ) by {
        let inner = seq![word(var)];
        let number = Tok::Literal { text: decimal(i as nat), span: Span::CallSite };
        assert(substitute(word(var), var, i as nat) == number);
        assert(substitute(word(callee), var, i as nat) == word(callee));
        assert(substitute(mark(';'), var, i as nat) == mark(';'));
        assert(template[1] == group(Delimiter::Parenthesis, inner));
        assert(inner[0] == word(var));
        let changed = substitute(template[1], var, i as nat);
        assert(changed->stream.len() == 1);
        assert(changed->stream[0] == substitute(inner[0], var, i as nat));
        assert(changed->stream =~= seq![
            Tok::Literal { text: decimal(i as nat), span: Span::CallSite },
        ]);
        assert(instance(template, var, i as nat) =~= call_statement(
            callee,
            Tok::Literal { text: decimal(i as nat), span: Span::CallSite },
        ));
    }
    assert(Seq::new(k, |i: int| instance(template, var, (0 + i) as nat)) =~= Seq::new(
        k,
        |i: int|
            call_statement(callee, Tok::Literal { text: decimal(i as nat), span: Span::CallSite }),
    ));
}

} // verus!

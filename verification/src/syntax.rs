//! What the parser of Rust syntax is asked, and the words that it keeps
//! for itself.

use vstd::prelude::*;
use vstd::string::StrSliceExecFns;
use crate::shape::name_is;

verus! {

/// Whether a character opens a group of tokens.
pub open spec fn opens_group(c: char) -> bool {
    c == '(' || c == '[' || c == '{'
}

/// Whether a text holds no character that opens a group of tokens.
pub open spec fn flat_text(text: Seq<char>) -> bool {
    forall|i: int| 0 <= i < text.len() ==> !opens_group(#[trigger] text[i])
}

/// Asks `syn::parse_str::<syn::Ident>` to read the text, and gives back the
/// text of the identifier that it read, if it read one. It reads one where
/// the text holds a single identifier that is neither a keyword nor `_`;
/// white space and comments round it are passed over, so what comes back
/// need not be what was given. Which texts hold an identifier is left to
/// the lexer at work, and nothing is claimed of the answer. Texts with
/// brackets are kept from it, as it goes as deep into the stack as they
/// nest.
#[verifier::external_body]
pub(crate) fn read_identifier(text: &str) -> (r: Option<String>)
    requires
        flat_text(text@),
{
    match syn::parse_str::<syn::Ident>(text) {
        Ok(identifier) => Some(identifier.to_string()),
        Err(_) => None,
    }
}

/// Whether a text can name a method: whether it holds no bracket and is,
/// character for character, an identifier as the parser reads it. The
/// parser decides, so a text may be refused whatever it holds.
pub fn can_name_method(text: &str) -> (r: bool)
    ensures
        r ==> flat_text(text@),
{
    let n = text.unicode_len();
    let mut i: usize = 0;
    while i < n
        invariant
            i <= n,
            n == text@.len(),
            forall|k: int| 0 <= k < i ==> !opens_group(#[trigger] text@[k]),
        decreases n - i,
    {
        let c = text.get_char(i);
        if c == '(' || c == '[' || c == '{' {
            return false;
        }
        i += 1;
    }
    match read_identifier(text) {
        Some(read) => name_is(&read, text),
        None => false,
    }
}

/// Whether a name is kept from variables: whether it is a keyword, in use
/// or set aside, or `_`.
pub open spec fn reserved(name: Seq<char>) -> bool {
    name == "_"@
        || name == "abstract"@
        || name == "as"@
        || name == "become"@
        || name == "box"@
        || name == "break"@
        || name == "const"@
        || name == "continue"@
        || name == "crate"@
        || name == "do"@
        || name == "else"@
        || name == "enum"@
        || name == "extern"@
        || name == "false"@
        || name == "final"@
        || name == "fn"@
        || name == "for"@
        || name == "if"@
        || name == "impl"@
        || name == "in"@
        || name == "let"@
        || name == "loop"@
        || name == "macro"@
        || name == "match"@
        || name == "mod"@
        || name == "move"@
        || name == "mut"@
        || name == "override"@
        || name == "priv"@
        || name == "pub"@
        || name == "ref"@
        || name == "return"@
        || name == "Self"@
        || name == "self"@
        || name == "static"@
        || name == "struct"@
        || name == "super"@
        || name == "trait"@
        || name == "true"@
        || name == "type"@
        || name == "typeof"@
        || name == "unsafe"@
        || name == "unsized"@
        || name == "use"@
        || name == "virtual"@
        || name == "where"@
        || name == "while"@
        || name == "yield"@
}

/// Whether a name is kept from variables.
pub fn is_reserved(name: &String) -> (r: bool)
    ensures
        r == reserved(name@),
{
    name_is(name, "_")
        || name_is(name, "abstract")
        || name_is(name, "as")
        || name_is(name, "become")
        || name_is(name, "box")
        || name_is(name, "break")
        || name_is(name, "const")
        || name_is(name, "continue")
        || name_is(name, "crate")
        || name_is(name, "do")
        || name_is(name, "else")
        || name_is(name, "enum")
        || name_is(name, "extern")
        || name_is(name, "false")
        || name_is(name, "final")
        || name_is(name, "fn")
        || name_is(name, "for")
        || name_is(name, "if")
        || name_is(name, "impl")
        || name_is(name, "in")
        || name_is(name, "let")
        || name_is(name, "loop")
        || name_is(name, "macro")
        || name_is(name, "match")
        || name_is(name, "mod")
        || name_is(name, "move")
        || name_is(name, "mut")
        || name_is(name, "override")
        || name_is(name, "priv")
        || name_is(name, "pub")
        || name_is(name, "ref")
        || name_is(name, "return")
        || name_is(name, "Self")
        || name_is(name, "self")
        || name_is(name, "static")
        || name_is(name, "struct")
        || name_is(name, "super")
        || name_is(name, "trait")
        || name_is(name, "true")
        || name_is(name, "type")
        || name_is(name, "typeof")
        || name_is(name, "unsafe")
        || name_is(name, "unsized")
        || name_is(name, "use")
        || name_is(name, "virtual")
        || name_is(name, "where")
        || name_is(name, "while")
        || name_is(name, "yield")
}

} // verus!

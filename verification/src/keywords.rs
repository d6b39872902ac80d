//! Escaping of namespace tags that collide with reserved words of the
//! output language.
//!
//! A tag equal to a reserved word cannot stand as a namespace identifier in
//! the emitted module; it is escaped by prefixing `n` and upper-casing its
//! first character, which always yields a distinct identifier, the same one
//! on every run.

use vstd::prelude::*;

use crate::name::upper_first;
use crate::strutil::chars_eq_str;
use crate::strutil::push_chars;
use crate::strutil::upper_char;

verus! {

/// Whether `s` is a reserved word of the output language.
pub open spec fn is_reserved(s: Seq<char>) -> bool {
    ||| s == "break"@
    ||| s == "case"@
    ||| s == "catch"@
    ||| s == "class"@
    ||| s == "const"@
    ||| s == "continue"@
    ||| s == "debugger"@
    ||| s == "default"@
    ||| s == "delete"@
    ||| s == "do"@
    ||| s == "else"@
    ||| s == "enum"@
    ||| s == "export"@
    ||| s == "extends"@
    ||| s == "false"@
    ||| s == "finally"@
    ||| s == "for"@
    ||| s == "function"@
    ||| s == "if"@
    ||| s == "implements"@
    ||| s == "import"@
    ||| s == "in"@
    ||| s == "instanceof"@
    ||| s == "interface"@
    ||| s == "let"@
    ||| s == "new"@
    ||| s == "null"@
    ||| s == "package"@
    ||| s == "private"@
    ||| s == "protected"@
    ||| s == "public"@
    ||| s == "return"@
    ||| s == "static"@
    ||| s == "super"@
    ||| s == "switch"@
    ||| s == "this"@
    ||| s == "throw"@
    ||| s == "true"@
    ||| s == "try"@
    ||| s == "typeof"@
    ||| s == "var"@
    ||| s == "void"@
    ||| s == "while"@
    ||| s == "with"@
    ||| s == "yield"@
}

/// The namespace identifier actually emitted for a tag: reserved words are
/// escaped by prefixing `n` and upper-casing the old first character.
pub open spec fn escaped_tag(s: Seq<char>) -> Seq<char> {
    if is_reserved(s) {
        seq!['n'] + upper_first(s)
    } else {
        s
    }
}

/// No reserved word is empty.
pub proof fn lemma_reserved_nonempty(s: Seq<char>)
    requires
        is_reserved(s),
    ensures
        s.len() > 0,
{
    reveal_strlit("break");
    reveal_strlit("case");
    reveal_strlit("catch");
    reveal_strlit("class");
    reveal_strlit("const");
    reveal_strlit("continue");
    reveal_strlit("debugger");
    reveal_strlit("default");
    reveal_strlit("delete");
    reveal_strlit("do");
    reveal_strlit("else");
    reveal_strlit("enum");
    reveal_strlit("export");
    reveal_strlit("extends");
    reveal_strlit("false");
    reveal_strlit("finally");
    reveal_strlit("for");
    reveal_strlit("function");
    reveal_strlit("if");
    reveal_strlit("implements");
    reveal_strlit("import");
    reveal_strlit("in");
    reveal_strlit("instanceof");
    reveal_strlit("interface");
    reveal_strlit("let");
    reveal_strlit("new");
    reveal_strlit("null");
    reveal_strlit("package");
    reveal_strlit("private");
    reveal_strlit("protected");
    reveal_strlit("public");
    reveal_strlit("return");
    reveal_strlit("static");
    reveal_strlit("super");
    reveal_strlit("switch");
    reveal_strlit("this");
    reveal_strlit("throw");
    reveal_strlit("true");
    reveal_strlit("try");
    reveal_strlit("typeof");
    reveal_strlit("var");
    reveal_strlit("void");
    reveal_strlit("while");
    reveal_strlit("with");
    reveal_strlit("yield");
}

/// Escaping a reserved tag yields a distinct identifier of one more
/// character, starting with `n`; and the escape is a pure function of the
/// tag, so it comes out the same on every run.
pub proof fn lemma_reserved_escape(s: Seq<char>)
    requires
        is_reserved(s),
    ensures
        escaped_tag(s) != s,
        escaped_tag(s).len() == s.len() + 1,
        escaped_tag(s)[0] == 'n',
{
    lemma_reserved_nonempty(s);
}

/// A tag that is no reserved word is emitted unchanged.
pub proof fn lemma_unreserved_escape(s: Seq<char>)
    requires
        !is_reserved(s),
    ensures
        escaped_tag(s) == s,
{
}

/// Whether this tag is a reserved word of the output language.
pub fn is_reserved_tag(tag: &Vec<char>) -> (r: bool)
    ensures
        r == is_reserved(tag@),
{
    chars_eq_str(tag, "break") || chars_eq_str(tag, "case") || chars_eq_str(tag, "catch")
        || chars_eq_str(tag, "class") || chars_eq_str(tag, "const") || chars_eq_str(
        tag,
        "continue",
    ) || chars_eq_str(tag, "debugger") || chars_eq_str(tag, "default") || chars_eq_str(
        tag,
        "delete",
    ) || chars_eq_str(tag, "do") || chars_eq_str(tag, "else") || chars_eq_str(tag, "enum")
        || chars_eq_str(tag, "export") || chars_eq_str(tag, "extends") || chars_eq_str(
        tag,
        "false",
    ) || chars_eq_str(tag, "finally") || chars_eq_str(tag, "for") || chars_eq_str(tag, "function")
        || chars_eq_str(tag, "if") || chars_eq_str(tag, "implements") || chars_eq_str(
        tag,
        "import",
    ) || chars_eq_str(tag, "in") || chars_eq_str(tag, "instanceof") || chars_eq_str(
        tag,
        "interface",
    ) || chars_eq_str(tag, "let") || chars_eq_str(tag, "new") || chars_eq_str(tag, "null")
        || chars_eq_str(tag, "package") || chars_eq_str(tag, "private") || chars_eq_str(
        tag,
        "protected",
    ) || chars_eq_str(tag, "public") || chars_eq_str(tag, "return") || chars_eq_str(tag, "static")
        || chars_eq_str(tag, "super") || chars_eq_str(tag, "switch") || chars_eq_str(tag, "this")
        || chars_eq_str(tag, "throw") || chars_eq_str(tag, "true") || chars_eq_str(tag, "try")
        || chars_eq_str(tag, "typeof") || chars_eq_str(tag, "var") || chars_eq_str(tag, "void")
        || chars_eq_str(tag, "while") || chars_eq_str(tag, "with") || chars_eq_str(tag, "yield")
}

/// The namespace identifier to emit for this tag.
pub fn escape_tag(tag: &Vec<char>) -> (r: Vec<char>)
    ensures
        r@ == escaped_tag(tag@),
{
    if is_reserved_tag(tag) {
        proof {
            lemma_reserved_nonempty(tag@);
        }
        let mut out: Vec<char> = Vec::new();
        out.push('n');
        out.push(upper_char(tag[0]));
        let n: usize = tag.len();
        let mut i: usize = 1;
        while i < n
            invariant
                1 <= i <= n,
                n == tag@.len(),
                out@ == seq!['n', crate::strutil::to_upper_char(tag@[0])] + tag@.subrange(
                    1,
                    i as int,
                ),
            decreases n - i,
        {
            out.push(tag[i]);
            proof {
                assert(seq!['n', crate::strutil::to_upper_char(tag@[0])] + tag@.subrange(
                    1,
                    i + 1 as int,
                ) =~= (seq!['n', crate::strutil::to_upper_char(tag@[0])] + tag@.subrange(
                    1,
                    i as int,
                )).push(tag@[i as int]));
            }
            i += 1;
        }
        proof {
            assert(out@ =~= seq!['n'] + upper_first(tag@));
        }
        out
    } else {
        let mut out: Vec<char> = Vec::new();
        push_chars(&mut out, tag);
        proof {
            assert(out@ =~= tag@);
        }
        out
    }
}

} // verus!

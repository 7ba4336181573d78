//! Escaping text for Pango markup.
use vstd::prelude::*;
use crate::text::{chars_of, replace, replace_exec, string_of};

verus! {

/// `text` with `&`, `<`, `>`, `"` and `'` written as entities, replaced in
/// that order.
pub open spec fn escaped(text: Seq<char>) -> Seq<char> {
    replace(
        replace(
            replace(replace(replace(text, "&"@, "&amp;"@), "<"@, "&lt;"@), ">"@, "&gt;"@),
            "\""@,
            "&quot;"@,
        ),
        "'"@,
        "&apos;"@,
    )
}

/// Escapes the characters that markup gives a meaning to.
pub fn escape_markup(text: &str) -> (r: String)
    ensures
        r@ == escaped(text@),
{
    proof {
        reveal_strlit("&");
        reveal_strlit("<");
        reveal_strlit(">");
        reveal_strlit("\"");
        reveal_strlit("'");
    }
    let a = replace_exec(&chars_of(text), &chars_of("&"), &chars_of("&amp;"));
    let b = replace_exec(&a, &chars_of("<"), &chars_of("&lt;"));
    let c = replace_exec(&b, &chars_of(">"), &chars_of("&gt;"));
    let d = replace_exec(&c, &chars_of("\""), &chars_of("&quot;"));
    let e = replace_exec(&d, &chars_of("'"), &chars_of("&apos;"));
    string_of(&e)
}

} // verus!

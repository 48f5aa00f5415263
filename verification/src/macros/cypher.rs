use vstd::prelude::*;

use crate::text::{chars_of, replace_all, replace_pair, string_of, trim, trim_chars};

verus! {

/// The space tidying that both Cypher macros apply to token text, before
/// the final collapse of double spaces: no space before `,`, `:`, `)`,
/// `]`, `}`, and none after `:`, `(`, `[`, `{`.
pub open spec fn tidy_punctuation(s: Seq<char>) -> Seq<char> {
    let s = replace_all(s, seq![' ', ','], seq![',']);
    let s = replace_all(s, seq![' ', ':'], seq![':']);
    let s = replace_all(s, seq![':', ' '], seq![':']);
    let s = replace_all(s, seq!['(', ' '], seq!['(']);
    let s = replace_all(s, seq![' ', ')'], seq![')']);
    let s = replace_all(s, seq!['[', ' '], seq!['[']);
    let s = replace_all(s, seq![' ', ']'], seq![']']);
    let s = replace_all(s, seq!['{', ' '], seq!['{']);
    replace_all(s, seq![' ', '}'], seq!['}'])
}

/// A piece of a Cypher block's text: code, whose spacing is normalized,
/// or the text of a literal token, which is kept exactly as written.
pub enum Piece {
    Code(String),
    Literal(String),
}

/// The normalized text of a code piece: punctuation tidied, with `$ `
/// closed up to `$` when `query` (as `cypher_query!` does), then double
/// spaces collapsed once.
pub open spec fn code_text(s: Seq<char>, query: bool) -> Seq<char> {
    let t = tidy_punctuation(s);
    let t = if query {
        replace_all(t, seq!['$', ' '], seq!['$'])
    } else {
        t
    };
    replace_all(t, seq![' ', ' '], seq![' '])
}

/// The text a piece contributes: normalized code, or the literal unchanged.
pub open spec fn piece_text(p: Piece, query: bool) -> Seq<char> {
    match p {
        Piece::Code(s) => code_text(s@, query),
        Piece::Literal(s) => s@,
    }
}

/// The pieces' texts, concatenated in order.
pub open spec fn joined_text(ps: Seq<Piece>, query: bool) -> Seq<char>
    decreases ps.len(),
{
    if ps.len() == 0 {
        Seq::empty()
    } else {
        joined_text(ps.drop_last(), query) + piece_text(ps.last(), query)
    }
}

/// The Cypher text `cypher!` produces: each code piece normalized, each
/// literal kept as written, the whole trimmed.
pub open spec fn cypher_text(ps: Seq<Piece>) -> Seq<char> {
    trim(joined_text(ps, false))
}

/// Apply the punctuation tidying to a character sequence.
pub fn tidy(cs: &Vec<char>) -> (r: Vec<char>)
    ensures
        r@ == tidy_punctuation(cs@),
{
    let s = replace_pair(cs, ' ', ',', ',');
    let s = replace_pair(&s, ' ', ':', ':');
    let s = replace_pair(&s, ':', ' ', ':');
    let s = replace_pair(&s, '(', ' ', '(');
    let s = replace_pair(&s, ' ', ')', ')');
    let s = replace_pair(&s, '[', ' ', '[');
    let s = replace_pair(&s, ' ', ']', ']');
    let s = replace_pair(&s, '{', ' ', '{');
    replace_pair(&s, ' ', '}', '}')
}

/// The normalized text of one code piece.
fn code_chars(s: &str, query: bool) -> (r: Vec<char>)
    ensures
        r@ == code_text(s@, query),
{
    let cs = chars_of(s);
    let t = tidy(&cs);
    let t = if query {
        replace_pair(&t, '$', ' ', '$')
    } else {
        t
    };
    replace_pair(&t, ' ', ' ', ' ')
}

/// Normalize the pieces of a Cypher block and trim the result.
pub(crate) fn normalize(pieces: &Vec<Piece>, query: bool) -> (r: String)
    ensures
        r@ == trim(joined_text(pieces@, query)),
{
    let n = pieces.len();
    let mut out: Vec<char> = Vec::new();
    let mut i: usize = 0;
    while i < n
        invariant
            n == pieces@.len(),
            i <= n,
            out@ == joined_text(pieces@.take(i as int), query),
        decreases n - i,
    {
        let mut part = match &pieces[i] {
            Piece::Code(s) => code_chars(s.as_str(), query),
            Piece::Literal(s) => chars_of(s.as_str()),
        };
        assert(pieces@.take(i + 1).drop_last() =~= pieces@.take(i as int));
        assert(pieces@.take(i + 1).last() == pieces@[i as int]);
        out.append(&mut part);
        i = i + 1;
    }
    assert(pieces@.take(n as int) =~= pieces@);
    let t = trim_chars(&out);
    string_of(&t)
}

/// Normalize a Cypher block into a query string, as `cypher!` does.
pub fn expand(pieces: &Vec<Piece>) -> (r: String)
    ensures
        r@ == cypher_text(pieces@),
{
    normalize(pieces, false)
}

} // verus!

use vstd::prelude::*;

use crate::macros::cypher::{code_text, cypher_text, joined_text, normalize, tidy_punctuation, Piece};
use crate::text::{lemma_replace_absent, lemma_replace_char_keeps_absent, replace_all, trim};

verus! {

/// A token of a Cypher block: an identifier, a punctuation character, a
/// literal, or a delimited group of tokens.
pub enum Token {
    Ident(String),
    Punct(char),
    Literal(String),
    Group(Vec<Token>),
}

/// The names of the `$ident` parameters of a token list, in order of
/// occurrence, groups searched where they stand; a `$` not followed by an
/// identifier names nothing.
pub open spec fn occurrences(ts: Seq<Token>) -> Seq<Seq<char>>
    decreases ts,
{
    if ts.len() == 0 {
        Seq::empty()
    } else {
        match ts[0] {
            Token::Punct(c) => if c == '$' && ts.len() > 1 && ts[1] is Ident {
                seq![ts[1]->Ident_0@] + occurrences(ts.skip(2))
            } else {
                occurrences(ts.skip(1))
            },
            Token::Group(inner) => occurrences(inner@) + occurrences(ts.skip(1)),
            _ => occurrences(ts.skip(1)),
        }
    }
}

/// `acc` extended by each of `names` not already in it, in order.
pub open spec fn add_names(acc: Seq<Seq<char>>, names: Seq<Seq<char>>) -> Seq<Seq<char>>
    decreases names.len(),
{
    if names.len() == 0 {
        acc
    } else {
        let a = add_names(acc, names.drop_last());
        if a.contains(names.last()) {
            a
        } else {
            a.push(names.last())
        }
    }
}

/// The texts of a sequence of strings.
pub open spec fn texts(s: Seq<String>) -> Seq<Seq<char>> {
    s.map_values(|x: String| x@)
}

/// Adding names in two steps is adding them at once.
pub proof fn lemma_add_names_concat(acc: Seq<Seq<char>>, a: Seq<Seq<char>>, b: Seq<Seq<char>>)
    ensures
        add_names(acc, a + b) == add_names(add_names(acc, a), b),
    decreases b.len(),
{
    if b.len() == 0 {
        assert(a + b =~= a);
    } else {
        assert((a + b).drop_last() =~= a + b.drop_last());
        lemma_add_names_concat(acc, a, b.drop_last());
    }
}

/// Adding names never removes or reorders a name already there, and adds
/// no name twice.
pub proof fn lemma_add_names_distinct(acc: Seq<Seq<char>>, names: Seq<Seq<char>>)
    requires
        acc.no_duplicates(),
    ensures
        add_names(acc, names).no_duplicates(),
        forall|x: Seq<char>| #[trigger] add_names(acc, names).contains(x) <==> (acc.contains(x) || names.contains(x)),
    decreases names.len(),
{
    if names.len() > 0 {
        lemma_add_names_distinct(acc, names.drop_last());
        let a = add_names(acc, names.drop_last());
        assert forall|x: Seq<char>| #[trigger] add_names(acc, names).contains(x) <==> (acc.contains(x)
            || names.contains(x)) by {
            if names.contains(x) && !names.drop_last().contains(x) {
                let j = choose|j: int| 0 <= j < names.len() && names[j] == x;
                if j < names.len() - 1 {
                    assert(names.drop_last()[j] == x);
                }
                assert(x == names.last());
            }
            if names.drop_last().contains(x) {
                let j = choose|j: int| 0 <= j < names.drop_last().len() && names.drop_last()[j] == x;
                assert(names[j] == x);
            }
            if !a.contains(names.last()) {
                if add_names(acc, names).contains(x) && x != names.last() {
                    let j = choose|j: int| 0 <= j < a.push(names.last()).len() && a.push(names.last())[j] == x;
                    assert(a[j] == x);
                }
                if a.contains(x) {
                    let j = choose|j: int| 0 <= j < a.len() && a[j] == x;
                    assert(a.push(names.last())[j] == x);
                }
                assert(a.push(names.last())[a.len() as int] == names.last());
            }
        }
    }
}

fn contains_text(params: &Vec<String>, name: &String) -> (r: bool)
    ensures
        r == texts(params@).contains(name@),
{
    let n = params.len();
    let mut i: usize = 0;
    while i < n
        invariant
            n == params@.len(),
            i <= n,
            forall|j: int| 0 <= j < i ==> params@[j]@ != name@,
        decreases n - i,
    {
        if params[i] == *name {
            assert(texts(params@)[i as int] == name@);
            return true;
        }
        i = i + 1;
    }
    assert forall|j: int| 0 <= j < texts(params@).len() implies texts(params@)[j] != name@ by {
        assert(texts(params@)[j] == params@[j]@);
    }
    false
}

/// Collect every `$ident` parameter of `tokens` (groups included) into
/// `params`, skipping names already there.
pub fn scan_params(tokens: &Vec<Token>, params: &mut Vec<String>)
    ensures
        texts(final(params)@) == add_names(texts(old(params)@), occurrences(tokens@)),
    decreases tokens,
{
    let ghost start = texts(params@);
    let n = tokens.len();
    let mut i: usize = 0;
    assert(tokens@.skip(0) =~= tokens@);
    assert(add_names(start, Seq::empty()) == start);
    while i < n
        invariant
            n == tokens@.len(),
            i <= n,
            add_names(texts(params@), occurrences(tokens@.skip(i as int))) == add_names(
                start,
                occurrences(tokens@),
            ),
        decreases n - i,
    {
        let ghost here = texts(params@);
        let ghost ts = tokens@.skip(i as int);
        assert(ts[0] == tokens@[i as int]);
        match &tokens[i] {
            Token::Punct(c) => {
                let mut taken = false;
                if *c == '$' && i + 1 < n {
                    match &tokens[i + 1] {
                        Token::Ident(name) => {
                            assert(ts[1] == tokens@[i + 1]);
                            assert(ts.skip(2) =~= tokens@.skip(i + 2));
                            proof {
                                lemma_add_names_concat(here, seq![name@], occurrences(ts.skip(2)));
                                assert(seq![name@].drop_last() =~= Seq::<Seq<char>>::empty());
                                assert(add_names(here, Seq::<Seq<char>>::empty()) == here);
                                assert(occurrences(ts) == seq![name@] + occurrences(ts.skip(2)));
                            }
                            if !contains_text(params, name) {
                                params.push(name.clone());
                                assert(texts(params@) =~= here.push(name@));
                            }
                            taken = true;
                        },
                        _ => {},
                    }
                }
                if taken {
                    i = i + 2;
                } else {
                    assert(ts.skip(1) =~= tokens@.skip(i + 1));
                    assert(occurrences(ts) == occurrences(ts.skip(1)));
                    i = i + 1;
                }
            },
            Token::Group(inner) => {
                assert(ts.skip(1) =~= tokens@.skip(i + 1));
                proof {
                    lemma_add_names_concat(here, occurrences(inner@), occurrences(ts.skip(1)));
                    assert(decreases_to!(tokens => tokens[i as int]));
                }
                scan_params(inner, params);
                assert(occurrences(ts) == occurrences(inner@) + occurrences(ts.skip(1)));
                i = i + 1;
            },
            _ => {
                assert(ts.skip(1) =~= tokens@.skip(i + 1));
                i = i + 1;
            },
        }
    }
    assert(tokens@.skip(n as int) =~= Seq::<Token>::empty());
}

/// The Cypher text `cypher_query!` produces: as `cypher!`, with `$ ` also
/// closed up to `$` in code pieces; literals are kept as written.
pub open spec fn query_text(ps: Seq<Piece>) -> Seq<char> {
    trim(joined_text(ps, true))
}

/// Without a `$`, a code piece normalizes the same for both macros.
proof fn lemma_code_without_dollar(s: Seq<char>)
    requires
        !s.contains('$'),
    ensures
        code_text(s, true) == code_text(s, false),
{
    let s1 = replace_all(s, seq![' ', ','], seq![',']);
    lemma_replace_char_keeps_absent(s, seq![' ', ','], ',', '$');
    let s2 = replace_all(s1, seq![' ', ':'], seq![':']);
    lemma_replace_char_keeps_absent(s1, seq![' ', ':'], ':', '$');
    let s3 = replace_all(s2, seq![':', ' '], seq![':']);
    lemma_replace_char_keeps_absent(s2, seq![':', ' '], ':', '$');
    let s4 = replace_all(s3, seq!['(', ' '], seq!['(']);
    lemma_replace_char_keeps_absent(s3, seq!['(', ' '], '(', '$');
    let s5 = replace_all(s4, seq![' ', ')'], seq![')']);
    lemma_replace_char_keeps_absent(s4, seq![' ', ')'], ')', '$');
    let s6 = replace_all(s5, seq!['[', ' '], seq!['[']);
    lemma_replace_char_keeps_absent(s5, seq!['[', ' '], '[', '$');
    let s7 = replace_all(s6, seq![' ', ']'], seq![']']);
    lemma_replace_char_keeps_absent(s6, seq![' ', ']'], ']', '$');
    let s8 = replace_all(s7, seq!['{', ' '], seq!['{']);
    lemma_replace_char_keeps_absent(s7, seq!['{', ' '], '{', '$');
    let t = replace_all(s8, seq![' ', '}'], seq!['}']);
    lemma_replace_char_keeps_absent(s8, seq![' ', '}'], '}', '$');
    assert(t == tidy_punctuation(s));
    assert(seq!['$', ' '][0] == '$');
    lemma_replace_absent(t, seq!['$', ' '], seq!['$']);
}

proof fn lemma_joined_without_dollar(ps: Seq<Piece>)
    requires
        forall|i: int| 0 <= i < ps.len() ==> (#[trigger] ps[i] matches Piece::Code(c) ==> !c@.contains('$')),
    ensures
        joined_text(ps, true) == joined_text(ps, false),
    decreases ps.len(),
{
    if ps.len() > 0 {
        lemma_joined_without_dollar(ps.drop_last());
        assert(ps.last() == ps[ps.len() - 1]);
        if let Piece::Code(c) = ps.last() {
            lemma_code_without_dollar(c@);
        }
    }
}

/// Where no code piece holds a `$`, `cypher_query!` normalizes the text
/// exactly as `cypher!` does.
pub proof fn lemma_query_text_without_params(ps: Seq<Piece>)
    requires
        forall|i: int| 0 <= i < ps.len() ==> (#[trigger] ps[i] matches Piece::Code(c) ==> !c@.contains('$')),
    ensures
        query_text(ps) == cypher_text(ps),
{
    lemma_joined_without_dollar(ps);
}

/// What `cypher_query!` generates from a token block: the normalized query
/// text and the parameter names to bind, each once, in order of first use.
pub struct QueryPlan {
    pub text: String,
    pub params: Vec<String>,
}

/// Expand a Cypher block (the pieces of its text and its tokens) into the
/// query text and the names of its parameters.
pub fn expand(pieces: &Vec<Piece>, tokens: &Vec<Token>) -> (r: QueryPlan)
    ensures
        r.text@ == query_text(pieces@),
        texts(r.params@) == add_names(Seq::empty(), occurrences(tokens@)),
        texts(r.params@).no_duplicates(),
        forall|x: Seq<char>| #[trigger] texts(r.params@).contains(x) <==> occurrences(tokens@).contains(x),
{
    let text = normalize(pieces, true);
    let mut params: Vec<String> = Vec::new();
    assert(texts(params@) =~= Seq::<Seq<char>>::empty());
    scan_params(tokens, &mut params);
    proof {
        lemma_add_names_distinct(Seq::empty(), occurrences(tokens@));
    }
    QueryPlan { text, params }
}

} // verus!

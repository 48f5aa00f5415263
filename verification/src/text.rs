use vstd::prelude::*;

verus! {

/// `s` with every non-overlapping occurrence of `pat`, scanning from the
/// left, replaced by `rep` (what `str::replace` does).
pub open spec fn replace_all(s: Seq<char>, pat: Seq<char>, rep: Seq<char>) -> Seq<char>
    decreases s.len(),
{
    if pat.len() == 0 || s.len() < pat.len() {
        s
    } else if s.take(pat.len() as int) == pat {
        rep + replace_all(s.skip(pat.len() as int), pat, rep)
    } else {
        seq![s[0]] + replace_all(s.skip(1), pat, rep)
    }
}

/// Unicode `White_Space`, the property `char::is_whitespace` tests.
pub open spec fn is_white(c: char) -> bool {
    ||| '\u{9}' <= c <= '\u{d}'
    ||| c == ' '
    ||| c == '\u{85}'
    ||| c == '\u{a0}'
    ||| c == '\u{1680}'
    ||| '\u{2000}' <= c <= '\u{200a}'
    ||| c == '\u{2028}'
    ||| c == '\u{2029}'
    ||| c == '\u{202f}'
    ||| c == '\u{205f}'
    ||| c == '\u{3000}'
}

/// The number of leading white-space characters of `s`.
pub open spec fn leading_white(s: Seq<char>) -> nat
    decreases s.len(),
{
    if s.len() == 0 || !is_white(s[0]) {
        0
    } else {
        1 + leading_white(s.skip(1))
    }
}

/// The number of trailing white-space characters of `s`.
pub open spec fn trailing_white(s: Seq<char>) -> nat
    decreases s.len(),
{
    if s.len() == 0 || !is_white(s.last()) {
        0
    } else {
        1 + trailing_white(s.drop_last())
    }
}

/// `s` without leading and trailing white space (what `str::trim` does).
pub open spec fn trim(s: Seq<char>) -> Seq<char> {
    let a = leading_white(s);
    if a == s.len() {
        Seq::empty()
    } else {
        s.subrange(a as int, s.len() - trailing_white(s))
    }
}

/// Appends one character to a string (`String::push`).
#[verifier::external_body]
fn push_char(s: &mut String, c: char)
    ensures
        final(s)@ == old(s)@.push(c),
{
    s.push(c)
}

/// The characters of a string, in order.
pub fn chars_of(s: &str) -> (r: Vec<char>)
    ensures
        r@ == s@,
{
    let n = s.unicode_len();
    let mut out: Vec<char> = Vec::new();
    let mut i: usize = 0;
    while i < n
        invariant
            n == s@.len(),
            i <= n,
            out@ == s@.take(i as int),
        decreases n - i,
    {
        out.push(s.get_char(i));
        assert(s@.take(i + 1) =~= s@.take(i as int).push(s@[i as int]));
        i = i + 1;
    }
    assert(s@.take(n as int) =~= s@);
    out
}

/// A string of the given characters.
pub fn string_of(cs: &Vec<char>) -> (r: String)
    ensures
        r@ == cs@,
{
    let mut out = String::new();
    let n = cs.len();
    let mut i: usize = 0;
    while i < n
        invariant
            n == cs@.len(),
            i <= n,
            out@ == cs@.take(i as int),
        decreases n - i,
    {
        push_char(&mut out, cs[i]);
        assert(cs@.take(i + 1) =~= cs@.take(i as int).push(cs@[i as int]));
        i = i + 1;
    }
    assert(cs@.take(n as int) =~= cs@);
    out
}

proof fn lemma_replace_step(s: Seq<char>, pat: Seq<char>, rep: Seq<char>, i: int)
    requires
        pat.len() > 0,
        0 <= i <= s.len(),
    ensures
        s.len() - i < pat.len() ==> replace_all(s.skip(i), pat, rep) == s.skip(i),
        s.len() - i >= pat.len() && s.skip(i).take(pat.len() as int) == pat ==> replace_all(
            s.skip(i),
            pat,
            rep,
        ) == rep + replace_all(s.skip(i + pat.len()), pat, rep),
        s.len() - i >= pat.len() && s.skip(i).take(pat.len() as int) != pat ==> replace_all(
            s.skip(i),
            pat,
            rep,
        ) == seq![s[i]] + replace_all(s.skip(i + 1), pat, rep),
{
    if i + pat.len() <= s.len() {
        assert(s.skip(i).skip(pat.len() as int) =~= s.skip(i + pat.len()));
    }
    if i + 1 <= s.len() {
        assert(s.skip(i).skip(1) =~= s.skip(i + 1));
    }
}

/// Replace every non-overlapping occurrence of the two characters `a b`,
/// scanning from the left, with `c`.
pub fn replace_pair(s: &Vec<char>, a: char, b: char, c: char) -> (r: Vec<char>)
    ensures
        r@ == replace_all(s@, seq![a, b], seq![c]),
{
    let ghost pat = seq![a, b];
    let ghost rep = seq![c];
    let n = s.len();
    let mut out: Vec<char> = Vec::new();
    let mut i: usize = 0;
    assert(s@.skip(0) =~= s@);
    while i < n
        invariant
            n == s@.len(),
            i <= n,
            pat == seq![a, b],
            rep == seq![c],
            out@ + replace_all(s@.skip(i as int), pat, rep) == replace_all(s@, pat, rep),
        decreases n - i,
    {
        proof {
            lemma_replace_step(s@, pat, rep, i as int);
        }
        if i + 1 < n && s[i] == a && s[i + 1] == b {
            assert(s@.skip(i as int).take(2) =~= pat);
            let ghost before = out@;
            out.push(c);
            assert(before + (rep + replace_all(s@.skip(i + 2), pat, rep)) =~= out@ + replace_all(
                s@.skip(i + 2),
                pat,
                rep,
            ));
            i = i + 2;
        } else {
            if i + 1 < n {
                assert(s@.skip(i as int).take(2) != pat) by {
                    if s@.skip(i as int).take(2) == pat {
                        assert(s@.skip(i as int).take(2)[0] == a);
                        assert(s@.skip(i as int).take(2)[1] == b);
                    }
                }
            }
            let ghost before = out@;
            out.push(s[i]);
            if i + 1 < n {
                assert(before + (seq![s@[i as int]] + replace_all(s@.skip(i + 1), pat, rep)) =~= out@
                    + replace_all(s@.skip(i + 1), pat, rep));
            } else {
                assert(s@.skip(i as int) =~= seq![s@[i as int]]);
                assert(s@.skip(i + 1) =~= Seq::<char>::empty());
                assert(out@ + replace_all(s@.skip(i + 1), pat, rep) =~= before + s@.skip(i as int));
            }
            i = i + 1;
        }
    }
    assert(s@.skip(n as int) =~= Seq::<char>::empty());
    assert(out@ + Seq::<char>::empty() =~= out@);
    out
}


/// Whether `c` is white space (`char::is_whitespace`).
pub fn is_white_char(c: char) -> (r: bool)
    ensures
        r == is_white(c),
{
    ('\u{9}' <= c && c <= '\u{d}') || c == ' ' || c == '\u{85}' || c == '\u{a0}' || c == '\u{1680}'
        || ('\u{2000}' <= c && c <= '\u{200a}') || c == '\u{2028}' || c == '\u{2029}' || c
        == '\u{202f}' || c == '\u{205f}' || c == '\u{3000}'
}

proof fn lemma_leading(s: Seq<char>, i: int)
    requires
        0 <= i <= s.len(),
        forall|j: int| 0 <= j < i ==> is_white(#[trigger] s[j]),
    ensures
        leading_white(s) == i + leading_white(s.skip(i)),
    decreases i,
{
    if i > 0 {
        assert(s.skip(1).skip(i - 1) =~= s.skip(i));
        lemma_leading(s.skip(1), i - 1);
    } else {
        assert(s.skip(0) =~= s);
    }
}

proof fn lemma_trailing(s: Seq<char>, i: int)
    requires
        0 <= i <= s.len(),
        forall|j: int| s.len() - i <= j < s.len() ==> is_white(#[trigger] s[j]),
    ensures
        trailing_white(s) == i + trailing_white(s.take(s.len() - i)),
    decreases i,
{
    if i > 0 {
        assert(s.drop_last().take(s.len() - i) =~= s.take(s.len() - i));
        lemma_trailing(s.drop_last(), i - 1);
    } else {
        assert(s.take(s.len() as int) =~= s);
    }
}

/// The characters without leading and trailing white space.
pub fn trim_chars(s: &Vec<char>) -> (r: Vec<char>)
    ensures
        r@ == trim(s@),
{
    let n = s.len();
    let mut a: usize = 0;
    while a < n && is_white_char(s[a])
        invariant
            n == s@.len(),
            a <= n,
            forall|j: int| 0 <= j < a ==> is_white(#[trigger] s@[j]),
        decreases n - a,
    {
        a = a + 1;
    }
    proof {
        lemma_leading(s@, a as int);
        if a < n {
            assert(s@.skip(a as int)[0] == s@[a as int]);
        }
    }
    if a == n {
        assert(s@.skip(n as int).len() == 0);
        return Vec::new();
    }
    let mut b: usize = n;
    while b > a && is_white_char(s[b - 1])
        invariant
            n == s@.len(),
            a < n,
            !is_white(s@[a as int]),
            a <= b <= n,
            forall|j: int| b <= j < n ==> is_white(#[trigger] s@[j]),
        decreases b,
    {
        b = b - 1;
    }
    proof {
        lemma_trailing(s@, n - b);
        assert(s@.take(b as int).len() > 0);
        assert(s@.take(b as int).last() == s@[b - 1]);
    }
    let mut out: Vec<char> = Vec::new();
    let mut i: usize = a;
    while i < b
        invariant
            a <= i <= b <= n,
            n == s@.len(),
            out@ == s@.subrange(a as int, i as int),
        decreases b - i,
    {
        out.push(s[i]);
        assert(s@.subrange(a as int, i + 1) =~= s@.subrange(a as int, i as int).push(s@[i as int]));
        i = i + 1;
    }
    out
}

/// A character absent from both parts is absent from their concatenation.
proof fn lemma_concat_absent(a: Seq<char>, b: Seq<char>, c: char)
    requires
        !a.contains(c),
        !b.contains(c),
    ensures
        !(a + b).contains(c),
{
    assert forall|i: int| 0 <= i < (a + b).len() implies (a + b)[i] != c by {
        if i < a.len() {
            assert((a + b)[i] == a[i]);
        } else {
            assert((a + b)[i] == b[i - a.len()]);
        }
    }
}

/// A one-character sequence holds only that character.
proof fn lemma_single_absent(x: char, c: char)
    requires
        x != c,
    ensures
        !seq![x].contains(c),
{
    assert forall|i: int| 0 <= i < seq![x].len() implies seq![x][i] != c by {
        assert(seq![x][i] == x);
    }
}

/// Dropping leading characters keeps a character absent.
proof fn lemma_skip_absent(s: Seq<char>, n: int, c: char)
    requires
        !s.contains(c),
        0 <= n <= s.len(),
    ensures
        !s.skip(n).contains(c),
{
    assert forall|i: int| 0 <= i < s.skip(n).len() implies s.skip(n)[i] != c by {
        assert(s.skip(n)[i] == s[i + n]);
    }
}

/// Replacing a pattern whose first character does not occur in the text
/// leaves the text unchanged.
pub proof fn lemma_replace_absent(s: Seq<char>, pat: Seq<char>, rep: Seq<char>)
    requires
        pat.len() > 0,
        !s.contains(pat[0]),
    ensures
        replace_all(s, pat, rep) == s,
    decreases s.len(),
{
    if s.len() >= pat.len() {
        assert(s.take(pat.len() as int) != pat) by {
            assert(s.take(pat.len() as int)[0] == s[0]);
            assert(s[0] != pat[0]);
        }
        lemma_skip_absent(s, 1, pat[0]);
        lemma_replace_absent(s.skip(1), pat, rep);
        assert(seq![s[0]] + s.skip(1) =~= s);
    }
}

/// A character that occurs neither in the text nor in the replacement does
/// not occur in the result.
pub proof fn lemma_replace_keeps_absent(s: Seq<char>, pat: Seq<char>, rep: Seq<char>, c: char)
    requires
        !s.contains(c),
        !rep.contains(c),
    ensures
        !replace_all(s, pat, rep).contains(c),
    decreases s.len(),
{
    if pat.len() == 0 || s.len() < pat.len() {
    } else if s.take(pat.len() as int) == pat {
        lemma_skip_absent(s, pat.len() as int, c);
        lemma_replace_keeps_absent(s.skip(pat.len() as int), pat, rep, c);
        lemma_concat_absent(rep, replace_all(s.skip(pat.len() as int), pat, rep), c);
    } else {
        lemma_skip_absent(s, 1, c);
        lemma_replace_keeps_absent(s.skip(1), pat, rep, c);
        assert(s[0] != c);
        lemma_single_absent(s[0], c);
        lemma_concat_absent(seq![s[0]], replace_all(s.skip(1), pat, rep), c);
    }
}

/// Replacing with a single character other than `c` keeps `c` absent.
pub proof fn lemma_replace_char_keeps_absent(s: Seq<char>, pat: Seq<char>, x: char, c: char)
    requires
        !s.contains(c),
        x != c,
    ensures
        !replace_all(s, pat, seq![x]).contains(c),
{
    lemma_single_absent(x, c);
    lemma_replace_keeps_absent(s, pat, seq![x], c);
}

/// Trimming leaves no white space at either end.
pub proof fn lemma_trim_ends(s: Seq<char>)
    ensures
        trim(s).len() == 0 || (!is_white(trim(s)[0]) && !is_white(trim(s).last())),
{
    lemma_leading_stops(s);
    lemma_trailing_stops(s);
    let a = leading_white(s);
    if a < s.len() {
        let t = trailing_white(s);
        lemma_white_bounds(s);
        assert(trim(s)[0] == s[a as int]);
        assert(trim(s).last() == s[s.len() - t - 1]);
    }
}

proof fn lemma_leading_stops(s: Seq<char>)
    ensures
        leading_white(s) <= s.len(),
        leading_white(s) < s.len() ==> !is_white(s[leading_white(s) as int]),
        forall|j: int| 0 <= j < leading_white(s) ==> is_white(#[trigger] s[j]),
    decreases s.len(),
{
    if s.len() > 0 && is_white(s[0]) {
        lemma_leading_stops(s.skip(1));
        assert forall|j: int| 0 <= j < leading_white(s) implies is_white(#[trigger] s[j]) by {
            if j > 0 {
                assert(s[j] == s.skip(1)[j - 1]);
            }
        }
    }
}

proof fn lemma_trailing_stops(s: Seq<char>)
    ensures
        trailing_white(s) <= s.len(),
        trailing_white(s) < s.len() ==> !is_white(s[s.len() - trailing_white(s) - 1]),
        forall|j: int| s.len() - trailing_white(s) <= j < s.len() ==> is_white(#[trigger] s[j]),
    decreases s.len(),
{
    if s.len() > 0 && is_white(s.last()) {
        lemma_trailing_stops(s.drop_last());
        assert forall|j: int| s.len() - trailing_white(s) <= j < s.len() implies is_white(#[trigger] s[j]) by {
            if j < s.len() - 1 {
                assert(s[j] == s.drop_last()[j]);
            }
        }
    }
}

proof fn lemma_white_bounds(s: Seq<char>)
    requires
        leading_white(s) < s.len(),
    ensures
        leading_white(s) + trailing_white(s) < s.len(),
{
    lemma_leading_stops(s);
    lemma_trailing_stops(s);
    let a = leading_white(s) as int;
    if a + trailing_white(s) >= s.len() {
        assert(is_white(s[a]));
    }
}

} // verus!

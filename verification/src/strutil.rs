//! Small string helpers shared by the path and parsing modules: pushing a
//! single character, equality of string slices, and splitting on a separator
//! character.

use vstd::prelude::*;
use vstd::string::StrSliceExecFns;

verus! {

/// Relies on `String::push`: appends exactly the given character to the end
/// of the string.
#[verifier::external_body]
pub fn push_char(s: &mut String, c: char)
    ensures
        final(s)@ == old(s)@.push(c),
{
    s.push(c);
}

/// Equality of two string slices, expressed over their character views.
pub fn str_eq(a: &str, b: &str) -> (r: bool)
    ensures
        r == (a@ == b@),
{
    let sa = a.to_owned();
    let sb = b.to_owned();
    sa == sb
}

/// Splitting a character sequence at every occurrence of `sep`, keeping empty
/// pieces, as `str::split` does on a one-character pattern: `a//b` gives
/// `a`, the empty piece, `b`; a sequence without the separator gives itself
/// as the only piece.
pub open spec fn split_chars(s: Seq<char>, sep: char) -> Seq<Seq<char>>
    decreases s.len(),
{
    if s.len() == 0 {
        seq![s]
    } else if s[0] == sep {
        seq![Seq::<char>::empty()] + split_chars(s.skip(1), sep)
    } else {
        let rest = split_chars(s.skip(1), sep);
        seq![seq![s[0]] + rest[0]] + rest.skip(1)
    }
}

/// A split has at least one piece.
pub proof fn lemma_split_nonempty(s: Seq<char>, sep: char)
    ensures
        split_chars(s, sep).len() >= 1,
    decreases s.len(),
{
    if s.len() == 0 {
    } else {
        lemma_split_nonempty(s.skip(1), sep);
    }
}

/// A sequence without the separator splits into itself alone.
pub proof fn lemma_split_no_sep(s: Seq<char>, sep: char)
    requires
        forall|i: int| 0 <= i < s.len() ==> s[i] != sep,
    ensures
        split_chars(s, sep) == seq![s],
    decreases s.len(),
{
    if s.len() == 0 {
    } else {
        lemma_split_no_sep(s.skip(1), sep);
        let rest = split_chars(s.skip(1), sep);
        assert(rest.skip(1) =~= Seq::<Seq<char>>::empty());
        assert(seq![s[0]] + rest[0] =~= s);
        assert(seq![seq![s[0]] + rest[0]] + rest.skip(1) =~= seq![s]);
    }
}

/// Splitting `piece + [sep] + rest` where `piece` holds no separator yields
/// `piece` followed by the split of `rest`.
pub proof fn lemma_split_step(piece: Seq<char>, rest: Seq<char>, sep: char)
    requires
        forall|i: int| 0 <= i < piece.len() ==> piece[i] != sep,
    ensures
        split_chars(piece + seq![sep] + rest, sep) == seq![piece] + split_chars(rest, sep),
    decreases piece.len(),
{
    let s = piece + seq![sep] + rest;
    if piece.len() == 0 {
        assert(s[0] == sep);
        assert(s.skip(1) =~= rest);
        assert(piece =~= Seq::<char>::empty());
        assert(seq![Seq::<char>::empty()] + split_chars(rest, sep) =~= seq![piece] + split_chars(
            rest,
            sep,
        ));
    } else {
        assert(s[0] == piece[0]);
        assert(s[0] != sep);
        assert(s.skip(1) =~= piece.skip(1) + seq![sep] + rest);
        lemma_split_step(piece.skip(1), rest, sep);
        let inner = split_chars(s.skip(1), sep);
        assert(inner == seq![piece.skip(1)] + split_chars(rest, sep));
        lemma_split_nonempty(rest, sep);
        assert(inner[0] == piece.skip(1));
        assert(seq![s[0]] + inner[0] =~= piece);
        assert(inner.skip(1) =~= split_chars(rest, sep));
        assert(seq![seq![s[0]] + inner[0]] + inner.skip(1) =~= seq![piece] + split_chars(
            rest,
            sep,
        ));
    }
}

/// The characters treated as whitespace when a line is tokenized: spaces and
/// tabs.
pub open spec fn is_ws(c: char) -> bool {
    c == ' ' || c == '\t'
}

/// The whitespace-separated tokens of a character sequence: the maximal runs
/// of non-whitespace characters, in order.
pub open spec fn tokens_of(s: Seq<char>) -> Seq<Seq<char>>
    decreases s.len(),
{
    if s.len() == 0 {
        Seq::empty()
    } else if is_ws(s[0]) {
        tokens_of(s.skip(1))
    } else {
        let rest = tokens_of(s.skip(1));
        if s.len() >= 2 && !is_ws(s[1]) {
            seq![seq![s[0]] + rest[0]] + rest.skip(1)
        } else {
            seq![seq![s[0]]] + rest
        }
    }
}

/// A nonempty run without whitespace, followed by nothing or by whitespace,
/// is the first token; the rest tokenizes on its own.
pub proof fn lemma_tokens_step(tok: Seq<char>, rest: Seq<char>)
    requires
        tok.len() > 0,
        forall|i: int| 0 <= i < tok.len() ==> !is_ws(tok[i]),
        rest.len() == 0 || is_ws(rest[0]),
    ensures
        tokens_of(tok + rest) == seq![tok] + tokens_of(rest),
    decreases tok.len(),
{
    let s = tok + rest;
    assert(s[0] == tok[0]);
    if tok.len() == 1 {
        assert(s.skip(1) =~= rest);
        if s.len() >= 2 {
            assert(s[1] == rest[0]);
        }
        assert(seq![s[0]] =~= tok);
        assert(seq![seq![s[0]]] + tokens_of(rest) =~= seq![tok] + tokens_of(rest));
    } else {
        assert(s.skip(1) =~= tok.skip(1) + rest);
        assert(s[1] == tok[1]);
        lemma_tokens_step(tok.skip(1), rest);
        let inner = tokens_of(s.skip(1));
        assert(inner == seq![tok.skip(1)] + tokens_of(rest));
        assert(inner[0] == tok.skip(1));
        assert(seq![s[0]] + inner[0] =~= tok);
        assert(inner.skip(1) =~= tokens_of(rest));
        assert(seq![seq![s[0]] + inner[0]] + inner.skip(1) =~= seq![tok] + tokens_of(rest));
    }
}

/// Splits a string into its whitespace-separated tokens.
pub fn split_tokens(s: &str) -> (r: Vec<String>)
    ensures
        r.deep_view() == tokens_of(s@),
{
    let n = s.unicode_len();
    let mut r: Vec<String> = Vec::new();
    let mut cur: String = String::new();
    let ghost mut start: int = 0int;
    let mut i: usize = 0;
    proof {
        assert(cur@ =~= s@.subrange(0, 0));
        assert(cur@ + s@.skip(0) =~= s@);
        assert(r.deep_view() + tokens_of(s@) =~= tokens_of(s@));
    }
    while i < n
        invariant
            i <= n,
            n == s@.len(),
            0 <= start <= i as int,
            cur@ == s@.subrange(start, i as int),
            forall|k: int| start <= k < i as int ==> !is_ws(s@[k]),
            tokens_of(s@) == r.deep_view() + tokens_of(cur@ + s@.skip(i as int)),
        decreases n - i,
    {
        let ghost r0 = r.deep_view();
        let ghost cur0 = cur@;
        let c = s.get_char(i);
        if c == ' ' || c == '\t' {
            if cur.as_str().unicode_len() > 0 {
                proof {
                    assert(s@.skip(i as int)[0] == s@[i as int]);
                    lemma_tokens_step(cur0, s@.skip(i as int));
                }
                r.push(cur);
                cur = String::new();
                proof {
                    assert(r.deep_view() =~= r0 + seq![cur0]);
                    assert(r.deep_view() + tokens_of(s@.skip(i as int)) =~= r0 + (seq![cur0]
                        + tokens_of(s@.skip(i as int))));
                }
            }
            proof {
                start = i as int + 1;
                assert(s@.skip(i as int)[0] == s@[i as int]);
                assert(s@.skip(i as int).skip(1) =~= s@.skip(i as int + 1));
                assert(cur@ + s@.skip(i as int) =~= s@.skip(i as int));
                assert(cur@ + s@.skip(start) =~= s@.skip(start));
                assert(cur@ =~= s@.subrange(start, start));
            }
        } else {
            push_char(&mut cur, c);
            proof {
                assert(cur@ =~= s@.subrange(start, i as int + 1));
                assert(cur@ + s@.skip(i as int + 1) =~= cur0 + s@.skip(i as int));
            }
        }
        i = i + 1;
    }
    let ghost rfin = r.deep_view();
    let ghost curfin = cur@;
    if cur.as_str().unicode_len() > 0 {
        proof {
            assert(curfin + s@.skip(n as int) =~= curfin + Seq::<char>::empty());
            assert(curfin + Seq::<char>::empty() =~= curfin);
            lemma_tokens_step(curfin, Seq::<char>::empty());
            assert(tokens_of(Seq::<char>::empty()) =~= Seq::<Seq<char>>::empty());
            assert(seq![curfin] + Seq::<Seq<char>>::empty() =~= seq![curfin]);
        }
        r.push(cur);
        proof {
            assert(r.deep_view() =~= rfin + seq![curfin]);
            assert(tokens_of(s@) =~= r.deep_view());
        }
    } else {
        proof {
            assert(curfin =~= Seq::<char>::empty());
            assert(curfin + s@.skip(n as int) =~= Seq::<char>::empty());
            assert(r.deep_view() + Seq::<Seq<char>>::empty() =~= r.deep_view());
        }
    }
    r
}

/// Splits a string at every occurrence of `sep`, keeping empty pieces, as
/// `str::split` does on a one-character pattern.
pub fn split_string(s: &str, sep: char) -> (r: Vec<String>)
    ensures
        r.deep_view() == split_chars(s@, sep),
{
    let n = s.unicode_len();
    let mut r: Vec<String> = Vec::new();
    let mut cur: String = String::new();
    let ghost mut start: int = 0int;
    let mut i: usize = 0;
    proof {
        assert(cur@ =~= s@.subrange(0, 0));
        assert(cur@ + s@.skip(0) =~= s@);
        assert(r.deep_view() + split_chars(s@, sep) =~= split_chars(s@, sep));
    }
    while i < n
        invariant
            i <= n,
            n == s@.len(),
            0 <= start <= i as int,
            cur@ == s@.subrange(start, i as int),
            forall|k: int| start <= k < i as int ==> s@[k] != sep,
            split_chars(s@, sep) == r.deep_view() + split_chars(cur@ + s@.skip(i as int), sep),
        decreases n - i,
    {
        let ghost r0 = r.deep_view();
        let ghost cur0 = cur@;
        let c = s.get_char(i);
        if c == sep {
            proof {
                assert(cur0 + s@.skip(i as int) =~= (cur0 + seq![sep]) + s@.skip(i as int + 1));
                lemma_split_step(cur0, s@.skip(i as int + 1), sep);
            }
            r.push(cur);
            cur = String::new();
            proof {
                start = i as int + 1;
                assert(r.deep_view() =~= r0 + seq![cur0]);
                assert(r.deep_view() + split_chars(s@.skip(start), sep) =~= r0 + (seq![cur0]
                    + split_chars(s@.skip(start), sep)));
                assert(cur@ + s@.skip(start) =~= s@.skip(start));
                assert(cur@ =~= s@.subrange(start, start));
            }
        } else {
            push_char(&mut cur, c);
            proof {
                assert(cur@ =~= s@.subrange(start, i as int + 1));
                assert(cur@ + s@.skip(i as int + 1) =~= cur0 + s@.skip(i as int));
            }
        }
        i = i + 1;
    }
    let ghost rfin = r.deep_view();
    let ghost curfin = cur@;
    proof {
        lemma_split_no_sep(curfin, sep);
        assert(curfin + s@.skip(n as int) =~= curfin);
        assert(rfin + seq![curfin] =~= rfin + split_chars(curfin + s@.skip(n as int), sep));
    }
    r.push(cur);
    proof {
        assert(r.deep_view() =~= rfin + seq![curfin]);
    }
    r
}

} // verus!

use vstd::prelude::*;
use crate::text::{chars_of, find_from, lemma_find_from, occurs_at, replace_all, replace_from};

verus! {

/// What one character becomes in a profile name passed on a command line or in a URL.
pub open spec fn encode_char(c: char) -> Seq<char> {
    if c == '\n' {
        seq!['%', '0', 'A']
    } else if c == '+' {
        seq!['%', '2', 'b']
    } else if c == '\r' {
        seq!['%', '0', 'D']
    } else if c == '\'' {
        seq!['%', '2', '7']
    } else if c == ' ' {
        seq!['%', '2', '0']
    } else if c == '#' {
        seq!['%', '2', '3']
    } else if c == '&' {
        seq!['^', '&']
    } else {
        seq![c]
    }
}

/// The encoding of a whole text: each character encoded in turn.
pub open spec fn url_encoded(s: Seq<char>) -> Seq<char>
    decreases s.len(),
{
    if s.len() == 0 {
        seq![]
    } else {
        encode_char(s[0]) + url_encoded(s.drop_first())
    }
}

/// The characters that never stand unencoded in an encoded text.
pub open spec fn is_reserved(c: char) -> bool {
    c == '\n' || c == '+' || c == '\r' || c == '\'' || c == ' ' || c == '#'
}

/// Encoding a concatenation is concatenating the encodings.
pub proof fn lemma_url_encoded_concat(a: Seq<char>, b: Seq<char>)
    ensures
        url_encoded(a + b) == url_encoded(a) + url_encoded(b),
    decreases a.len(),
{
    if a.len() == 0 {
        assert(a + b =~= b);
    } else {
        lemma_url_encoded_concat(a.drop_first(), b);
        assert((a + b).drop_first() =~= a.drop_first() + b);
        assert((a + b)[0] == a[0]);
        assert(encode_char(a[0]) + (url_encoded(a.drop_first()) + url_encoded(b))
            =~= encode_char(a[0]) + url_encoded(a.drop_first()) + url_encoded(b));
    }
}

/// Encoding one more character appends its encoding.
pub proof fn lemma_url_encoded_push(s: Seq<char>, c: char)
    ensures
        url_encoded(s.push(c)) == url_encoded(s) + encode_char(c),
{
    lemma_url_encoded_concat(s, seq![c]);
    assert(s.push(c) =~= s + seq![c]);
    let one = seq![c];
    assert(one.drop_first() =~= Seq::<char>::empty());
    assert(url_encoded(one.drop_first()) == Seq::<char>::empty());
    assert(one[0] == c);
    assert(url_encoded(one) =~= encode_char(c));
}

/// Escapes the characters of a profile name that would break the command line or URL
/// it is passed on: newline, `+`, carriage return, `'`, space and `#` become percent
/// escapes, and `&` becomes `^&`.
pub fn url_encode(data: String) -> (r: String)
    ensures
        r@ == url_encoded(data@),
{
    let v = chars_of(data.as_str());
    let mut out = String::new();
    let mut i: usize = 0;
    while i < v.len()
        invariant
            v@ == data@,
            i <= v.len(),
            out@ == url_encoded(v@.take(i as int)),
        decreases v.len() - i,
    {
        let c = v[i];
        proof {
            lemma_url_encoded_push(v@.take(i as int), c);
            assert(v@.take(i as int).push(c) =~= v@.take(i + 1));
        }
        if c == '\n' {
            out.push('%');
            out.push('0');
            out.push('A');
        } else if c == '+' {
            out.push('%');
            out.push('2');
            out.push('b');
        } else if c == '\r' {
            out.push('%');
            out.push('0');
            out.push('D');
        } else if c == '\'' {
            out.push('%');
            out.push('2');
            out.push('7');
        } else if c == ' ' {
            out.push('%');
            out.push('2');
            out.push('0');
        } else if c == '#' {
            out.push('%');
            out.push('2');
            out.push('3');
        } else if c == '&' {
            out.push('^');
            out.push('&');
        } else {
            out.push(c);
        }
        assert(out@ =~= url_encoded(v@.take(i as int)) + encode_char(c));
        i = i + 1;
    }
    assert(v@.take(v.len() as int) =~= v@);
    out
}

/// An encoded text holds none of the escaped characters unencoded, and every `&`
/// in it is escaped by a `^` in front.
pub proof fn lemma_url_encoded_escapes(s: Seq<char>)
    ensures
        forall|i: int| 0 <= i < url_encoded(s).len() ==> !is_reserved(#[trigger] url_encoded(s)[i]),
        forall|i: int|
            0 <= i < url_encoded(s).len() && #[trigger] url_encoded(s)[i] == '&' ==> i > 0
                && url_encoded(s)[i - 1] == '^',
    decreases s.len(),
{
    if s.len() > 0 {
        lemma_url_encoded_escapes(s.drop_first());
        let e = encode_char(s[0]);
        let rest = url_encoded(s.drop_first());
        let whole = url_encoded(s);
        assert(whole == e + rest);
        assert forall|i: int| 0 <= i < whole.len() implies !is_reserved(#[trigger] whole[i]) by {
            if i >= e.len() {
                assert(whole[i] == rest[i - e.len()]);
            }
        }
        assert forall|i: int| 0 <= i < whole.len() && #[trigger] whole[i] == '&' implies i > 0
            && whole[i - 1] == '^' by {
            if i >= e.len() {
                assert(whole[i] == rest[i - e.len()]);
                if i - e.len() > 0 {
                    assert(whole[i - 1] == rest[i - 1 - e.len()]);
                } else {
                    assert(rest[0] != '&');
                }
            }
        }
    }
}

} // verus!

verus! {

/// `s` with every character `c` replaced by `r`.
pub open spec fn subst_char(s: Seq<char>, c: char, r: Seq<char>) -> Seq<char>
    decreases s.len(),
{
    if s.len() == 0 {
        seq![]
    } else {
        (if s[0] == c {
            r
        } else {
            seq![s[0]]
        }) + subst_char(s.drop_first(), c, r)
    }
}

/// The seven replacements, in the order in which the escapes are applied one
/// after the other with `str::replace`.
pub open spec fn replacement_chain(s: Seq<char>) -> Seq<char> {
    let s1 = replace_all(s, seq!['\n'], seq!['%', '0', 'A']);
    let s2 = replace_all(s1, seq!['+'], seq!['%', '2', 'b']);
    let s3 = replace_all(s2, seq!['\r'], seq!['%', '0', 'D']);
    let s4 = replace_all(s3, seq!['\''], seq!['%', '2', '7']);
    let s5 = replace_all(s4, seq![' '], seq!['%', '2', '0']);
    let s6 = replace_all(s5, seq!['#'], seq!['%', '2', '3']);
    replace_all(s6, seq!['&'], seq!['^', '&'])
}

proof fn lemma_subst_concat(a: Seq<char>, b: Seq<char>, c: char, r: Seq<char>)
    ensures
        subst_char(a + b, c, r) == subst_char(a, c, r) + subst_char(b, c, r),
    decreases a.len(),
{
    if a.len() == 0 {
        assert(a + b =~= b);
    } else {
        lemma_subst_concat(a.drop_first(), b, c, r);
        assert((a + b).drop_first() =~= a.drop_first() + b);
        assert((a + b)[0] == a[0]);
        let h = if a[0] == c {
            r
        } else {
            seq![a[0]]
        };
        assert(h + (subst_char(a.drop_first(), c, r) + subst_char(b, c, r)) =~= h + subst_char(
            a.drop_first(),
            c,
            r,
        ) + subst_char(b, c, r));
    }
}

proof fn lemma_subst_absent(s: Seq<char>, c: char, r: Seq<char>)
    requires
        forall|i: int| 0 <= i < s.len() ==> s[i] != c,
    ensures
        subst_char(s, c, r) == s,
    decreases s.len(),
{
    if s.len() > 0 {
        lemma_subst_absent(s.drop_first(), c, r);
        assert(seq![s[0]] + s.drop_first() =~= s);
    }
}

proof fn lemma_subst_single(x: char, c: char, r: Seq<char>)
    ensures
        subst_char(seq![x], c, r) == (if x == c {
            r
        } else {
            seq![x]
        }),
{
    let one = seq![x];
    assert(one.drop_first() =~= Seq::<char>::empty());
    assert(subst_char(one.drop_first(), c, r) == Seq::<char>::empty());
    assert(one[0] == x);
    let h = if x == c {
        r
    } else {
        seq![x]
    };
    assert(h + Seq::<char>::empty() =~= h);
}

/// A single-character pattern is replaced exactly where that character stands.
proof fn lemma_replace_single(s: Seq<char>, c: char, r: Seq<char>, pos: int)
    requires
        0 <= pos <= s.len(),
    ensures
        replace_from(s, seq![c], r, pos) == subst_char(s.subrange(pos, s.len() as int), c, r),
    decreases s.len() - pos,
{
    let p = seq![c];
    let k = find_from(s, p, pos);
    lemma_find_from(s, p, pos);
    assert forall|j: int| pos <= j < s.len() implies #[trigger] occurs_at(s, p, j) == (s[j]
        == c) by {
        if s[j] == c {
            assert(s.subrange(j, j + 1) =~= p);
        } else {
            assert(s.subrange(j, j + 1)[0] != p[0]);
        }
    }
    if k < pos || k + p.len() > s.len() {
        assert forall|i: int| 0 <= i < s.subrange(pos, s.len() as int).len() implies s.subrange(
            pos,
            s.len() as int,
        )[i] != c by {
            assert(!occurs_at(s, p, pos + i));
        }
        lemma_subst_absent(s.subrange(pos, s.len() as int), c, r);
    } else {
        lemma_replace_single(s, c, r, k + 1);
        let before = s.subrange(pos, k);
        let after = s.subrange(k + 1, s.len() as int);
        assert forall|i: int| 0 <= i < before.len() implies before[i] != c by {
            assert(!occurs_at(s, p, pos + i));
        }
        lemma_subst_absent(before, c, r);
        assert(s.subrange(pos, s.len() as int) =~= before + (seq![c] + after));
        lemma_subst_concat(before, seq![c] + after, c, r);
        lemma_subst_concat(seq![c], after, c, r);
        lemma_subst_single(c, c, r);
        assert(before + r + subst_char(after, c, r) =~= before + (r + subst_char(after, c, r)));
    }
}

/// The seven substitutions applied to one character.
pub open spec fn subst_chain(s: Seq<char>) -> Seq<char> {
    let s1 = subst_char(s, '\n', seq!['%', '0', 'A']);
    let s2 = subst_char(s1, '+', seq!['%', '2', 'b']);
    let s3 = subst_char(s2, '\r', seq!['%', '0', 'D']);
    let s4 = subst_char(s3, '\'', seq!['%', '2', '7']);
    let s5 = subst_char(s4, ' ', seq!['%', '2', '0']);
    let s6 = subst_char(s5, '#', seq!['%', '2', '3']);
    subst_char(s6, '&', seq!['^', '&'])
}

proof fn lemma_subst_chain_concat(a: Seq<char>, b: Seq<char>)
    ensures
        subst_chain(a + b) == subst_chain(a) + subst_chain(b),
{
    let s1a = subst_char(a, '\n', seq!['%', '0', 'A']);
    let s1b = subst_char(b, '\n', seq!['%', '0', 'A']);
    lemma_subst_concat(a, b, '\n', seq!['%', '0', 'A']);
    let s2a = subst_char(s1a, '+', seq!['%', '2', 'b']);
    let s2b = subst_char(s1b, '+', seq!['%', '2', 'b']);
    lemma_subst_concat(s1a, s1b, '+', seq!['%', '2', 'b']);
    let s3a = subst_char(s2a, '\r', seq!['%', '0', 'D']);
    let s3b = subst_char(s2b, '\r', seq!['%', '0', 'D']);
    lemma_subst_concat(s2a, s2b, '\r', seq!['%', '0', 'D']);
    let s4a = subst_char(s3a, '\'', seq!['%', '2', '7']);
    let s4b = subst_char(s3b, '\'', seq!['%', '2', '7']);
    lemma_subst_concat(s3a, s3b, '\'', seq!['%', '2', '7']);
    let s5a = subst_char(s4a, ' ', seq!['%', '2', '0']);
    let s5b = subst_char(s4b, ' ', seq!['%', '2', '0']);
    lemma_subst_concat(s4a, s4b, ' ', seq!['%', '2', '0']);
    let s6a = subst_char(s5a, '#', seq!['%', '2', '3']);
    let s6b = subst_char(s5b, '#', seq!['%', '2', '3']);
    lemma_subst_concat(s5a, s5b, '#', seq!['%', '2', '3']);
    lemma_subst_concat(s6a, s6b, '&', seq!['^', '&']);
}

proof fn lemma_subst_chain_absent(e: Seq<char>, from: int)
    requires
        1 <= from <= 7,
        forall|i: int|
            0 <= i < e.len() ==> {
                &&& (from <= 2 ==> e[i] != '+')
                &&& (from <= 3 ==> e[i] != '\r')
                &&& (from <= 4 ==> e[i] != '\'')
                &&& (from <= 5 ==> e[i] != ' ')
                &&& (from <= 6 ==> e[i] != '#')
                &&& e[i] != '&'
            },
    ensures
        from <= 2 ==> subst_char(e, '+', seq!['%', '2', 'b']) == e,
        from <= 3 ==> subst_char(e, '\r', seq!['%', '0', 'D']) == e,
        from <= 4 ==> subst_char(e, '\'', seq!['%', '2', '7']) == e,
        from <= 5 ==> subst_char(e, ' ', seq!['%', '2', '0']) == e,
        from <= 6 ==> subst_char(e, '#', seq!['%', '2', '3']) == e,
        subst_char(e, '&', seq!['^', '&']) == e,
{
    if from <= 2 {
        lemma_subst_absent(e, '+', seq!['%', '2', 'b']);
    }
    if from <= 3 {
        lemma_subst_absent(e, '\r', seq!['%', '0', 'D']);
    }
    if from <= 4 {
        lemma_subst_absent(e, '\'', seq!['%', '2', '7']);
    }
    if from <= 5 {
        lemma_subst_absent(e, ' ', seq!['%', '2', '0']);
    }
    if from <= 6 {
        lemma_subst_absent(e, '#', seq!['%', '2', '3']);
    }
    lemma_subst_absent(e, '&', seq!['^', '&']);
}

proof fn lemma_subst_chain_single(x: char)
    ensures
        subst_chain(seq![x]) == encode_char(x),
{
    let a = seq!['%', '0', 'A'];
    let b = seq!['%', '2', 'b'];
    let d = seq!['%', '0', 'D'];
    let q = seq!['%', '2', '7'];
    let sp = seq!['%', '2', '0'];
    let h = seq!['%', '2', '3'];
    let amp = seq!['^', '&'];
    lemma_subst_single(x, '\n', a);
    let s1 = subst_char(seq![x], '\n', a);
    if x == '\n' {
        lemma_subst_chain_absent(a, 2);
    } else {
        lemma_subst_single(x, '+', b);
        let s2 = subst_char(s1, '+', b);
        if x == '+' {
            lemma_subst_chain_absent(b, 3);
        } else {
            lemma_subst_single(x, '\r', d);
            if x == '\r' {
                lemma_subst_chain_absent(d, 4);
            } else {
                lemma_subst_single(x, '\'', q);
                if x == '\'' {
                    lemma_subst_chain_absent(q, 5);
                } else {
                    lemma_subst_single(x, ' ', sp);
                    if x == ' ' {
                        lemma_subst_chain_absent(sp, 6);
                    } else {
                        lemma_subst_single(x, '#', h);
                        if x == '#' {
                            lemma_subst_chain_absent(h, 7);
                        } else {
                            lemma_subst_single(x, '&', amp);
                        }
                    }
                }
            }
        }
    }
}

proof fn lemma_subst_chain_is_encoding(s: Seq<char>)
    ensures
        subst_chain(s) == url_encoded(s),
    decreases s.len(),
{
    if s.len() == 0 {
        assert(subst_char(Seq::<char>::empty(), '\n', seq!['%', '0', 'A']) == Seq::<char>::empty());
        assert(subst_char(Seq::<char>::empty(), '+', seq!['%', '2', 'b']) == Seq::<char>::empty());
        assert(subst_char(Seq::<char>::empty(), '\r', seq!['%', '0', 'D']) == Seq::<char>::empty());
        assert(subst_char(Seq::<char>::empty(), '\'', seq!['%', '2', '7']) == Seq::<char>::empty());
        assert(subst_char(Seq::<char>::empty(), ' ', seq!['%', '2', '0']) == Seq::<char>::empty());
        assert(subst_char(Seq::<char>::empty(), '#', seq!['%', '2', '3']) == Seq::<char>::empty());
        assert(subst_char(Seq::<char>::empty(), '&', seq!['^', '&']) == Seq::<char>::empty());
    } else {
        lemma_subst_chain_is_encoding(s.drop_first());
        assert(s =~= seq![s[0]] + s.drop_first());
        lemma_subst_chain_concat(seq![s[0]], s.drop_first());
        lemma_subst_chain_single(s[0]);
    }
}

/// The encoding is exactly what the seven successive `str::replace` calls of the
/// escape list compute, applied in their order.
pub proof fn lemma_url_encode_is_replacement_chain(s: Seq<char>)
    ensures
        replacement_chain(s) == url_encoded(s),
{
    let s1 = replace_all(s, seq!['\n'], seq!['%', '0', 'A']);
    lemma_replace_single(s, '\n', seq!['%', '0', 'A'], 0);
    assert(s.subrange(0, s.len() as int) =~= s);
    let s2 = replace_all(s1, seq!['+'], seq!['%', '2', 'b']);
    lemma_replace_single(s1, '+', seq!['%', '2', 'b'], 0);
    assert(s1.subrange(0, s1.len() as int) =~= s1);
    let s3 = replace_all(s2, seq!['\r'], seq!['%', '0', 'D']);
    lemma_replace_single(s2, '\r', seq!['%', '0', 'D'], 0);
    assert(s2.subrange(0, s2.len() as int) =~= s2);
    let s4 = replace_all(s3, seq!['\''], seq!['%', '2', '7']);
    lemma_replace_single(s3, '\'', seq!['%', '2', '7'], 0);
    assert(s3.subrange(0, s3.len() as int) =~= s3);
    let s5 = replace_all(s4, seq![' '], seq!['%', '2', '0']);
    lemma_replace_single(s4, ' ', seq!['%', '2', '0'], 0);
    assert(s4.subrange(0, s4.len() as int) =~= s4);
    let s6 = replace_all(s5, seq!['#'], seq!['%', '2', '3']);
    lemma_replace_single(s5, '#', seq!['%', '2', '3'], 0);
    assert(s5.subrange(0, s5.len() as int) =~= s5);
    lemma_replace_single(s6, '&', seq!['^', '&'], 0);
    assert(s6.subrange(0, s6.len() as int) =~= s6);
    lemma_subst_chain_is_encoding(s);
}

} // verus!

use vstd::prelude::*;

verus! {

/// `String::push` appends one character at the end of the string.
pub assume_specification[ String::push ](s: &mut String, ch: char)
    ensures
        final(s)@ == old(s)@.push(ch),
;

/// The characters of `s`, in order.
pub fn chars_of(s: &str) -> (v: Vec<char>)
    ensures
        v@ == s@,
{
    let mut v: Vec<char> = Vec::new();
    for c in it: s.chars()
        invariant
            it.seq() == s@,
            v@ == it.seq().take(it.index() as int),
    {
        v.push(c);
    }
    v
}

/// A string holding exactly the characters of `v`.
pub fn string_of(v: &Vec<char>) -> (s: String)
    ensures
        s@ == v@,
{
    let mut s = String::new();
    let mut i: usize = 0;
    while i < v.len()
        invariant
            i <= v.len(),
            s@ == v@.subrange(0, i as int),
        decreases v.len() - i,
    {
        s.push(v[i]);
        i = i + 1;
    }
    s
}

} // verus!

verus! {

/// `p` occurs in `s` starting at position `i`.
pub open spec fn occurs_at(s: Seq<char>, p: Seq<char>, i: int) -> bool {
    0 <= i && i + p.len() <= s.len() && s.subrange(i, i + p.len()) == p
}

/// The leftmost position at or after `i` where the non-empty pattern `p`
/// occurs in `s`; -1 when there is none.
pub open spec fn find_from(s: Seq<char>, p: Seq<char>, i: int) -> int
    decreases s.len() - i,
{
    if i < 0 || p.len() == 0 || i + p.len() > s.len() {
        -1
    } else if occurs_at(s, p, i) {
        i
    } else {
        find_from(s, p, i + 1)
    }
}

/// What `find_from` returns: either no occurrence at or after `i`, or the first one.
pub proof fn lemma_find_from(s: Seq<char>, p: Seq<char>, i: int)
    requires
        0 <= i,
        p.len() > 0,
    ensures
        find_from(s, p, i) == -1 ==> forall|j: int| i <= j ==> !#[trigger] occurs_at(s, p, j),
        find_from(s, p, i) != -1 ==> {
            &&& i <= find_from(s, p, i)
            &&& find_from(s, p, i) + p.len() <= s.len()
            &&& occurs_at(s, p, find_from(s, p, i))
            &&& forall|j: int| i <= j < find_from(s, p, i) ==> !#[trigger] occurs_at(s, p, j)
        },
    decreases s.len() - i,
{
    if i + p.len() > s.len() {
    } else if occurs_at(s, p, i) {
    } else {
        lemma_find_from(s, p, i + 1);
        assert forall|j: int| i <= j && (find_from(s, p, i) == -1 || j < find_from(s, p, i))
            implies !#[trigger] occurs_at(s, p, j) by {
            if j == i {
            }
        }
    }
}

/// The pieces of `s[pos..]` between the non-overlapping, leftmost occurrences of `p`,
/// as `str::split` yields them.
pub open spec fn split_from(s: Seq<char>, p: Seq<char>, pos: int) -> Seq<Seq<char>>
    decreases s.len() - pos,
{
    let k = find_from(s, p, pos);
    if pos < 0 || pos > s.len() || p.len() == 0 || k < pos || k + p.len() > s.len() {
        seq![s.subrange(pos, s.len() as int)]
    } else {
        seq![s.subrange(pos, k)] + split_from(s, p, k + p.len())
    }
}

/// The pieces of `s` separated by `p`.
pub open spec fn split_on(s: Seq<char>, p: Seq<char>) -> Seq<Seq<char>> {
    split_from(s, p, 0)
}

/// `s[pos..]` with every non-overlapping, leftmost occurrence of `p` replaced by `r`,
/// as `str::replace` computes it.
pub open spec fn replace_from(s: Seq<char>, p: Seq<char>, r: Seq<char>, pos: int) -> Seq<char>
    decreases s.len() - pos,
{
    let k = find_from(s, p, pos);
    if pos < 0 || pos > s.len() || p.len() == 0 || k < pos || k + p.len() > s.len() {
        s.subrange(pos, s.len() as int)
    } else {
        s.subrange(pos, k) + r + replace_from(s, p, r, k + p.len())
    }
}

/// `s` with every occurrence of `p` replaced by `r`.
pub open spec fn replace_all(s: Seq<char>, p: Seq<char>, r: Seq<char>) -> Seq<char> {
    replace_from(s, p, r, 0)
}

/// The pieces joined, with `sep` between consecutive pieces.
pub open spec fn join_with(parts: Seq<Seq<char>>, sep: Seq<char>) -> Seq<char>
    decreases parts.len(),
{
    if parts.len() == 0 {
        seq![]
    } else if parts.len() == 1 {
        parts[0]
    } else {
        parts[0] + sep + join_with(parts.drop_first(), sep)
    }
}

/// `p` occurs somewhere in `s`.
pub open spec fn contains_seq(s: Seq<char>, p: Seq<char>) -> bool {
    exists|i: int| #[trigger] occurs_at(s, p, i)
}

/// Whether `p` occurs in `s` at position `i`.
fn occurs_at_exec(s: &Vec<char>, p: &Vec<char>, i: usize) -> (b: bool)
    requires
        i + p.len() <= s.len(),
    ensures
        b == occurs_at(s@, p@, i as int),
{
    let mut t: usize = 0;
    while t < p.len()
        invariant
            i + p.len() <= s.len(),
            t <= p.len(),
            forall|u: int| 0 <= u < t ==> s@[i + u] == p@[u],
        decreases p.len() - t,
    {
        if s[i + t] != p[t] {
            assert(s@.subrange(i as int, i + p.len())[t as int] != p@[t as int]);
            return false;
        }
        t = t + 1;
    }
    assert(s@.subrange(i as int, i + p.len()) =~= p@);
    true
}

/// The leftmost occurrence of the non-empty `p` in `s` at or after `start`.
pub fn find_at_or_after(s: &Vec<char>, p: &Vec<char>, start: usize) -> (r: Option<usize>)
    requires
        p.len() > 0,
    ensures
        match r {
            Some(k) => k == find_from(s@, p@, start as int),
            None => find_from(s@, p@, start as int) == -1,
        },
{
    if start > s.len() || p.len() > s.len() - start {
        return None;
    }
    let mut j: usize = start;
    let last = s.len() - p.len();
    while j <= last
        invariant
            p.len() > 0,
            last == s.len() - p.len(),
            start <= j,
            start <= last + 1,
            find_from(s@, p@, start as int) == find_from(s@, p@, j as int),
        decreases last + 1 - j,
    {
        if occurs_at_exec(s, p, j) {
            return Some(j);
        }
        j = j + 1;
    }
    None
}

/// Whether the non-empty `p` occurs in `s`.
pub fn contains_chars(s: &Vec<char>, p: &Vec<char>) -> (b: bool)
    requires
        p.len() > 0,
    ensures
        b == contains_seq(s@, p@),
{
    proof {
        lemma_find_from(s@, p@, 0);
    }
    match find_at_or_after(s, p, 0) {
        Some(_) => true,
        None => {
            assert forall|i: int| !#[trigger] occurs_at(s@, p@, i) by {
                if i >= 0 {
                }
            }
            false
        },
    }
}

} // verus!

verus! {

/// The characters `s[from..to]`.
pub fn slice_chars(s: &Vec<char>, from: usize, to: usize) -> (v: Vec<char>)
    requires
        from <= to <= s.len(),
    ensures
        v@ == s@.subrange(from as int, to as int),
{
    let mut v: Vec<char> = Vec::new();
    let mut i = from;
    while i < to
        invariant
            from <= i <= to <= s.len(),
            v@ == s@.subrange(from as int, i as int),
        decreases to - i,
    {
        v.push(s[i]);
        i = i + 1;
    }
    v
}

/// Appends the characters of `v` to `out`.
pub fn push_chars(out: &mut String, v: &Vec<char>)
    ensures
        final(out)@ == old(out)@ + v@,
{
    let mut i: usize = 0;
    while i < v.len()
        invariant
            i <= v.len(),
            out@ == old(out)@ + v@.subrange(0, i as int),
        decreases v.len() - i,
    {
        out.push(v[i]);
        i = i + 1;
    }
}

/// A split always yields at least one piece.
pub proof fn lemma_split_from_nonempty(s: Seq<char>, p: Seq<char>, pos: int)
    ensures
        split_from(s, p, pos).len() >= 1,
    decreases s.len() - pos,
{
    let k = find_from(s, p, pos);
    if pos < 0 || pos > s.len() || p.len() == 0 || k < pos || k + p.len() > s.len() {
    } else {
        lemma_split_from_nonempty(s, p, k + p.len());
    }
}

/// Joining the pieces of a split with the separator gives back the text.
pub proof fn lemma_join_split_from(s: Seq<char>, p: Seq<char>, pos: int)
    requires
        0 <= pos <= s.len(),
        p.len() > 0,
    ensures
        join_with(split_from(s, p, pos), p) == s.subrange(pos, s.len() as int),
    decreases s.len() - pos,
{
    let k = find_from(s, p, pos);
    lemma_find_from(s, p, pos);
    if k < pos || k + p.len() > s.len() {
    } else {
        let rest = split_from(s, p, k + p.len());
        lemma_split_from_nonempty(s, p, k + p.len());
        lemma_join_split_from(s, p, k + p.len());
        let parts = seq![s.subrange(pos, k)] + rest;
        assert(parts.drop_first() =~= rest);
        assert(parts[0] == s.subrange(pos, k));
        assert(s.subrange(k, k + p.len()) == p);
        assert(s.subrange(pos, k) + p + s.subrange(k + p.len(), s.len() as int) =~= s.subrange(
            pos,
            s.len() as int,
        ));
    }
}

/// Replacing every occurrence of `p` by `r` is splitting on `p` and joining with `r`.
pub proof fn lemma_replace_from_is_join(s: Seq<char>, p: Seq<char>, r: Seq<char>, pos: int)
    requires
        0 <= pos <= s.len(),
        p.len() > 0,
    ensures
        replace_from(s, p, r, pos) == join_with(split_from(s, p, pos), r),
    decreases s.len() - pos,
{
    let k = find_from(s, p, pos);
    lemma_find_from(s, p, pos);
    if k < pos || k + p.len() > s.len() {
    } else {
        let rest = split_from(s, p, k + p.len());
        lemma_split_from_nonempty(s, p, k + p.len());
        lemma_replace_from_is_join(s, p, r, k + p.len());
        let parts = seq![s.subrange(pos, k)] + rest;
        assert(parts.drop_first() =~= rest);
        assert(parts[0] == s.subrange(pos, k));
    }
}

/// Splits `s` on every occurrence of the non-empty separator `sep`, as `str::split` does.
pub fn split_str(s: &str, sep: &str) -> (parts: Vec<String>)
    requires
        sep@.len() > 0,
    ensures
        parts@.map_values(|x: String| x@) == split_on(s@, sep@),
{
    let sv = chars_of(s);
    let pv = chars_of(sep);
    let mut parts: Vec<String> = Vec::new();
    let mut pos: usize = 0;
    loop
        invariant_except_break
            parts@.map_values(|x: String| x@) + split_from(sv@, pv@, pos as int) == split_on(
                sv@,
                pv@,
            ),
        invariant
            sv@ == s@,
            pv@ == sep@,
            pv@.len() > 0,
            pos <= sv.len(),
        ensures
            parts@.map_values(|x: String| x@) == split_on(sv@, pv@),
        decreases sv.len() - pos,
    {
        proof {
            lemma_find_from(sv@, pv@, pos as int);
        }
        let ghost before = parts@.map_values(|x: String| x@);
        match find_at_or_after(&sv, &pv, pos) {
            None => {
                let piece = slice_chars(&sv, pos, sv.len());
                parts.push(string_of(&piece));
                assert(parts@.map_values(|x: String| x@) =~= before.push(piece@));
                assert(split_from(sv@, pv@, pos as int) =~= seq![piece@]);
                assert(before.push(piece@) =~= before + seq![piece@]);
                break ;
            },
            Some(k) => {
                let piece = slice_chars(&sv, pos, k);
                parts.push(string_of(&piece));
                assert(parts@.map_values(|x: String| x@) =~= before.push(piece@));
                let ghost rest = split_from(sv@, pv@, k + pv@.len());
                assert(split_from(sv@, pv@, pos as int) == seq![piece@] + rest);
                assert(before + (seq![piece@] + rest) =~= before.push(piece@) + rest);
                pos = k + pv.len();
            },
        }
    }
    parts
}

/// `r` before, between and after the characters of `s`: what `str::replace` makes of
/// the empty pattern.
pub open spec fn interleave(s: Seq<char>, r: Seq<char>) -> Seq<char>
    decreases s.len(),
{
    if s.len() == 0 {
        r
    } else {
        r + seq![s[0]] + interleave(s.drop_first(), r)
    }
}

/// What `str::replace` computes: every non-overlapping, leftmost occurrence of `p`
/// replaced by `r`; for the empty pattern, `r` put around every character.
pub open spec fn str_replace(s: Seq<char>, p: Seq<char>, r: Seq<char>) -> Seq<char> {
    if p.len() == 0 {
        interleave(s, r)
    } else {
        replace_all(s, p, r)
    }
}

/// `str::replace`: `s` with every occurrence of `from` replaced by `to`.
pub fn replace_str(s: &str, from: &str, to: &str) -> (r: String)
    ensures
        r@ == str_replace(s@, from@, to@),
{
    let sv = chars_of(s);
    let pv = chars_of(from);
    let tv = chars_of(to);
    let mut out = String::new();
    if pv.len() == 0 {
        let mut i: usize = sv.len();
        let mut tail = tv.clone();
        assert(sv@.skip(i as int) =~= Seq::<char>::empty());
        while i > 0
            invariant
                i <= sv.len(),
                tv@ == to@,
                tail@ == interleave(sv@.skip(i as int), tv@),
            decreases i,
        {
            i = i - 1;
            let mut next = tv.clone();
            next.push(sv[i]);
            next.append(&mut tail);
            assert(sv@.skip(i as int).drop_first() =~= sv@.skip(i + 1));
            assert(sv@.skip(i as int)[0] == sv@[i as int]);
            assert(next@ =~= tv@ + seq![sv@[i as int]] + interleave(sv@.skip(i + 1), tv@));
            tail = next;
        }
        assert(sv@.skip(0) =~= sv@);
        push_chars(&mut out, &tail);
        assert(out@ =~= tail@);
        return out;
    }
    let mut pos: usize = 0;
    loop
        invariant_except_break
            out@ + replace_from(sv@, pv@, tv@, pos as int) == replace_all(sv@, pv@, tv@),
        invariant
            sv@ == s@,
            pv@ == from@,
            tv@ == to@,
            pv@.len() > 0,
            pos <= sv.len(),
        ensures
            out@ == replace_all(sv@, pv@, tv@),
        decreases sv.len() - pos,
    {
        proof {
            lemma_find_from(sv@, pv@, pos as int);
        }
        let ghost before = out@;
        match find_at_or_after(&sv, &pv, pos) {
            None => {
                let piece = slice_chars(&sv, pos, sv.len());
                push_chars(&mut out, &piece);
                break ;
            },
            Some(k) => {
                let piece = slice_chars(&sv, pos, k);
                push_chars(&mut out, &piece);
                push_chars(&mut out, &tv);
                let ghost rest = replace_from(sv@, pv@, tv@, k + pv@.len());
                assert(before + (piece@ + tv@ + rest) =~= before + piece@ + tv@ + rest);
                pos = k + pv.len();
            },
        }
    }
    out
}

} // verus!

verus! {

/// Whether two character vectors hold the same characters.
pub fn same_chars(a: &Vec<char>, b: &Vec<char>) -> (r: bool)
    ensures
        r == (a@ == b@),
{
    if a.len() != b.len() {
        return false;
    }
    let mut i: usize = 0;
    while i < a.len()
        invariant
            a.len() == b.len(),
            i <= a.len(),
            forall|j: int| 0 <= j < i ==> a@[j] == b@[j],
        decreases a.len() - i,
    {
        if a[i] != b[i] {
            return false;
        }
        i = i + 1;
    }
    assert(a@ =~= b@);
    true
}

/// Whether two texts are equal.
pub fn same_text(a: &str, b: &str) -> (r: bool)
    ensures
        r == (a@ == b@),
{
    same_chars(&chars_of(a), &chars_of(b))
}

/// `str::contains` with a text pattern: whether `p` occurs in `s`
/// (the empty pattern occurs in every text).
pub fn str_contains(s: &str, p: &str) -> (r: bool)
    ensures
        r == contains_seq(s@, p@),
{
    let pv = chars_of(p);
    if pv.len() == 0 {
        assert(s@.subrange(0, 0) =~= p@);
        assert(occurs_at(s@, p@, 0));
        return true;
    }
    contains_chars(&chars_of(s), &pv)
}

/// Whether the text `s` holds the character `c`.
pub fn has_char(s: &str, c: char) -> (r: bool)
    ensures
        r == s@.contains(c),
{
    let v = chars_of(s);
    let mut i: usize = 0;
    while i < v.len()
        invariant
            v@ == s@,
            i <= v.len(),
            forall|j: int| 0 <= j < i ==> v@[j] != c,
        decreases v.len() - i,
    {
        if v[i] == c {
            assert(s@[i as int] == c);
            return true;
        }
        i = i + 1;
    }
    false
}

/// Whether `item` is one of the texts in `list`.
pub fn list_has(list: &Vec<String>, item: &String) -> (r: bool)
    ensures
        r == exists|i: int| 0 <= i < list@.len() && #[trigger] list@[i]@ == item@,
{
    let mut i: usize = 0;
    while i < list.len()
        invariant
            i <= list.len(),
            forall|j: int| 0 <= j < i ==> #[trigger] list@[j]@ != item@,
        decreases list.len() - i,
    {
        if list[i] == *item {
            assert(list@[i as int]@ == item@);
            return true;
        }
        i = i + 1;
    }
    false
}

/// A copy of the text `s`.
pub fn owned(s: &str) -> (r: String)
    ensures
        r@ == s@,
{
    string_of(&chars_of(s))
}

/// `a` followed by `b`.
pub fn concat(a: &str, b: &str) -> (r: String)
    ensures
        r@ == a@ + b@,
{
    let mut r = owned(a);
    push_chars(&mut r, &chars_of(b));
    r
}

} // verus!

verus! {

/// Joining one more piece appends the separator and the piece.
pub proof fn lemma_join_with_push(parts: Seq<Seq<char>>, sep: Seq<char>, x: Seq<char>)
    ensures
        join_with(parts.push(x), sep) == if parts.len() == 0 {
            x
        } else {
            join_with(parts, sep) + sep + x
        },
    decreases parts.len(),
{
    if parts.len() == 0 {
    } else if parts.len() == 1 {
        assert(parts.push(x).drop_first() =~= seq![x]);
        assert(join_with(seq![x], sep) == x);
    } else {
        lemma_join_with_push(parts.drop_first(), sep, x);
        assert(parts.push(x).drop_first() =~= parts.drop_first().push(x));
        assert(parts[0] + sep + (join_with(parts.drop_first(), sep) + sep + x) =~= parts[0] + sep
            + join_with(parts.drop_first(), sep) + sep + x);
    }
}

} // verus!

verus! {

/// Occurrences after a prefix are the occurrences in the rest, moved by the prefix's length.
proof fn lemma_occurs_shift(pre: Seq<char>, t: Seq<char>, p: Seq<char>, q: int)
    requires
        0 <= q,
    ensures
        occurs_at(pre + t, p, pre.len() + q) == occurs_at(t, p, q),
{
    if q + p.len() <= t.len() {
        assert((pre + t).subrange(pre.len() + q, pre.len() + q + p.len()) =~= t.subrange(q, q + p.len()));
    }
}

/// Searching after a prefix finds what searching the rest finds, moved by the prefix's length.
pub proof fn lemma_find_from_shift(pre: Seq<char>, t: Seq<char>, p: Seq<char>, i: int)
    requires
        0 <= i,
        p.len() > 0,
    ensures
        find_from(pre + t, p, pre.len() + i) == (if find_from(t, p, i) == -1 {
            -1
        } else {
            pre.len() + find_from(t, p, i)
        }),
    decreases t.len() - i,
{
    lemma_occurs_shift(pre, t, p, i);
    if i + p.len() > t.len() {
    } else if occurs_at(t, p, i) {
    } else {
        lemma_find_from_shift(pre, t, p, i + 1);
    }
}

/// Splitting after a prefix splits the rest.
pub proof fn lemma_split_from_shift(pre: Seq<char>, t: Seq<char>, p: Seq<char>, i: int)
    requires
        0 <= i <= t.len(),
        p.len() > 0,
    ensures
        split_from(pre + t, p, pre.len() + i) == split_from(t, p, i),
    decreases t.len() - i,
{
    let s = pre + t;
    lemma_find_from_shift(pre, t, p, i);
    lemma_find_from(t, p, i);
    let k = find_from(t, p, i);
    if k == -1 {
        assert(s.subrange(pre.len() + i, s.len() as int) =~= t.subrange(i, t.len() as int));
    } else {
        assert(s.subrange(pre.len() + i, pre.len() + k) =~= t.subrange(i, k));
        lemma_split_from_shift(pre, t, p, k + p.len());
    }
}

} // verus!

verus! {

/// A piece of a text in which `g` does not occur has no occurrence of `g` either.
pub proof fn lemma_subrange_lacks(s: Seq<char>, g: Seq<char>, a: int, b: int)
    requires
        0 <= a <= b <= s.len(),
        !contains_seq(s, g),
    ensures
        !contains_seq(s.subrange(a, b), g),
{
    let t = s.subrange(a, b);
    if contains_seq(t, g) {
        let i = choose|i: int| #[trigger] occurs_at(t, g, i);
        assert(s.subrange(a + i, a + i + g.len()) =~= t.subrange(i, i + g.len()));
        assert(occurs_at(s, g, a + i));
    }
}

/// The pieces of a split of a text in which `g` does not occur have no occurrence of `g`.
pub proof fn lemma_split_pieces_lack(s: Seq<char>, p: Seq<char>, g: Seq<char>, pos: int)
    requires
        0 <= pos <= s.len(),
        p.len() > 0,
        !contains_seq(s, g),
    ensures
        forall|j: int| 0 <= j < split_from(s, p, pos).len() ==> !contains_seq(#[trigger] split_from(s, p, pos)[j], g),
    decreases s.len() - pos,
{
    let k = find_from(s, p, pos);
    lemma_find_from(s, p, pos);
    if k < pos || k + p.len() > s.len() {
        lemma_subrange_lacks(s, g, pos, s.len() as int);
    } else {
        lemma_subrange_lacks(s, g, pos, k);
        lemma_split_pieces_lack(s, p, g, k + p.len());
        let rest = split_from(s, p, k + p.len());
        assert forall|j: int| 0 <= j < split_from(s, p, pos).len() implies !contains_seq(
            #[trigger] split_from(s, p, pos)[j],
            g,
        ) by {
            if j > 0 {
                assert(split_from(s, p, pos)[j] == rest[j - 1]);
            }
        }
    }
}

/// A split on a pattern that occurs in the text has at least two pieces.
pub proof fn lemma_split_occurring(s: Seq<char>, p: Seq<char>)
    requires
        p.len() > 0,
        contains_seq(s, p),
    ensures
        split_on(s, p).len() >= 2,
{
    let i = choose|i: int| #[trigger] occurs_at(s, p, i);
    lemma_find_from(s, p, 0);
    assert(find_from(s, p, 0) != -1);
    lemma_split_from_nonempty(s, p, find_from(s, p, 0) + p.len());
}

} // verus!

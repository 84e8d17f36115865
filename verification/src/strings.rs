//! Verified text scanning primitives the detection pipeline is built from:
//! prefix and suffix tests, first-occurrence search, splitting and joining on
//! a separator.

use vstd::prelude::*;
use vstd::string::StrSliceExecFns;
use vstd::string::StringExecFns;

verus! {

/// `p` is a prefix of `s`.
pub open spec fn is_prefix_of(p: Seq<char>, s: Seq<char>) -> bool {
    p.len() <= s.len() && p == s.subrange(0, p.len() as int)
}

/// `p` is a suffix of `s`.
pub open spec fn is_suffix_of(p: Seq<char>, s: Seq<char>) -> bool {
    p.len() <= s.len() && p == s.subrange(s.len() - p.len(), s.len() as int)
}

/// `p` occurs in `s` starting at index `i`.
pub open spec fn occurs_at(s: Seq<char>, p: Seq<char>, i: int) -> bool {
    0 <= i && i + p.len() <= s.len() && p == s.subrange(i, i + p.len())
}

/// The index of the first occurrence of `c` in `s`, or `s.len()` when `c`
/// does not occur.
pub open spec fn first_index(s: Seq<char>, c: char) -> int
    decreases s.len(),
{
    if s.len() == 0 {
        0
    } else if s[0] == c {
        0
    } else {
        1 + first_index(s.skip(1), c)
    }
}

/// What [`first_index`] returns: an index within bounds, holding `c` when in
/// range, with no occurrence of `c` before it.
pub proof fn lemma_first_index(s: Seq<char>, c: char)
    ensures
        0 <= first_index(s, c) <= s.len(),
        first_index(s, c) < s.len() ==> s[first_index(s, c)] == c,
        forall|j: int| 0 <= j < first_index(s, c) ==> s[j] != c,
    decreases s.len(),
{
    if s.len() > 0 && s[0] != c {
        lemma_first_index(s.skip(1), c);
        assert forall|j: int| 0 <= j < first_index(s, c) implies s[j] != c by {
            if j > 0 {
                assert(s.skip(1)[j - 1] == s[j]);
            }
        }
    }
}

/// [`first_index`] computed from a witness: if nothing before `i` is `c`,
/// and `i` either is out of range or holds `c`, then `i` is the first index.
pub proof fn lemma_first_index_is(s: Seq<char>, c: char, i: int)
    requires
        0 <= i <= s.len(),
        forall|j: int| 0 <= j < i ==> s[j] != c,
        i < s.len() ==> s[i] == c,
    ensures
        i < s.len() ==> first_index(s, c) == i,
        i == s.len() ==> first_index(s, c) == s.len(),
    decreases s.len(),
{
    if s.len() > 0 && s[0] != c {
        assert forall|j: int| 0 <= j < i - 1 implies s.skip(1)[j] != c by {
            assert(s.skip(1)[j] == s[j + 1]);
        }
        if i >= 1 && i - 1 < s.skip(1).len() {
            assert(s.skip(1)[i - 1] == s[i]);
        }
        lemma_first_index_is(s.skip(1), c, i - 1);
    }
}

/// Whether the two strings hold the same characters.
pub fn str_eq(a: &str, b: &str) -> (r: bool)
    ensures
        r <==> a@ == b@,
{
    let an = a.unicode_len();
    let bn = b.unicode_len();
    if an != bn {
        return false;
    }
    let mut i: usize = 0;
    while i < an
        invariant
            0 <= i <= an,
            an == a@.len(),
            an == b@.len(),
            forall|j: int| 0 <= j < i ==> a@[j] == b@[j],
        decreases an - i,
    {
        if a.get_char(i) != b.get_char(i) {
            return false;
        }
        i = i + 1;
    }
    proof {
        assert(a@ =~= b@);
    }
    true
}

/// Whether `p` is a prefix of `s`.
pub fn is_prefix(s: &str, p: &str) -> (r: bool)
    ensures
        r <==> is_prefix_of(p@, s@),
{
    let sn = s.unicode_len();
    let pn = p.unicode_len();
    if pn > sn {
        return false;
    }
    let mut i: usize = 0;
    while i < pn
        invariant
            0 <= i <= pn <= sn,
            sn == s@.len(),
            pn == p@.len(),
            forall|j: int| 0 <= j < i ==> p@[j] == s@[j],
        decreases pn - i,
    {
        if p.get_char(i) != s.get_char(i) {
            return false;
        }
        i = i + 1;
    }
    proof {
        assert(p@ =~= s@.subrange(0, p@.len() as int));
    }
    true
}

/// Whether `p` is a suffix of `s`.
pub fn is_suffix(s: &str, p: &str) -> (r: bool)
    ensures
        r <==> is_suffix_of(p@, s@),
{
    let sn = s.unicode_len();
    let pn = p.unicode_len();
    if pn > sn {
        return false;
    }
    let off = sn - pn;
    let mut i: usize = 0;
    while i < pn
        invariant
            0 <= i <= pn <= sn,
            off == sn - pn,
            sn == s@.len(),
            pn == p@.len(),
            forall|j: int| 0 <= j < i ==> p@[j] == s@[off + j],
        decreases pn - i,
    {
        if p.get_char(i) != s.get_char(off + i) {
            return false;
        }
        i = i + 1;
    }
    proof {
        assert(p@ =~= s@.subrange(s@.len() - p@.len(), s@.len() as int));
    }
    true
}

/// The first occurrence of `c` in `s` within `[from, to)`, if any.
pub fn find_char_in(s: &str, c: char, from: usize, to: usize) -> (r: Option<usize>)
    requires
        from <= to <= s@.len(),
    ensures
        match r {
            Some(i) => {
                &&& from <= i < to
                &&& s@[i as int] == c
                &&& forall|j: int| from <= j < i ==> s@[j] != c
            },
            None => forall|j: int| from <= j < to ==> s@[j] != c,
        },
{
    let mut i: usize = from;
    while i < to
        invariant
            from <= i <= to <= s@.len(),
            forall|j: int| from <= j < i ==> s@[j] != c,
        decreases to - i,
    {
        if s.get_char(i) == c {
            return Some(i);
        }
        i = i + 1;
    }
    None
}

/// The first index at or after `from` and below `to` where `pat` occurs in
/// `s` with the whole occurrence before `to`, if any.
pub fn find_sub_in(s: &str, pat: &str, from: usize, to: usize) -> (r: Option<usize>)
    requires
        from <= to <= s@.len(),
        pat@.len() >= 1,
    ensures
        match r {
            Some(i) => {
                &&& from <= i
                &&& i + pat@.len() <= to
                &&& occurs_at(s@, pat@, i as int)
                &&& forall|j: int|
                    from <= j < i ==> !(occurs_at(s@, pat@, j) && j + pat@.len() <= to)
            },
            None => forall|j: int| from <= j ==> !(occurs_at(s@, pat@, j) && j + pat@.len() <= to),
        },
{
    let pn = pat.unicode_len();
    if pn > to || from > to - pn {
        return None;
    }
    let last = to - pn;
    let mut i: usize = from;
    while i <= last
        invariant
            from <= i,
            i <= last + 1,
            last == to - pn,
            pn == pat@.len(),
            from <= to <= s@.len(),
            pn >= 1,
            forall|j: int| from <= j < i ==> !(occurs_at(s@, pat@, j) && j + pat@.len() <= to),
        decreases last + 1 - i,
    {
        let mut k: usize = 0;
        let mut hit = true;
        while k < pn
            invariant
                0 <= k <= pn,
                pn == pat@.len(),
                i + pn <= to <= s@.len(),
                hit ==> forall|j: int| 0 <= j < k ==> pat@[j] == s@[i + j],
                !hit ==> exists|j: int| 0 <= j < pn && pat@[j] != s@[i + j],
            decreases pn - k,
        {
            if pat.get_char(k) != s.get_char(i + k) {
                proof {
                    assert(pat@[k as int] != s@[i + k]);
                }
                hit = false;
                k = pn;
            } else {
                k = k + 1;
            }
        }
        if hit {
            proof {
                assert(pat@ =~= s@.subrange(i as int, i + pat@.len()));
            }
            return Some(i);
        } else {
            proof {
                if occurs_at(s@, pat@, i as int) {
                    let j = choose|j: int| 0 <= j < pn && pat@[j] != s@[i + j];
                    assert(pat@[j] == s@.subrange(i as int, i + pat@.len())[j]);
                }
            }
        }
        i = i + 1;
    }
    None
}

/// Copy the characters of `s` in `[from, to)` into an owned string.
pub fn substr(s: &str, from: usize, to: usize) -> (r: String)
    requires
        from <= to <= s@.len(),
    ensures
        r@ == s@.subrange(from as int, to as int),
{
    String::from_str(s.substring_char(from, to))
}

/// The concatenation of two strings.
pub fn concat(a: &str, b: &str) -> (r: String)
    ensures
        r@ == a@ + b@,
{
    let mut r = String::from_str(a);
    r.append(b);
    r
}

/// A character is alphanumeric in the ASCII sense: a lower-case or
/// upper-case letter or a digit.
pub open spec fn spec_is_alnum(c: char) -> bool {
    ||| 'a' <= c && c <= 'z'
    ||| 'A' <= c && c <= 'Z'
    ||| '0' <= c && c <= '9'
}

/// Whether `c` is an ASCII letter or digit.
pub fn is_alnum(c: char) -> (r: bool)
    ensures
        r == spec_is_alnum(c),
{
    ('a' <= c && c <= 'z') || ('A' <= c && c <= 'Z') || ('0' <= c && c <= '9')
}

/// `s` split on every occurrence of `c`. Splitting the empty string gives
/// one empty part; a separator at either end contributes an empty part.
pub open spec fn spec_split(s: Seq<char>, c: char) -> Seq<Seq<char>>
    decreases s.len(),
{
    if s.len() == 0 {
        seq![Seq::<char>::empty()]
    } else if s[0] == c {
        seq![Seq::<char>::empty()] + spec_split(s.skip(1), c)
    } else {
        let rest = spec_split(s.skip(1), c);
        seq![seq![s[0]] + rest[0]] + rest.skip(1)
    }
}

/// A split always has at least one part.
pub proof fn lemma_split_len(s: Seq<char>, c: char)
    ensures
        spec_split(s, c).len() >= 1,
    decreases s.len(),
{
    if s.len() > 0 {
        lemma_split_len(s.skip(1), c);
    }
}

/// Unrolling [`spec_split`] at the first occurrence of the separator: the
/// first part runs up to it and the rest is the split of what follows it.
pub proof fn lemma_split_step(s: Seq<char>, c: char)
    ensures
        first_index(s, c) == s.len() ==> spec_split(s, c) == seq![s],
        first_index(s, c) < s.len() ==> spec_split(s, c) == seq![s.take(first_index(s, c))]
            + spec_split(s.skip(first_index(s, c) + 1), c),
    decreases s.len(),
{
    lemma_first_index(s, c);
    if s.len() == 0 {
        assert(s =~= Seq::<char>::empty());
        assert(spec_split(s, c) == seq![s]);
    } else if s[0] == c {
        assert(s.take(0) =~= Seq::<char>::empty());
        assert(spec_split(s, c) =~= seq![s.take(0)] + spec_split(s.skip(1), c));
    } else {
        let i = first_index(s, c);
        let t = s.skip(1);
        lemma_split_step(t, c);
        lemma_split_len(t, c);
        assert(i == 1 + first_index(t, c));
        if first_index(t, c) == t.len() {
            assert(spec_split(s, c) =~= seq![seq![s[0]] + t]);
            assert(seq![s[0]] + t =~= s);
        } else {
            let it = first_index(t, c);
            assert(spec_split(t, c) == seq![t.take(it)] + spec_split(t.skip(it + 1), c));
            assert(seq![s[0]] + (seq![t.take(it)] + spec_split(t.skip(it + 1), c))[0] =~= s.take(
                i,
            ));
            assert(t.skip(it + 1) =~= s.skip(i + 1));
            assert((seq![t.take(it)] + spec_split(t.skip(it + 1), c)).skip(1) =~= spec_split(
                s.skip(i + 1),
                c,
            ));
            assert(spec_split(s, c) =~= seq![s.take(i)] + spec_split(s.skip(i + 1), c));
        }
    }
}

/// Split `s` on every occurrence of `c`.
pub fn split_char(s: &str, c: char) -> (r: Vec<String>)
    ensures
        r@.map_values(|t: String| t@) == spec_split(s@, c),
{
    let n = s.unicode_len();
    let mut parts: Vec<String> = Vec::new();
    let mut start: usize = 0;
    proof {
        assert(parts@.map_values(|t: String| t@) =~= Seq::<Seq<char>>::empty());
        assert(s@.skip(0) =~= s@);
        assert(Seq::<Seq<char>>::empty() + spec_split(s@, c) =~= spec_split(s@, c));
    }
    loop
        invariant
            start <= n,
            n == s@.len(),
            spec_split(s@, c) == parts@.map_values(|t: String| t@) + spec_split(
                s@.skip(start as int),
                c,
            ),
        decreases n - start,
    {
        match find_char_in(s, c, start, n) {
            Some(i) => {
                let part = substr(s, start, i);
                proof {
                    let tail = s@.skip(start as int);
                    lemma_first_index_is(tail, c, i - start);
                    lemma_split_step(tail, c);
                    assert(tail.take(i - start) =~= s@.subrange(start as int, i as int));
                    assert(tail.skip(i - start + 1) =~= s@.skip(i + 1));
                    assert(parts@.push(part).map_values(|t: String| t@) =~= parts@.map_values(
                        |t: String| t@,
                    ).push(part@));
                    assert(parts@.map_values(|t: String| t@).push(s@.subrange(
                        start as int,
                        i as int,
                    )) + spec_split(s@.skip(i + 1), c) =~= parts@.map_values(|t: String| t@) + (
                    seq![tail.take(i - start)] + spec_split(tail.skip(i - start + 1), c)));
                }
                parts.push(part);
                start = i + 1;
            },
            None => {
                let part = substr(s, start, n);
                proof {
                    let tail = s@.skip(start as int);
                    lemma_first_index_is(tail, c, tail.len() as int);
                    lemma_split_step(tail, c);
                    assert(tail =~= s@.subrange(start as int, n as int));
                    assert(parts@.push(part).map_values(|t: String| t@) =~= parts@.map_values(
                        |t: String| t@,
                    ).push(part@));
                    assert(parts@.map_values(|t: String| t@).push(tail) =~= parts@.map_values(
                        |t: String| t@,
                    ) + seq![tail]);
                }
                parts.push(part);
                return parts;
            },
        }
    }
}

/// The parts joined with `c` between consecutive parts.
pub open spec fn spec_join(parts: Seq<Seq<char>>, c: char) -> Seq<char>
    decreases parts.len(),
{
    if parts.len() == 0 {
        Seq::<char>::empty()
    } else if parts.len() == 1 {
        parts[0]
    } else {
        parts[0] + seq![c] + spec_join(parts.skip(1), c)
    }
}

/// Joining one more part appends one separator and that part.
pub proof fn lemma_join_push(parts: Seq<Seq<char>>, x: Seq<char>, c: char)
    requires
        parts.len() >= 1,
    ensures
        spec_join(parts.push(x), c) == spec_join(parts, c) + seq![c] + x,
    decreases parts.len(),
{
    if parts.len() == 1 {
        assert(parts.push(x)[0] == parts[0]);
        assert(parts.push(x).skip(1) =~= seq![x]);
        assert(spec_join(seq![x], c) == x);
    } else {
        lemma_join_push(parts.skip(1), x, c);
        assert(parts.push(x).skip(1) =~= parts.skip(1).push(x));
        assert(parts.push(x)[0] == parts[0]);
        assert(parts[0] + seq![c] + (spec_join(parts.skip(1), c) + seq![c] + x) =~= (parts[0]
            + seq![c] + spec_join(parts.skip(1), c)) + seq![c] + x);
    }
}

/// Join the parts in `[from, to)` with `/` between consecutive parts.
pub fn join_slash(parts: &Vec<String>, from: usize, to: usize) -> (r: String)
    requires
        from <= to <= parts@.len(),
    ensures
        r@ == spec_join(parts@.subrange(from as int, to as int).map_values(|t: String| t@), '/'),
{
    if from == to {
        let r = String::new();
        proof {
            assert(parts@.subrange(from as int, to as int).map_values(|t: String| t@) =~= Seq::<
                Seq<char>,
            >::empty());
        }
        return r;
    }
    let mut r = String::from_str(parts[from].as_str());
    proof {
        assert(parts@.subrange(from as int, from + 1).map_values(|t: String| t@) =~= seq![
            parts@[from as int]@,
        ]);
    }
    let mut k: usize = from + 1;
    while k < to
        invariant
            from < k <= to <= parts@.len(),
            r@ == spec_join(
                parts@.subrange(from as int, k as int).map_values(|t: String| t@),
                '/',
            ),
        decreases to - k,
    {
        r.append("/");
        r.append(parts[k].as_str());
        proof {
            reveal_strlit("/");
            assert("/"@ =~= seq!['/']);
            let pre = parts@.subrange(from as int, k as int).map_values(|t: String| t@);
            lemma_join_push(pre, parts@[k as int]@, '/');
            assert(parts@.subrange(from as int, k + 1).map_values(|t: String| t@) =~= pre.push(
                parts@[k as int]@,
            ));
        }
        k = k + 1;
    }
    r
}

} // verus!

//! Character-level text handling: trimming, splitting, joining and substring
//! search, each stated over `Seq<char>` and implemented over `Vec<char>`.
use vstd::prelude::*;

verus! {

/// Whether `c` has the Unicode `White_Space` property, the class that
/// `char::is_whitespace` and `str::trim` strip.
pub open spec fn is_space(c: char) -> bool {
    let n = c as u32;
    (0x9 <= n && n <= 0xd) || n == 0x20 || n == 0x85 || n == 0xa0 || n == 0x1680 || (0x2000 <= n
        && n <= 0x200a) || n == 0x2028 || n == 0x2029 || n == 0x202f || n == 0x205f || n == 0x3000
}

/// `s` without its leading white space.
pub open spec fn trim_start(s: Seq<char>) -> Seq<char>
    decreases s.len(),
{
    if s.len() > 0 && is_space(s[0]) {
        trim_start(s.drop_first())
    } else {
        s
    }
}

/// `s` without its trailing white space.
pub open spec fn trim_end(s: Seq<char>) -> Seq<char>
    decreases s.len(),
{
    if s.len() > 0 && is_space(s.last()) {
        trim_end(s.drop_last())
    } else {
        s
    }
}

/// `s` without leading and trailing white space.
pub open spec fn trim(s: Seq<char>) -> Seq<char> {
    trim_end(trim_start(s))
}

/// The pieces of `s` between occurrences of `sep`, in order; there is always
/// at least one piece.
pub open spec fn split_on(s: Seq<char>, sep: char) -> Seq<Seq<char>>
    decreases s.len(),
{
    if s.len() == 0 {
        seq![Seq::empty()]
    } else {
        let prev = split_on(s.drop_last(), sep);
        if s.last() == sep {
            prev.push(Seq::empty())
        } else {
            prev.update(prev.len() - 1, prev.last().push(s.last()))
        }
    }
}

/// The pieces joined with `sep` between each two neighbours.
pub open spec fn join(parts: Seq<Seq<char>>, sep: char) -> Seq<char>
    decreases parts.len(),
{
    if parts.len() == 0 {
        Seq::empty()
    } else if parts.len() == 1 {
        parts[0]
    } else {
        join(parts.drop_last(), sep).push(sep) + parts.last()
    }
}

/// The character sequences that a list of character vectors holds.
pub open spec fn views(v: Seq<Vec<char>>) -> Seq<Seq<char>> {
    v.map_values(|x: Vec<char>| x@)
}

/// `p` occurs in `s` starting at index `i`.
pub open spec fn occurs_at(s: Seq<char>, p: Seq<char>, i: int) -> bool {
    0 <= i && i + p.len() <= s.len() && s.subrange(i, i + p.len()) == p
}

/// `part` occurs somewhere in `text`.
pub open spec fn mentions(text: Seq<char>, part: Seq<char>) -> bool {
    exists|i: int| occurs_at(text, part, i)
}

/// A text built as `a`, then `x`, then `b` mentions `x`.
pub proof fn lemma_mentions_middle(a: Seq<char>, x: Seq<char>, b: Seq<char>)
    ensures
        mentions(a + x + b, x),
{
    assert((a + x + b).subrange(a.len() as int, (a.len() + x.len()) as int) =~= x);
    assert(occurs_at(a + x + b, x, a.len() as int));
}

/// A text that mentions `x` still mentions it with text added on both sides.
pub proof fn lemma_mentions_within(a: Seq<char>, m: Seq<char>, b: Seq<char>, x: Seq<char>)
    requires
        mentions(m, x),
    ensures
        mentions(a + m + b, x),
{
    let i = choose|i: int| occurs_at(m, x, i);
    assert((a + m + b).subrange(a.len() + i, a.len() + i + x.len()) =~= m.subrange(
        i,
        i + x.len(),
    ));
    assert(occurs_at(a + m + b, x, a.len() + i));
}

/// How many occurrences of `p` in `s` start before index `n`.
pub open spec fn count_before(s: Seq<char>, p: Seq<char>, n: int) -> nat
    decreases n,
{
    if n <= 0 {
        0
    } else if occurs_at(s, p, n - 1) {
        count_before(s, p, n - 1) + 1
    } else {
        count_before(s, p, n - 1)
    }
}

/// The start of the last occurrence of `p` in `s` before index `n`, or -1.
pub open spec fn last_before(s: Seq<char>, p: Seq<char>, n: int) -> int
    decreases n,
{
    if n <= 0 {
        -1
    } else if occurs_at(s, p, n - 1) {
        n - 1
    } else {
        last_before(s, p, n - 1)
    }
}

/// The start of the last occurrence of `p` in `s`, or -1.
pub open spec fn last_index_of(s: Seq<char>, p: Seq<char>) -> int {
    last_before(s, p, s.len() as int)
}

/// The number of occurrences of `p` in `s`.
pub open spec fn count_of(s: Seq<char>, p: Seq<char>) -> nat {
    count_before(s, p, s.len() as int)
}

/// `s` with every leading copy of `p` removed, one after another.
pub open spec fn strip_prefixes(s: Seq<char>, p: Seq<char>) -> Seq<char>
    decreases s.len(),
{
    if p.len() > 0 && occurs_at(s, p, 0) {
        strip_prefixes(s.subrange(p.len() as int, s.len() as int), p)
    } else {
        s
    }
}

/// `s` with every trailing `c` removed.
pub open spec fn strip_suffix_chars(s: Seq<char>, c: char) -> Seq<char>
    decreases s.len(),
{
    if s.len() > 0 && s.last() == c {
        strip_suffix_chars(s.drop_last(), c)
    } else {
        s
    }
}

/// Splitting always gives at least one piece.
pub proof fn lemma_split_nonempty(s: Seq<char>, sep: char)
    ensures
        split_on(s, sep).len() >= 1,
    decreases s.len(),
{
    if s.len() > 0 {
        lemma_split_nonempty(s.drop_last(), sep);
    }
}

/// The last occurrence found is an occurrence, and lies before the bound.
pub proof fn lemma_last_before_occurs(s: Seq<char>, p: Seq<char>, n: int)
    ensures
        last_before(s, p, n) >= 0 ==> occurs_at(s, p, last_before(s, p, n)),
        n >= 0 ==> last_before(s, p, n) < n,
    decreases n,
{
    if n > 0 && !occurs_at(s, p, n - 1) {
        lemma_last_before_occurs(s, p, n - 1);
    }
}

/// The characters of `s`, in order.
pub fn chars_of(s: &str) -> (r: Vec<char>)
    ensures
        r@ == s@,
{
    let mut r: Vec<char> = Vec::new();
    for c in iter: s.chars()
        invariant
            iter.seq() == s@,
            r@ == s@.take(iter.index() as int),
    {
        r.push(c);
        proof {
            assert(r@ =~= s@.take(iter.index() + 1));
        }
    }
    proof {
        assert(r@ =~= s@);
    }
    r
}

/// Relies on `String: FromIterator<&char>`: the string made of these characters.
#[verifier::external_body]
pub fn string_of(v: &[char]) -> (r: String)
    ensures
        r@ == v@,
{
    String::from_iter(v.iter())
}

/// Whether `c` is white space.
pub fn is_space_char(c: char) -> (b: bool)
    ensures
        b == is_space(c),
{
    let n = c as u32;
    (0x9 <= n && n <= 0xd) || n == 0x20 || n == 0x85 || n == 0xa0 || n == 0x1680 || (0x2000 <= n
        && n <= 0x200a) || n == 0x2028 || n == 0x2029 || n == 0x202f || n == 0x205f || n == 0x3000
}

/// The characters of `s` from `i` up to `j`.
pub fn copy_range(s: &[char], i: usize, j: usize) -> (r: Vec<char>)
    requires
        i <= j <= s@.len(),
    ensures
        r@ == s@.subrange(i as int, j as int),
{
    let mut r: Vec<char> = Vec::new();
    let mut k: usize = i;
    while k < j
        invariant
            i <= k <= j <= s@.len(),
            r@ == s@.subrange(i as int, k as int),
        decreases j - k,
    {
        r.push(s[k]);
        k += 1;
        proof {
            assert(r@ =~= s@.subrange(i as int, k as int));
        }
    }
    r
}

/// Appends the characters of `w` to `v`.
pub fn push_all(v: &mut Vec<char>, w: &[char])
    ensures
        final(v)@ == old(v)@ + w@,
{
    let ghost start = v@;
    let mut k: usize = 0;
    while k < w.len()
        invariant
            k <= w@.len(),
            v@ == start + w@.subrange(0, k as int),
        decreases w@.len() - k,
    {
        v.push(w[k]);
        k += 1;
        proof {
            assert(v@ =~= start + w@.subrange(0, k as int));
        }
    }
    proof {
        assert(w@.subrange(0, w@.len() as int) =~= w@);
    }
}

/// `s` without leading and trailing white space.
pub fn trim_chars(s: &[char]) -> (r: Vec<char>)
    ensures
        r@ == trim(s@),
{
    let n = s.len();
    let mut i: usize = 0;
    proof {
        assert(s@.subrange(0, n as int) =~= s@);
    }
    while i < n && is_space_char(s[i])
        invariant
            i <= n,
            n == s@.len(),
            trim_start(s@) == trim_start(s@.subrange(i as int, n as int)),
        decreases n - i,
    {
        proof {
            assert(s@.subrange(i + 1, n as int) =~= s@.subrange(i as int, n as int).drop_first());
        }
        i += 1;
    }
    proof {
        if i == n {
            assert(s@.subrange(i as int, n as int) =~= Seq::<char>::empty());
        }
    }
    let mut j: usize = n;
    while j > i && is_space_char(s[j - 1])
        invariant
            i <= j <= n,
            n == s@.len(),
            trim(s@) == trim_end(s@.subrange(i as int, j as int)),
        decreases j,
    {
        proof {
            assert(s@.subrange(i as int, j - 1) =~= s@.subrange(i as int, j as int).drop_last());
        }
        j -= 1;
    }
    copy_range(s, i, j)
}

/// The pieces of `s` between occurrences of `sep`.
pub fn split_chars(s: &[char], sep: char) -> (r: Vec<Vec<char>>)
    ensures
        views(r@) == split_on(s@, sep),
{
    let mut parts: Vec<Vec<char>> = Vec::new();
    let mut cur: Vec<char> = Vec::new();
    let mut i: usize = 0;
    proof {
        assert(s@.subrange(0, 0) =~= Seq::<char>::empty());
        assert(views(parts@).push(cur@) =~= split_on(s@.subrange(0, 0), sep));
    }
    while i < s.len()
        invariant
            i <= s@.len(),
            views(parts@).push(cur@) == split_on(s@.subrange(0, i as int), sep),
        decreases s@.len() - i,
    {
        let c = s[i];
        let ghost before = views(parts@).push(cur@);
        proof {
            assert(s@.subrange(0, i + 1).drop_last() =~= s@.subrange(0, i as int));
        }
        if c == sep {
            let old_cur = cur;
            parts.push(old_cur);
            cur = Vec::new();
            proof {
                assert(views(parts@) =~= before);
                assert(views(parts@).push(cur@) =~= before.push(Seq::empty()));
            }
        } else {
            cur.push(c);
            proof {
                assert(views(parts@).push(cur@) =~= before.update(
                    before.len() - 1,
                    before.last().push(c),
                ));
            }
        }
        i += 1;
    }
    proof {
        assert(s@.subrange(0, s@.len() as int) =~= s@);
    }
    parts.push(cur);
    proof {
        assert(views(parts@) =~= split_on(s@, sep));
    }
    parts
}

/// The pieces joined with `sep` between each two neighbours.
pub fn join_chars(parts: &Vec<Vec<char>>, sep: char) -> (r: Vec<char>)
    ensures
        r@ == join(views(parts@), sep),
{
    let mut r: Vec<char> = Vec::new();
    let mut k: usize = 0;
    proof {
        assert(views(parts@).subrange(0, 0) =~= Seq::<Seq<char>>::empty());
    }
    while k < parts.len()
        invariant
            k <= parts@.len(),
            r@ == join(views(parts@).subrange(0, k as int), sep),
        decreases parts@.len() - k,
    {
        let ghost pre = views(parts@).subrange(0, k as int);
        let ghost next = views(parts@).subrange(0, k + 1);
        proof {
            assert(next.drop_last() =~= pre);
        }
        if k > 0 {
            r.push(sep);
        }
        push_all(&mut r, parts[k].as_slice());
        k += 1;
        proof {
            if k == 1 {
                assert(r@ =~= next[0]);
            } else {
                assert(r@ =~= join(pre, sep).push(sep) + next.last());
            }
        }
    }
    proof {
        assert(views(parts@).subrange(0, parts@.len() as int) =~= views(parts@));
    }
    r
}

/// Whether `p` occurs in `s` starting at index `i`.
pub fn occurs_at_exec(s: &[char], p: &[char], i: usize) -> (b: bool)
    ensures
        b == occurs_at(s@, p@, i as int),
{
    let n = s.len();
    if i > n || p.len() > n - i {
        return false;
    }
    let mut k: usize = 0;
    while k < p.len()
        invariant
            k <= p@.len(),
            n == s@.len(),
            i <= n,
            i + p@.len() <= s@.len(),
            forall|m: int| 0 <= m < k ==> s@[i + m] == p@[m],
        decreases p@.len() - k,
    {
        if s[i + k] != p[k] {
            proof {
                assert(s@.subrange(i as int, i + p@.len())[k as int] != p@[k as int]);
            }
            return false;
        }
        k += 1;
    }
    proof {
        assert(s@.subrange(i as int, i + p@.len()) =~= p@);
    }
    true
}

/// How often `p` occurs in `s`, and where the last occurrence starts.
pub fn locate_last(s: &[char], p: &[char]) -> (r: (usize, Option<usize>))
    ensures
        r.0 == count_of(s@, p@),
        match r.1 {
            Some(k) => k == last_index_of(s@, p@) && k >= 0,
            None => last_index_of(s@, p@) == -1,
        },
{
    let mut count: usize = 0;
    let mut last: Option<usize> = None;
    let mut i: usize = 0;
    while i < s.len()
        invariant
            i <= s@.len(),
            count == count_before(s@, p@, i as int),
            count <= i,
            match last {
                Some(k) => k == last_before(s@, p@, i as int) && k >= 0,
                None => last_before(s@, p@, i as int) == -1,
            },
        decreases s@.len() - i,
    {
        if occurs_at_exec(s, p, i) {
            count += 1;
            last = Some(i);
        }
        i += 1;
    }
    (count, last)
}

/// `s` with every leading copy of `p` removed.
pub fn strip_prefixes_chars(s: &[char], p: &[char]) -> (r: Vec<char>)
    ensures
        r@ == strip_prefixes(s@, p@),
{
    let n = s.len();
    let mut i: usize = 0;
    proof {
        assert(s@.subrange(0, n as int) =~= s@);
    }
    if p.len() == 0 {
        return copy_range(s, 0, n);
    }
    while occurs_at_exec(s, p, i)
        invariant
            i <= n,
            n == s@.len(),
            p@.len() > 0,
            strip_prefixes(s@, p@) == strip_prefixes(s@.subrange(i as int, n as int), p@),
        decreases n - i,
    {
        let ghost t = s@.subrange(i as int, n as int);
        proof {
            assert(t.subrange(0, p@.len() as int) =~= s@.subrange(i as int, i + p@.len()));
            assert(t.subrange(p@.len() as int, t.len() as int) =~= s@.subrange(
                i + p@.len(),
                n as int,
            ));
        }
        i = i + p.len();
    }
    proof {
        let t = s@.subrange(i as int, n as int);
        if occurs_at(t, p@, 0) {
            assert(t.subrange(0, p@.len() as int) =~= s@.subrange(i as int, i + p@.len()));
        }
    }
    copy_range(s, i, n)
}

/// `s` with every trailing `c` removed.
pub fn strip_suffix_chars_exec(s: &[char], c: char) -> (r: Vec<char>)
    ensures
        r@ == strip_suffix_chars(s@, c),
{
    let mut j: usize = s.len();
    proof {
        assert(s@.subrange(0, j as int) =~= s@);
    }
    while j > 0 && s[j - 1] == c
        invariant
            j <= s@.len(),
            strip_suffix_chars(s@, c) == strip_suffix_chars(s@.subrange(0, j as int), c),
        decreases j,
    {
        proof {
            assert(s@.subrange(0, j - 1) =~= s@.subrange(0, j as int).drop_last());
        }
        j -= 1;
    }
    copy_range(s, 0, j)
}

/// Whether two character sequences are equal.
pub fn chars_eq(a: &[char], b: &[char]) -> (r: bool)
    ensures
        r == (a@ == b@),
{
    if a.len() != b.len() {
        return false;
    }
    let mut k: usize = 0;
    while k < a.len()
        invariant
            k <= a@.len(),
            a@.len() == b@.len(),
            forall|m: int| 0 <= m < k ==> a@[m] == b@[m],
        decreases a@.len() - k,
    {
        if a[k] != b[k] {
            return false;
        }
        k += 1;
    }
    proof {
        assert(a@ =~= b@);
    }
    true
}

} // verus!

//! Character-level helpers shared by the rest of the library: the specs of the
//! `str` operations the tool relies on (search, replace, lines, trim, split,
//! join) and executable counterparts over `Vec<char>`.

use vstd::prelude::*;

verus! {

broadcast use vstd::string::group_string_axioms;

/// `String::push` appends one character.
pub assume_specification[ String::push ](s: &mut String, ch: char)
    ensures
        final(s)@ == old(s)@.push(ch),
;

// ---------------------------------------------------------------------------
// Conversions

/// The characters of `s`, in order.
pub fn to_chars(s: &str) -> (v: Vec<char>)
    ensures
        v@ == s@,
{
    let mut v: Vec<char> = Vec::new();
    for c in it: s.chars()
        invariant
            v@ == it.seq().take(it.index() as int),
    {
        v.push(c);
    }
    v
}

/// The string made of the characters `v[from..to]`.
pub fn from_chars(v: &Vec<char>, from: usize, to: usize) -> (s: String)
    requires
        from <= to <= v@.len(),
    ensures
        s@ == v@.subrange(from as int, to as int),
{
    let mut s = String::new();
    let mut i = from;
    while i < to
        invariant
            from <= i <= to <= v@.len(),
            s@ == v@.subrange(from as int, i as int),
        decreases to - i,
    {
        s.push(v[i]);
        i += 1;
    }
    s
}

/// The string made of all characters of `v`.
pub fn string_of(v: &Vec<char>) -> (s: String)
    ensures
        s@ == v@,
{
    assert(v@.subrange(0, v@.len() as int) =~= v@);
    from_chars(v, 0, v.len())
}

/// Appends `s[from..to]` to `out`.
pub fn push_range(out: &mut Vec<char>, s: &Vec<char>, from: usize, to: usize)
    requires
        from <= to <= s@.len(),
    ensures
        final(out)@ == old(out)@ + s@.subrange(from as int, to as int),
{
    let mut i = from;
    while i < to
        invariant
            from <= i <= to <= s@.len(),
            out@ == old(out)@ + s@.subrange(from as int, i as int),
        decreases to - i,
    {
        out.push(s[i]);
        i += 1;
        assert(s@.subrange(from as int, i as int) =~= s@.subrange(from as int, i - 1).push(
            s@[i - 1],
        ));
    }
}

/// Appends all of `s` to `out`.
pub fn push_all(out: &mut Vec<char>, s: &Vec<char>)
    ensures
        final(out)@ == old(out)@ + s@,
{
    assert(s@.subrange(0, s@.len() as int) =~= s@);
    push_range(out, s, 0, s.len());
}

/// Appends the characters of `s` to `out`.
pub fn push_str(out: &mut Vec<char>, s: &str)
    ensures
        final(out)@ == old(out)@ + s@,
{
    let v = to_chars(s);
    push_all(out, &v);
}

/// A copy of `s[from..to]`.
pub fn slice_of(s: &Vec<char>, from: usize, to: usize) -> (r: Vec<char>)
    requires
        from <= to <= s@.len(),
    ensures
        r@ == s@.subrange(from as int, to as int),
{
    let mut r: Vec<char> = Vec::new();
    push_range(&mut r, s, from, to);
    assert(r@ =~= s@.subrange(from as int, to as int));
    r
}

// ---------------------------------------------------------------------------
// Equality, prefixes and search

/// `p` occurs in `s` starting at index `i`.
pub open spec fn occurs_at(s: Seq<char>, p: Seq<char>, i: int) -> bool {
    0 <= i && i + p.len() <= s.len() && s.subrange(i, i + p.len()) == p
}

pub open spec fn starts_with(s: Seq<char>, p: Seq<char>) -> bool {
    occurs_at(s, p, 0)
}

pub open spec fn ends_with(s: Seq<char>, p: Seq<char>) -> bool {
    occurs_at(s, p, s.len() - p.len())
}

/// `s` contains `p` somewhere.
pub open spec fn contains(s: Seq<char>, p: Seq<char>) -> bool {
    exists|i: int| occurs_at(s, p, i)
}

/// The first index at or after `i` where `p` occurs in `s` (what `str::find`
/// returns on the suffix that starts at `i`).
pub open spec fn find_from(s: Seq<char>, p: Seq<char>, i: nat) -> Option<nat>
    decreases s.len() - i,
{
    if i + p.len() > s.len() {
        None
    } else if occurs_at(s, p, i as int) {
        Some(i)
    } else if i >= s.len() {
        None
    } else {
        find_from(s, p, i + 1)
    }
}

pub proof fn lemma_find_from(s: Seq<char>, p: Seq<char>, i: nat)
    ensures
        match find_from(s, p, i) {
            Some(k) => i <= k && k + p.len() <= s.len() && occurs_at(s, p, k as int) && (forall|
                j: int,
            | i <= j < k ==> !occurs_at(s, p, j)),
            None => forall|j: int| i <= j ==> !occurs_at(s, p, j),
        },
    decreases s.len() - i,
{
    if i + p.len() > s.len() {
    } else if occurs_at(s, p, i as int) {
    } else if i >= s.len() {
    } else {
        lemma_find_from(s, p, i + 1);
    }
}

/// `find_from` finds nothing before an index known to hold no occurrence.
pub proof fn lemma_find_from_skip(s: Seq<char>, p: Seq<char>, i: nat, j: nat)
    requires
        i <= j,
        forall|k: int| i <= k < j ==> !occurs_at(s, p, k),
    ensures
        find_from(s, p, i) == find_from(s, p, j),
    decreases j - i,
{
    if i < j {
        if i + p.len() > s.len() {
            lemma_find_from_none_after(s, p, i, j);
        } else {
            lemma_find_from_skip(s, p, i + 1, j);
        }
    }
}

proof fn lemma_find_from_none_after(s: Seq<char>, p: Seq<char>, i: nat, j: nat)
    requires
        i <= j,
        i + p.len() > s.len(),
    ensures
        find_from(s, p, j) is None,
{
}

/// Whether `s[i..i + p.len()] == p`.
pub fn occurs_at_exec(s: &Vec<char>, p: &Vec<char>, i: usize) -> (b: bool)
    ensures
        b == occurs_at(s@, p@, i as int),
{
    let n = s.len();
    if i > n || p.len() > n - i {
        return false;
    }
    let mut k: usize = 0;
    while k < p.len()
        invariant
            n == s@.len(),
            i + p@.len() <= s@.len(),
            k <= p@.len(),
            forall|m: int| 0 <= m < k ==> s@[i + m] == p@[m],
        decreases p.len() - k,
    {
        if s[i + k] != p[k] {
            assert(s@.subrange(i as int, i + p@.len())[k as int] != p@[k as int]);
            return false;
        }
        k += 1;
    }
    assert(s@.subrange(i as int, i + p@.len()) =~= p@);
    true
}

/// The first index at or after `i` where `p` occurs in `s`.
pub fn find_from_exec(s: &Vec<char>, p: &Vec<char>, i: usize) -> (r: Option<usize>)
    ensures
        r is Some <==> find_from(s@, p@, i as nat) is Some,
        r is Some ==> find_from(s@, p@, i as nat) == Some(r->0 as nat),
{
    let mut j = i;
    loop
        invariant
            i <= j,
            find_from(s@, p@, i as nat) == find_from(s@, p@, j as nat),
        decreases s@.len() + 1 - j,
    {
        if j > s.len() || p.len() > s.len() - j {
            return None;
        }
        if p.len() == 0 {
            assert(s@.subrange(j as int, j as int) =~= p@);
            return Some(j);
        }
        if occurs_at_exec(s, p, j) {
            return Some(j);
        }
        j += 1;
    }
}

/// Whether `s[from..to]` equals `p`.
pub fn range_eq(s: &Vec<char>, from: usize, to: usize, p: &Vec<char>) -> (b: bool)
    requires
        from <= to <= s@.len(),
    ensures
        b == (s@.subrange(from as int, to as int) == p@),
{
    if to - from != p.len() {
        return false;
    }
    occurs_at_exec(s, p, from)
}

// ---------------------------------------------------------------------------
// Replace

/// `str::replace(s, p, r)` on the suffix starting at `i`: every non-overlapping
/// occurrence of the (non-empty) pattern `p`, left to right, becomes `r`.
pub open spec fn replace_from(s: Seq<char>, p: Seq<char>, r: Seq<char>, i: nat) -> Seq<char>
    decreases s.len() - i,
{
    if i > s.len() {
        seq![]
    } else if p.len() == 0 {
        s.subrange(i as int, s.len() as int)
    } else {
        match find_from(s, p, i) {
            None => s.subrange(i as int, s.len() as int),
            Some(k) => {
                proof {
                    lemma_find_from(s, p, i);
                }
                s.subrange(i as int, k as int) + r + replace_from(s, p, r, k + p.len())
            },
        }
    }
}

/// `str::replace(s, p, r)` for a non-empty pattern `p`.
pub open spec fn replace_all(s: Seq<char>, p: Seq<char>, r: Seq<char>) -> Seq<char> {
    replace_from(s, p, r, 0)
}

/// Every non-overlapping occurrence of `p` in `s`, left to right, replaced by `r`.
pub fn replace_exec(s: &Vec<char>, p: &Vec<char>, r: &Vec<char>) -> (out: Vec<char>)
    requires
        p@.len() > 0,
    ensures
        out@ == replace_all(s@, p@, r@),
{
    let mut out: Vec<char> = Vec::new();
    let mut i: usize = 0;
    let n = s.len();
    loop
        invariant
            n == s@.len(),
            p@.len() > 0,
            i <= s@.len(),
            out@ + replace_from(s@, p@, r@, i as nat) == replace_all(s@, p@, r@),
        decreases s@.len() - i,
    {
        proof {
            lemma_find_from(s@, p@, i as nat);
        }
        match find_from_exec(s, p, i) {
            None => {
                push_range(&mut out, s, i, s.len());
                return out;
            },
            Some(k) => {
                let ghost before = out@;
                push_range(&mut out, s, i, k);
                push_all(&mut out, r);
                assert(out@ + replace_from(s@, p@, r@, (k + p@.len()) as nat) =~= before
                    + replace_from(s@, p@, r@, i as nat));
                i = k + p.len();
            },
        }
    }
}

/// No character of `s` is `d`.
pub open spec fn free_of(s: Seq<char>, d: char) -> bool {
    forall|k: int| 0 <= k < s.len() ==> s[k] != d
}

/// Replacing every `d` (or anything, in a text free of `d`) by a text free of
/// `d` leaves no `d`.
pub proof fn lemma_replace_free_of(s: Seq<char>, p: Seq<char>, r: Seq<char>, i: nat, d: char)
    requires
        free_of(r, d),
        p == seq![d] || free_of(s, d),
    ensures
        free_of(replace_from(s, p, r, i), d),
    decreases s.len() - i,
{
    if i > s.len() {
    } else if p.len() == 0 {
        assert forall|k: int| 0 <= k < s.len() - i implies #[trigger] s.subrange(
            i as int,
            s.len() as int,
        )[k] != d by {
            assert(s[i + k] != d);
        }
    } else {
        lemma_find_from(s, p, i);
        match find_from(s, p, i) {
            None => {
                assert forall|k: int| 0 <= k < s.len() - i implies #[trigger] s.subrange(
                    i as int,
                    s.len() as int,
                )[k] != d by {
                    if p == seq![d] {
                        assert(!occurs_at(s, p, i + k));
                        if s[i + k] == d {
                            assert(s.subrange(i + k, i + k + 1) =~= p);
                        }
                    }
                }
            },
            Some(m) => {
                lemma_replace_free_of(s, p, r, m + p.len(), d);
                let head = s.subrange(i as int, m as int);
                assert forall|k: int| 0 <= k < head.len() implies #[trigger] head[k] != d by {
                    if p == seq![d] {
                        assert(!occurs_at(s, p, i + k));
                        if s[i + k] == d {
                            assert(s.subrange(i + k, i + k + 1) =~= p);
                        }
                    }
                }
                let rest = replace_from(s, p, r, m + p.len());
                let all = head + r + rest;
                assert forall|k: int| 0 <= k < all.len() implies all[k] != d by {
                    if k < head.len() {
                    } else if k < head.len() + r.len() {
                        assert(all[k] == r[k - head.len()]);
                    } else {
                        assert(all[k] == rest[k - head.len() - r.len()]);
                    }
                }
            },
        }
    }
}

// ---------------------------------------------------------------------------
// Lines

/// One trailing carriage return removed.
pub open spec fn strip_cr(l: Seq<char>) -> Seq<char> {
    if l.len() > 0 && l.last() == '\r' {
        l.drop_last()
    } else {
        l
    }
}

/// `str::lines` on the suffix starting at `i`: split at `\n`, a `\r` before the
/// `\n` is dropped, and a final line ending adds no empty line.
pub open spec fn lines_from(s: Seq<char>, i: nat) -> Seq<Seq<char>>
    decreases s.len() - i,
{
    if i >= s.len() {
        seq![]
    } else {
        match find_from(s, seq!['\n'], i) {
            Some(k) => {
                proof {
                    lemma_find_from(s, seq!['\n'], i);
                }
                seq![strip_cr(s.subrange(i as int, k as int))] + lines_from(s, k + 1)
            },
            None => seq![s.subrange(i as int, s.len() as int)],
        }
    }
}

/// `str::lines`.
pub open spec fn lines(s: Seq<char>) -> Seq<Seq<char>> {
    lines_from(s, 0)
}

/// The lines of `s`, as `str::lines` gives them.
pub fn lines_exec(s: &Vec<char>) -> (ls: Vec<Vec<char>>)
    ensures
        ls@.len() == lines(s@).len(),
        forall|j: int| 0 <= j < ls@.len() ==> #[trigger] ls@[j]@ == lines(s@)[j],
{
    let nl: Vec<char> = vec!['\n'];
    let mut ls: Vec<Vec<char>> = Vec::new();
    let ghost mut done: Seq<Seq<char>> = seq![];
    let mut i: usize = 0;
    loop
        invariant
            nl@ == seq!['\n'],
            i <= s@.len(),
            done + lines_from(s@, i as nat) == lines(s@),
            ls@.len() == done.len(),
            forall|j: int| 0 <= j < ls@.len() ==> #[trigger] ls@[j]@ == done[j],
        decreases s@.len() - i,
    {
        if i >= s.len() {
            assert(done =~= lines(s@));
            return ls;
        }
        proof {
            lemma_find_from(s@, nl@, i as nat);
        }
        match find_from_exec(s, &nl, i) {
            Some(k) => {
                let mut end = k;
                if k > i && s[k - 1] == '\r' {
                    end = k - 1;
                }
                let line = slice_of(s, i, end);
                proof {
                    let l = s@.subrange(i as int, k as int);
                    assert(line@ =~= strip_cr(l));
                    assert(done.push(line@) + lines_from(s@, (k + 1) as nat) =~= done
                        + lines_from(s@, i as nat));
                    done = done.push(line@);
                }
                ls.push(line);
                i = k + 1;
            },
            None => {
                let line = slice_of(s, i, s.len());
                proof {
                    assert(done.push(line@) =~= done + lines_from(s@, i as nat));
                    done = done.push(line@);
                }
                ls.push(line);
                assert(done =~= lines(s@));
                return ls;
            },
        }
    }
}

// ---------------------------------------------------------------------------
// Trimming

/// `char::is_whitespace`: the Unicode `White_Space` property.
pub open spec fn is_ws(c: char) -> bool {
    let u = c as u32;
    (0x9 <= u <= 0xd) || u == 0x20 || u == 0x85 || u == 0xa0 || u == 0x1680 || (0x2000 <= u
        <= 0x200a) || u == 0x2028 || u == 0x2029 || u == 0x202f || u == 0x205f || u == 0x3000
}

pub fn is_ws_exec(c: char) -> (b: bool)
    ensures
        b == is_ws(c),
{
    let u = c as u32;
    (0x9 <= u && u <= 0xd) || u == 0x20 || u == 0x85 || u == 0xa0 || u == 0x1680 || (0x2000 <= u
        && u <= 0x200a) || u == 0x2028 || u == 0x2029 || u == 0x202f || u == 0x205f || u == 0x3000
}

pub open spec fn trim_start(s: Seq<char>) -> Seq<char>
    decreases s.len(),
{
    if s.len() > 0 && is_ws(s[0]) {
        trim_start(s.drop_first())
    } else {
        s
    }
}

pub open spec fn trim_end(s: Seq<char>) -> Seq<char>
    decreases s.len(),
{
    if s.len() > 0 && is_ws(s.last()) {
        trim_end(s.drop_last())
    } else {
        s
    }
}

/// `str::trim`.
pub open spec fn trim(s: Seq<char>) -> Seq<char> {
    trim_end(trim_start(s))
}

/// `trim_start(s)` is a suffix of `s`.
pub proof fn lemma_trim_start_skip(s: Seq<char>)
    ensures
        exists|a: int| 0 <= a <= s.len() && trim_start(s) == s.skip(a),
    decreases s.len(),
{
    if s.len() > 0 && is_ws(s[0]) {
        lemma_trim_start_skip(s.drop_first());
        let a = choose|a: int| 0 <= a <= s.drop_first().len() && trim_start(s.drop_first()) == s.drop_first().skip(a);
        assert(s.drop_first().skip(a) =~= s.skip(a + 1));
    } else {
        assert(s.skip(0) =~= s);
    }
}

/// `trim_end(s)` is a prefix of `s`.
pub proof fn lemma_trim_end_take(s: Seq<char>)
    ensures
        exists|b: int| 0 <= b <= s.len() && trim_end(s) == s.take(b),
    decreases s.len(),
{
    if s.len() > 0 && is_ws(s.last()) {
        lemma_trim_end_take(s.drop_last());
        let b = choose|b: int| 0 <= b <= s.drop_last().len() && trim_end(s.drop_last()) == s.drop_last().take(b);
        assert(s.drop_last().take(b) =~= s.take(b));
    } else {
        assert(s.take(s.len() as int) =~= s);
    }
}

/// `trim(s)` is a piece of `s`.
pub proof fn lemma_trim_subrange(s: Seq<char>)
    ensures
        exists|a: int, b: int| 0 <= a <= b <= s.len() && trim(s) == s.subrange(a, b),
{
    lemma_trim_start_skip(s);
    let a = choose|a: int| 0 <= a <= s.len() && trim_start(s) == s.skip(a);
    let t = s.skip(a);
    lemma_trim_end_take(t);
    let b = choose|b: int| 0 <= b <= t.len() && trim_end(t) == t.take(b);
    assert(t.take(b) =~= s.subrange(a, a + b));
}

/// Appending a character to a text whose start is trimmed away leaves the
/// trimmed start growing by that character, unless all of it is whitespace.
proof fn lemma_trim_start_push(s: Seq<char>, c: char)
    ensures
        trim_start(s.push(c)) == (if trim_start(s).len() == 0 && is_ws(c) {
            seq![]
        } else {
            trim_start(s).push(c)
        }),
    decreases s.len(),
{
    if s.len() == 0 {
        let one = seq![c];
        assert(s.push(c) =~= one);
        assert(s.push(c)[0] == c);
        if is_ws(c) {
            assert(one.drop_first() =~= Seq::<char>::empty());
            assert(trim_start(one.drop_first()) == one.drop_first());
        } else {
            assert(trim_start(s).push(c) =~= one);
        }
    } else if is_ws(s[0]) {
        lemma_trim_start_push(s.drop_first(), c);
        assert(s.push(c)[0] == s[0]);
        assert(s.push(c).drop_first() =~= s.drop_first().push(c));
    } else {
        assert(s.push(c)[0] == s[0]);
    }
}

/// A line's trailing carriage return makes no difference once it is trimmed.
pub proof fn lemma_trim_strip_cr(s: Seq<char>)
    ensures
        trim(strip_cr(s)) == trim(s),
{
    if s.len() > 0 && s.last() == '\r' {
        let y = s.drop_last();
        assert(y.push('\r') =~= s);
        lemma_trim_start_push(y, '\r');
        if trim_start(y).len() == 0 {
            assert(trim_end(trim_start(y)) == trim_start(y));
        } else {
            let z = trim_start(y).push('\r');
            assert(z.drop_last() =~= trim_start(y));
        }
    }
}

/// `str::trim_start_matches(c)` for one character.
pub open spec fn trim_start_char(s: Seq<char>, c: char) -> Seq<char>
    decreases s.len(),
{
    if s.len() > 0 && s[0] == c {
        trim_start_char(s.drop_first(), c)
    } else {
        s
    }
}

/// `str::trim_end_matches(c)` for one character.
pub open spec fn trim_end_char(s: Seq<char>, c: char) -> Seq<char>
    decreases s.len(),
{
    if s.len() > 0 && s.last() == c {
        trim_end_char(s.drop_last(), c)
    } else {
        s
    }
}

/// `str::trim_matches(c)` for one character.
pub open spec fn trim_char(s: Seq<char>, c: char) -> Seq<char> {
    trim_end_char(trim_start_char(s, c), c)
}

/// The bounds of `trim_start(s[from..to])` within `s`.
pub fn trim_start_bound(s: &Vec<char>, from: usize, to: usize) -> (a: usize)
    requires
        from <= to <= s@.len(),
    ensures
        from <= a <= to,
        s@.subrange(a as int, to as int) == trim_start(s@.subrange(from as int, to as int)),
{
    let mut a = from;
    while a < to && is_ws_exec(s[a])
        invariant
            from <= a <= to <= s@.len(),
            trim_start(s@.subrange(a as int, to as int)) == trim_start(
                s@.subrange(from as int, to as int),
            ),
        decreases to - a,
    {
        assert(s@.subrange(a as int, to as int).drop_first() =~= s@.subrange(a + 1, to as int));
        a += 1;
    }
    a
}

/// The end bound of `trim_end(s[from..to])` within `s`.
pub fn trim_end_bound(s: &Vec<char>, from: usize, to: usize) -> (b: usize)
    requires
        from <= to <= s@.len(),
    ensures
        from <= b <= to,
        s@.subrange(from as int, b as int) == trim_end(s@.subrange(from as int, to as int)),
{
    let mut b = to;
    while b > from && is_ws_exec(s[b - 1])
        invariant
            from <= b <= to <= s@.len(),
            trim_end(s@.subrange(from as int, b as int)) == trim_end(
                s@.subrange(from as int, to as int),
            ),
        decreases b - from,
    {
        assert(s@.subrange(from as int, b as int).drop_last() =~= s@.subrange(
            from as int,
            b - 1,
        ));
        b -= 1;
    }
    b
}

/// The bounds of `trim(s[from..to])` within `s`.
pub fn trim_bounds(s: &Vec<char>, from: usize, to: usize) -> (r: (usize, usize))
    requires
        from <= to <= s@.len(),
    ensures
        from <= r.0 <= r.1 <= to,
        s@.subrange(r.0 as int, r.1 as int) == trim(s@.subrange(from as int, to as int)),
{
    let a = trim_start_bound(s, from, to);
    let b = trim_end_bound(s, a, to);
    (a, b)
}

/// The bounds of `trim_char(s[from..to], c)` within `s`.
pub fn trim_char_bounds(s: &Vec<char>, from: usize, to: usize, c: char) -> (r: (usize, usize))
    requires
        from <= to <= s@.len(),
    ensures
        from <= r.0 <= r.1 <= to,
        s@.subrange(r.0 as int, r.1 as int) == trim_char(s@.subrange(from as int, to as int), c),
{
    let mut a = from;
    while a < to && s[a] == c
        invariant
            from <= a <= to <= s@.len(),
            trim_start_char(s@.subrange(a as int, to as int), c) == trim_start_char(
                s@.subrange(from as int, to as int),
                c,
            ),
        decreases to - a,
    {
        assert(s@.subrange(a as int, to as int).drop_first() =~= s@.subrange(a + 1, to as int));
        a += 1;
    }
    let mut b = to;
    while b > a && s[b - 1] == c
        invariant
            from <= a <= b <= to <= s@.len(),
            trim_end_char(s@.subrange(a as int, b as int), c) == trim_end_char(
                s@.subrange(a as int, to as int),
                c,
            ),
        decreases b - a,
    {
        assert(s@.subrange(a as int, b as int).drop_last() =~= s@.subrange(a as int, b - 1));
        b -= 1;
    }
    (a, b)
}

// ---------------------------------------------------------------------------
// Splitting and joining

/// `str::split(c)` on the suffix starting at `i`: always at least one piece.
pub open spec fn split_from(s: Seq<char>, c: char, i: nat) -> Seq<Seq<char>>
    decreases s.len() - i,
{
    if i > s.len() {
        seq![]
    } else {
        match find_from(s, seq![c], i) {
            Some(k) => {
                proof {
                    lemma_find_from(s, seq![c], i);
                }
                seq![s.subrange(i as int, k as int)] + split_from(s, c, k + 1)
            },
            None => seq![s.subrange(i as int, s.len() as int)],
        }
    }
}

/// `str::split(c)`.
pub open spec fn split_on(s: Seq<char>, c: char) -> Seq<Seq<char>> {
    split_from(s, c, 0)
}

/// The pieces of `s` between occurrences of `c`, as `str::split` gives them.
pub fn split_exec(s: &Vec<char>, c: char) -> (ps: Vec<Vec<char>>)
    ensures
        ps@.len() == split_on(s@, c).len(),
        forall|j: int| 0 <= j < ps@.len() ==> #[trigger] ps@[j]@ == split_on(s@, c)[j],
{
    let sep: Vec<char> = vec![c];
    let mut ps: Vec<Vec<char>> = Vec::new();
    let ghost mut done: Seq<Seq<char>> = seq![];
    let mut i: usize = 0;
    let n = s.len();
    loop
        invariant
            n == s@.len(),
            sep@ == seq![c],
            i <= s@.len(),
            done + split_from(s@, c, i as nat) == split_on(s@, c),
            ps@.len() == done.len(),
            forall|j: int| 0 <= j < ps@.len() ==> #[trigger] ps@[j]@ == done[j],
        decreases s@.len() - i,
    {
        proof {
            lemma_find_from(s@, sep@, i as nat);
        }
        match find_from_exec(s, &sep, i) {
            Some(k) => {
                let piece = slice_of(s, i, k);
                proof {
                    assert(done.push(piece@) + split_from(s@, c, (k + 1) as nat) =~= done
                        + split_from(s@, c, i as nat));
                    done = done.push(piece@);
                }
                ps.push(piece);
                i = k + 1;
            },
            None => {
                let piece = slice_of(s, i, s.len());
                proof {
                    assert(done.push(piece@) =~= done + split_from(s@, c, i as nat));
                    done = done.push(piece@);
                }
                ps.push(piece);
                assert(done =~= split_on(s@, c));
                return ps;
            },
        }
    }
}

/// The views of a sequence of character vectors.
pub open spec fn views(v: Seq<Vec<char>>) -> Seq<Seq<char>> {
    v.map_values(|x: Vec<char>| x@)
}

/// `parts.join(sep)`.
pub open spec fn join(parts: Seq<Seq<char>>, sep: Seq<char>) -> Seq<char>
    decreases parts.len(),
{
    if parts.len() == 0 {
        seq![]
    } else if parts.len() == 1 {
        parts[0]
    } else {
        join(parts.drop_last(), sep) + sep + parts.last()
    }
}

/// The parts joined with `sep` between them.
pub fn join_exec(parts: &Vec<Vec<char>>, sep: &Vec<char>) -> (out: Vec<char>)
    ensures
        out@ == join(views(parts@), sep@),
{
    let ghost vs = views(parts@);
    let mut out: Vec<char> = Vec::new();
    let mut i: usize = 0;
    while i < parts.len()
        invariant
            vs == views(parts@),
            i <= parts@.len(),
            out@ == join(vs.take(i as int), sep@),
        decreases parts.len() - i,
    {
        if i > 0 {
            push_all(&mut out, sep);
        }
        push_all(&mut out, &parts[i]);
        assert(vs.take(i + 1).drop_last() =~= vs.take(i as int));
        i += 1;
    }
    assert(vs.take(i as int) =~= vs);
    out
}

// ---------------------------------------------------------------------------
// ASCII case and number formatting

/// `char::to_ascii_lowercase`.
pub open spec fn ascii_lower(c: char) -> char {
    if 'A' <= c <= 'Z' {
        ((c as u32) + 32) as char
    } else {
        c
    }
}

/// `str::to_ascii_lowercase`.
pub open spec fn ascii_lower_seq(s: Seq<char>) -> Seq<char> {
    s.map_values(|c: char| ascii_lower(c))
}

pub fn ascii_lower_exec(c: char) -> (r: char)
    ensures
        r == ascii_lower(c),
{
    if 'A' <= c && c <= 'Z' {
        ((c as u8) + 32) as char
    } else {
        c
    }
}

/// The lowercase copy of `s[from..to]`.
pub fn ascii_lower_range(s: &Vec<char>, from: usize, to: usize) -> (r: Vec<char>)
    requires
        from <= to <= s@.len(),
    ensures
        r@ == ascii_lower_seq(s@.subrange(from as int, to as int)),
{
    let mut r: Vec<char> = Vec::new();
    let mut i = from;
    while i < to
        invariant
            from <= i <= to <= s@.len(),
            r@ =~= ascii_lower_seq(s@.subrange(from as int, i as int)),
        decreases to - i,
    {
        r.push(ascii_lower_exec(s[i]));
        i += 1;
    }
    r
}

/// The decimal digit for `d < 10`.
pub open spec fn digit_char(d: nat) -> char {
    if d == 0 { '0' }
    else if d == 1 { '1' }
    else if d == 2 { '2' }
    else if d == 3 { '3' }
    else if d == 4 { '4' }
    else if d == 5 { '5' }
    else if d == 6 { '6' }
    else if d == 7 { '7' }
    else if d == 8 { '8' }
    else { '9' }
}

/// The lowercase hexadecimal digit for `d < 16`.
pub open spec fn hex_char(d: nat) -> char {
    if d < 10 { digit_char(d) }
    else if d == 10 { 'a' }
    else if d == 11 { 'b' }
    else if d == 12 { 'c' }
    else if d == 13 { 'd' }
    else if d == 14 { 'e' }
    else { 'f' }
}

/// The decimal representation of `n`, without leading zeros.
pub open spec fn decimal(n: nat) -> Seq<char>
    decreases n,
{
    if n < 10 {
        seq![digit_char(n)]
    } else {
        decimal(n / 10).push(digit_char(n % 10))
    }
}

/// The last `k` hexadecimal digits of `n`, zero-padded (`{:0k$x}` for `n < 16^k`).
pub open spec fn hex_fixed(n: nat, k: nat) -> Seq<char>
    decreases k,
{
    if k == 0 {
        seq![]
    } else {
        hex_fixed(n / 16, (k - 1) as nat).push(hex_char(n % 16))
    }
}

fn hex_char_exec(d: u64) -> (c: char)
    requires
        d < 16,
    ensures
        c == hex_char(d as nat),
{
    match d {
        0 => '0',
        1 => '1',
        2 => '2',
        3 => '3',
        4 => '4',
        5 => '5',
        6 => '6',
        7 => '7',
        8 => '8',
        9 => '9',
        10 => 'a',
        11 => 'b',
        12 => 'c',
        13 => 'd',
        14 => 'e',
        _ => 'f',
    }
}

/// `decimal(n)` as characters.
pub fn decimal_exec(n: u128) -> (r: Vec<char>)
    ensures
        r@ == decimal(n as nat),
    decreases n,
{
    if n < 10 {
        vec![hex_char_exec(n as u64)]
    } else {
        let mut r = decimal_exec(n / 10);
        r.push(hex_char_exec((n % 10) as u64));
        r
    }
}

/// `hex_fixed(n, k)` as characters.
pub fn hex_fixed_exec(n: u64, k: usize) -> (r: Vec<char>)
    ensures
        r@ == hex_fixed(n as nat, k as nat),
    decreases k,
{
    if k == 0 {
        Vec::new()
    } else {
        let mut r = hex_fixed_exec(n / 16, k - 1);
        r.push(hex_char_exec(n % 16));
        r
    }
}

} // verus!

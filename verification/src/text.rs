//! Character-level text handling shared by the sysfs, procfs and fdinfo parsers.
//!
//! Text is handled as sequences of `char`. The spec functions here say what the
//! corresponding `str` operations of std mean (`trim`, `lines`, `split`,
//! `split_whitespace`, `parse::<u64>()`, `from_str_radix(_, 16)`), and the
//! executable functions are proved against them.
use vstd::prelude::*;

verus! {

// ---------------------------------------------------------------------------
// Conversions between `str`/`String` and character vectors
// ---------------------------------------------------------------------------

/// The characters of `s`, in order, in a vector.
pub(crate) fn chars_of(s: &str) -> (v: Vec<char>)
    ensures
        v@ == s@,
{
    broadcast use vstd::string::axiom_spec_iter, vstd::string::next_postcondition;

    let mut v: Vec<char> = Vec::new();
    for c in it: s.chars()
        invariant
            v@ == it.seq().take(it.index()),
    {
        v.push(c);
    }
    v
}

/// A `String` made of the given characters, in order (`FromIterator<char>`).
#[verifier::external_body]
pub(crate) fn string_of(v: &[char]) -> (s: String)
    ensures
        s@ == v@,
{
    v.iter().collect()
}

/// Copies the characters `s[lo..hi]` into a new vector.
pub fn copy_range(s: &[char], lo: usize, hi: usize) -> (r: Vec<char>)
    requires
        lo <= hi <= s@.len(),
    ensures
        r@ == s@.subrange(lo as int, hi as int),
{
    let mut r: Vec<char> = Vec::new();
    let mut i = lo;
    while i < hi
        invariant
            lo <= i <= hi <= s@.len(),
            r@ == s@.subrange(lo as int, i as int),
        decreases hi - i,
    {
        r.push(s[i]);
        i = i + 1;
    }
    r
}

/// Whether two character slices hold the same characters.
pub fn chars_eq(a: &[char], b: &[char]) -> (r: bool)
    ensures
        r == (a@ == b@),
{
    if a.len() != b.len() {
        return false;
    }
    let mut i: usize = 0;
    while i < a.len()
        invariant
            a@.len() == b@.len(),
            i <= a@.len(),
            forall|k: int| 0 <= k < i ==> a@[k] == b@[k],
        decreases a.len() - i,
    {
        if a[i] != b[i] {
            return false;
        }
        i = i + 1;
    }
    assert(a@ =~= b@);
    true
}

/// Whether `s` begins with `p`.
pub fn starts_with(s: &[char], p: &[char]) -> (r: bool)
    ensures
        r == (p@.len() <= s@.len() && s@.subrange(0, p@.len() as int) == p@),
{
    if p.len() > s.len() {
        return false;
    }
    let mut i: usize = 0;
    while i < p.len()
        invariant
            p@.len() <= s@.len(),
            i <= p@.len(),
            forall|k: int| 0 <= k < i ==> s@[k] == p@[k],
        decreases p.len() - i,
    {
        if s[i] != p[i] {
            assert(s@.subrange(0, p@.len() as int)[i as int] != p@[i as int]);
            return false;
        }
        i = i + 1;
    }
    assert(s@.subrange(0, p@.len() as int) =~= p@);
    true
}

/// Whether `s` ends with `p`.
pub fn ends_with(s: &[char], p: &[char]) -> (r: bool)
    ensures
        r == (p@.len() <= s@.len() && s@.subrange(s@.len() - p@.len(), s@.len() as int) == p@),
{
    if p.len() > s.len() {
        return false;
    }
    let n = s.len();
    let off = n - p.len();
    let mut i: usize = 0;
    while i < p.len()
        invariant
            p@.len() <= s@.len(),
            n == s@.len(),
            off + p@.len() == n,
            i <= p@.len(),
            forall|k: int| 0 <= k < i ==> s@[off + k] == p@[k],
        decreases p.len() - i,
    {
        if s[off + i] != p[i] {
            assert(s@.subrange(off as int, s@.len() as int)[i as int] != p@[i as int]);
            return false;
        }
        i = i + 1;
    }
    assert(s@.subrange(off as int, s@.len() as int) =~= p@);
    true
}

// ---------------------------------------------------------------------------
// Whitespace and trimming
// ---------------------------------------------------------------------------

/// The Unicode `White_Space` property, which `char::is_whitespace` tests.
pub open spec fn is_ws(c: char) -> bool {
    let n = c as u32;
    ||| 0x9 <= n <= 0xd
    ||| n == 0x20
    ||| n == 0x85
    ||| n == 0xa0
    ||| n == 0x1680
    ||| 0x2000 <= n <= 0x200a
    ||| n == 0x2028
    ||| n == 0x2029
    ||| n == 0x202f
    ||| n == 0x205f
    ||| n == 0x3000
}

/// `char::is_whitespace`.
pub fn is_ws_char(c: char) -> (b: bool)
    ensures
        b == is_ws(c),
{
    let n = c as u32;
    (0x9 <= n && n <= 0xd) || n == 0x20 || n == 0x85 || n == 0xa0 || n == 0x1680 || (0x2000 <= n
        && n <= 0x200a) || n == 0x2028 || n == 0x2029 || n == 0x202f || n == 0x205f || n == 0x3000
}

/// `s` without its leading whitespace.
pub open spec fn trim_start(s: Seq<char>) -> Seq<char>
    decreases s.len(),
{
    if s.len() > 0 && is_ws(s[0]) {
        trim_start(s.drop_first())
    } else {
        s
    }
}

/// `s` without its trailing whitespace.
pub open spec fn trim_end(s: Seq<char>) -> Seq<char>
    decreases s.len(),
{
    if s.len() > 0 && is_ws(s.last()) {
        trim_end(s.drop_last())
    } else {
        s
    }
}

/// `str::trim`: `s` without leading and trailing whitespace.
pub open spec fn trim(s: Seq<char>) -> Seq<char> {
    trim_end(trim_start(s))
}

proof fn lemma_trim_start_range(s: Seq<char>, lo: int, i: int, hi: int)
    requires
        0 <= lo <= i <= hi <= s.len(),
        forall|k: int| lo <= k < i ==> is_ws(s[k]),
        i == hi || !is_ws(s[i]),
    ensures
        trim_start(s.subrange(lo, hi)) == s.subrange(i, hi),
    decreases i - lo,
{
    if lo < i {
        assert(s.subrange(lo, hi).drop_first() =~= s.subrange(lo + 1, hi));
        lemma_trim_start_range(s, lo + 1, i, hi);
    } else {
        assert(s.subrange(lo, hi).len() == 0 || s.subrange(lo, hi)[0] == s[i]);
    }
}

proof fn lemma_trim_end_range(s: Seq<char>, lo: int, j: int, hi: int)
    requires
        0 <= lo <= j <= hi <= s.len(),
        forall|k: int| j <= k < hi ==> is_ws(s[k]),
        j == lo || !is_ws(s[j - 1]),
    ensures
        trim_end(s.subrange(lo, hi)) == s.subrange(lo, j),
    decreases hi - j,
{
    if j < hi {
        assert(s.subrange(lo, hi).drop_last() =~= s.subrange(lo, hi - 1));
        lemma_trim_end_range(s, lo, j, hi - 1);
    } else {
        assert(s.subrange(lo, hi).len() == 0 || s.subrange(lo, hi).last() == s[j - 1]);
    }
}

/// The bounds of `trim(s[lo..hi])` inside `s`.
pub fn trim_range(s: &[char], lo: usize, hi: usize) -> (r: (usize, usize))
    requires
        lo <= hi <= s@.len(),
    ensures
        lo <= r.0 <= r.1 <= hi,
        s@.subrange(r.0 as int, r.1 as int) == trim(s@.subrange(lo as int, hi as int)),
{
    let mut i = lo;
    while i < hi && is_ws_char(s[i])
        invariant
            lo <= i <= hi <= s@.len(),
            forall|k: int| lo <= k < i ==> is_ws(s@[k]),
        decreases hi - i,
    {
        i = i + 1;
    }
    proof {
        lemma_trim_start_range(s@, lo as int, i as int, hi as int);
    }
    let mut j = hi;
    while j > i && is_ws_char(s[j - 1])
        invariant
            lo <= i <= j <= hi <= s@.len(),
            forall|k: int| j <= k < hi ==> is_ws(s@[k]),
        decreases j - i,
    {
        j = j - 1;
    }
    proof {
        assert(s@.subrange(i as int, hi as int) =~= s@.subrange(lo as int, hi as int).subrange(
            i - lo,
            hi - lo,
        ));
        lemma_trim_end_range(s@, i as int, j as int, hi as int);
    }
    (i, j)
}

/// `str::trim` on a character slice.
pub fn trim_chars(s: &[char]) -> (r: Vec<char>)
    ensures
        r@ == trim(s@),
{
    let (a, b) = trim_range(s, 0, s.len());
    assert(s@.subrange(0, s@.len() as int) =~= s@);
    copy_range(s, a, b)
}

// ---------------------------------------------------------------------------
// Searching and splitting
// ---------------------------------------------------------------------------

/// Index of the first `c` in `s`, or -1.
pub open spec fn find(s: Seq<char>, c: char) -> int
    decreases s.len(),
{
    if s.len() == 0 {
        -1
    } else if s[0] == c {
        0
    } else {
        let r = find(s.drop_first(), c);
        if r < 0 {
            -1
        } else {
            r + 1
        }
    }
}

pub proof fn lemma_find(s: Seq<char>, c: char)
    ensures
        -1 <= find(s, c) < s.len(),
        find(s, c) >= 0 ==> s[find(s, c)] == c,
        forall|k: int|
            0 <= k < (if find(s, c) < 0 {
                s.len() as int
            } else {
                find(s, c)
            }) ==> s[k] != c,
    decreases s.len(),
{
    if s.len() > 0 && s[0] != c {
        lemma_find(s.drop_first(), c);
        assert forall|k: int|
            0 <= k < (if find(s, c) < 0 {
                s.len() as int
            } else {
                find(s, c)
            }) implies s[k] != c by {
            if k > 0 {
                assert(s[k] == s.drop_first()[k - 1]);
            }
        }
    }
}

proof fn lemma_find_at(s: Seq<char>, c: char, i: int)
    requires
        0 <= i <= s.len(),
        forall|k: int| 0 <= k < i ==> s[k] != c,
        i == s.len() || s[i] == c,
    ensures
        find(s, c) == (if i == s.len() {
            -1
        } else {
            i
        }),
    decreases i,
{
    if i > 0 {
        lemma_find_at(s.drop_first(), c, i - 1);
    }
}

/// `str::split(c)`: the pieces of `s` between occurrences of `c`.
pub open spec fn split(s: Seq<char>, c: char) -> Seq<Seq<char>>
    decreases s.len(),
{
    let i = find(s, c);
    if i < 0 {
        seq![s]
    } else {
        proof {
            lemma_find(s, c);
        }
        seq![s.take(i)] + split(s.skip(i + 1), c)
    }
}

/// `s` without one trailing carriage return.
pub open spec fn strip_cr(s: Seq<char>) -> Seq<char> {
    if s.len() > 0 && s.last() == '\r' {
        s.drop_last()
    } else {
        s
    }
}

/// `str::lines`: pieces ended by `\n` (a `\r` before the `\n` belongs to the
/// line ending), the final line ending being optional.
pub open spec fn lines(s: Seq<char>) -> Seq<Seq<char>>
    decreases s.len(),
{
    if s.len() == 0 {
        seq![]
    } else {
        let i = find(s, '\n');
        if i < 0 {
            seq![s]
        } else {
            proof {
                lemma_find(s, '\n');
            }
            seq![strip_cr(s.take(i))] + lines(s.skip(i + 1))
        }
    }
}

/// Index of the first `c` in `s[from..]`, or `s.len()` when there is none.
pub fn find_from(s: &[char], from: usize, c: char) -> (r: usize)
    requires
        from <= s@.len(),
    ensures
        from <= r <= s@.len(),
        forall|k: int| from <= k < r ==> s@[k] != c,
        r < s@.len() ==> s@[r as int] == c,
        find(s@.skip(from as int), c) == (if r == s@.len() {
            -1
        } else {
            r - from
        }),
{
    let mut i = from;
    while i < s.len() && s[i] != c
        invariant
            from <= i <= s@.len(),
            forall|k: int| from <= k < i ==> s@[k] != c,
        decreases s.len() - i,
    {
        i = i + 1;
    }
    proof {
        lemma_find_at(s@.skip(from as int), c, i - from);
    }
    i
}

/// The character sequences held by a vector of character vectors.
pub open spec fn views(v: Seq<Vec<char>>) -> Seq<Seq<char>> {
    v.map_values(|x: Vec<char>| x@)
}

/// `str::split(c)` on a character slice.
pub fn split_chars(s: &[char], c: char) -> (r: Vec<Vec<char>>)
    ensures
        views(r@) == split(s@, c),
{
    let mut r: Vec<Vec<char>> = Vec::new();
    let mut pos: usize = 0;
    assert(s@.skip(0) =~= s@);
    assert(views(r@) =~= Seq::<Seq<char>>::empty());
    loop
        invariant
            pos <= s@.len(),
            split(s@, c) == views(r@) + split(s@.skip(pos as int), c),
        decreases s@.len() - pos,
    {
        let j = find_from(s, pos, c);
        let piece = copy_range(s, pos, j);
        let ghost rest = s@.skip(pos as int);
        if j == s.len() {
            assert(piece@ =~= rest);
            let ghost before = views(r@);
            r.push(piece);
            assert(views(r@) =~= before.push(rest));
            assert(split(rest, c) == seq![rest]);
            assert(before + seq![rest] =~= before.push(rest));
            return r;
        }
        proof {
            assert(rest.take(j - pos) =~= piece@);
            assert(rest.skip(j - pos + 1) =~= s@.skip(j + 1));
        }
        let ghost before = views(r@);
        r.push(piece);
        assert(views(r@) =~= before.push(piece@));
        pos = j + 1;
    }
}

/// `str::lines` on a character slice.
pub fn lines_chars(s: &[char]) -> (r: Vec<Vec<char>>)
    ensures
        views(r@) == lines(s@),
{
    let mut r: Vec<Vec<char>> = Vec::new();
    let mut pos: usize = 0;
    assert(s@.skip(0) =~= s@);
    assert(views(r@) =~= Seq::<Seq<char>>::empty());
    loop
        invariant
            pos <= s@.len(),
            lines(s@) == views(r@) + lines(s@.skip(pos as int)),
        decreases s@.len() - pos,
    {
        let ghost rest = s@.skip(pos as int);
        if pos == s.len() {
            assert(rest.len() == 0);
            assert(views(r@) + lines(rest) =~= views(r@));
            return r;
        }
        let j = find_from(s, pos, '\n');
        let ghost before = views(r@);
        if j == s.len() {
            let piece = copy_range(s, pos, j);
            assert(piece@ =~= rest);
            r.push(piece);
            assert(views(r@) =~= before.push(rest));
            assert(lines(rest) == seq![rest]);
            assert(before + seq![rest] =~= before.push(rest));
            return r;
        }
        let hi = if j > pos && s[j - 1] == '\r' {
            j - 1
        } else {
            j
        };
        let piece = copy_range(s, pos, hi);
        proof {
            assert(rest.take(j - pos) =~= s@.subrange(pos as int, j as int));
            assert(strip_cr(rest.take(j - pos)) =~= piece@);
            assert(rest.skip(j - pos + 1) =~= s@.skip(j + 1));
        }
        r.push(piece);
        assert(views(r@) =~= before.push(piece@));
        assert(before.push(piece@) + lines(s@.skip(j + 1)) =~= before + (seq![piece@] + lines(
            s@.skip(j + 1),
        )));
        pos = j + 1;
    }
}

/// Index of the first whitespace character in `s`, or -1.
pub open spec fn find_ws(s: Seq<char>) -> int
    decreases s.len(),
{
    if s.len() == 0 {
        -1
    } else if is_ws(s[0]) {
        0
    } else {
        let r = find_ws(s.drop_first());
        if r < 0 {
            -1
        } else {
            r + 1
        }
    }
}

pub proof fn lemma_find_ws(s: Seq<char>)
    ensures
        -1 <= find_ws(s) < s.len(),
        find_ws(s) >= 0 ==> is_ws(s[find_ws(s)]),
    decreases s.len(),
{
    if s.len() > 0 && !is_ws(s[0]) {
        lemma_find_ws(s.drop_first());
    }
}

proof fn lemma_find_ws_at(s: Seq<char>, i: int)
    requires
        0 <= i <= s.len(),
        forall|k: int| 0 <= k < i ==> !is_ws(s[k]),
        i == s.len() || is_ws(s[i]),
    ensures
        find_ws(s) == (if i == s.len() {
            -1
        } else {
            i
        }),
    decreases i,
{
    if i > 0 {
        lemma_find_ws_at(s.drop_first(), i - 1);
    }
}

/// `str::split_whitespace`: the maximal runs of non-whitespace characters.
pub open spec fn split_ws(s: Seq<char>) -> Seq<Seq<char>>
    decreases s.len(),
{
    if s.len() == 0 {
        seq![]
    } else if is_ws(s[0]) {
        split_ws(s.drop_first())
    } else {
        let i = find_ws(s);
        if i < 0 {
            seq![s]
        } else {
            proof {
                lemma_find_ws(s);
            }
            seq![s.take(i)] + split_ws(s.skip(i))
        }
    }
}

/// `str::split_whitespace` on a character slice.
pub fn split_ws_chars(s: &[char]) -> (r: Vec<Vec<char>>)
    ensures
        views(r@) == split_ws(s@),
{
    let mut r: Vec<Vec<char>> = Vec::new();
    let mut pos: usize = 0;
    assert(s@.skip(0) =~= s@);
    assert(views(r@) =~= Seq::<Seq<char>>::empty());
    while pos < s.len()
        invariant
            pos <= s@.len(),
            split_ws(s@) == views(r@) + split_ws(s@.skip(pos as int)),
        decreases s@.len() - pos,
    {
        let ghost rest = s@.skip(pos as int);
        if is_ws_char(s[pos]) {
            assert(rest.drop_first() =~= s@.skip(pos + 1));
            pos = pos + 1;
        } else {
            let mut j = pos + 1;
            while j < s.len() && !is_ws_char(s[j])
                invariant
                    pos < j <= s@.len(),
                    forall|k: int| pos <= k < j ==> !is_ws(s@[k]),
                decreases s@.len() - j,
            {
                j = j + 1;
            }
            proof {
                lemma_find_ws_at(rest, j - pos);
            }
            let piece = copy_range(s, pos, j);
            let ghost before = views(r@);
            proof {
                if j < s.len() {
                    assert(rest.take(j - pos) =~= piece@);
                    assert(rest.skip(j - pos) =~= s@.skip(j as int));
                } else {
                    assert(rest =~= piece@);
                    assert(s@.skip(j as int) =~= Seq::<char>::empty());
                }
            }
            r.push(piece);
            assert(views(r@) =~= before.push(piece@));
            assert(before.push(piece@) + split_ws(s@.skip(j as int)) =~= before + (seq![piece@]
                + split_ws(s@.skip(j as int))));
            pos = j;
        }
    }
    assert(s@.skip(pos as int).len() == 0);
    assert(views(r@) + split_ws(s@.skip(pos as int)) =~= views(r@));
    r
}

// ---------------------------------------------------------------------------
// Unsigned integer parsing (`str::parse` / `from_str_radix`)
// ---------------------------------------------------------------------------

/// The value of `c` as a digit in `radix` (10 or 16), if it is one.
pub open spec fn digit_value(c: char, radix: nat) -> Option<nat> {
    let n = c as u32;
    if 48 <= n <= 57 {
        Some((n - 48) as nat)
    } else if radix == 16 && 97 <= n <= 102 {
        Some((n - 87) as nat)
    } else if radix == 16 && 65 <= n <= 70 {
        Some((n - 55) as nat)
    } else {
        None
    }
}

/// Whether every character of `s` is a digit in `radix`.
pub open spec fn all_digits(s: Seq<char>, radix: nat) -> bool {
    forall|i: int| 0 <= i < s.len() ==> (#[trigger] digit_value(s[i], radix)) is Some
}

/// The number written by the digits `s` in `radix`.
pub open spec fn digits_value(s: Seq<char>, radix: nat) -> nat
    decreases s.len(),
{
    if s.len() == 0 {
        0
    } else {
        digits_value(s.drop_last(), radix) * radix + match digit_value(s.last(), radix) {
            Some(d) => d,
            None => 0,
        }
    }
}

/// `s` without one leading `+`.
pub open spec fn unsigned_digits(s: Seq<char>) -> Seq<char> {
    if s.len() > 0 && s[0] == '+' {
        s.drop_first()
    } else {
        s
    }
}

/// What `from_str_radix(s, radix)` gives for an unsigned type whose largest
/// value is `max`: an optional `+`, then at least one digit, the value not
/// above `max`.
pub open spec fn parse_uint(s: Seq<char>, radix: nat, max: nat) -> Option<nat> {
    let d = unsigned_digits(s);
    if d.len() > 0 && all_digits(d, radix) && digits_value(d, radix) <= max {
        Some(digits_value(d, radix))
    } else {
        None
    }
}

proof fn lemma_digits_value_prefix(s: Seq<char>, radix: nat, k: int)
    requires
        0 <= k <= s.len(),
        radix >= 1,
    ensures
        digits_value(s.take(k), radix) <= digits_value(s, radix),
    decreases s.len() - k,
{
    if k < s.len() {
        lemma_digits_value_prefix(s, radix, k + 1);
        assert(s.take(k + 1).drop_last() =~= s.take(k));
        let x = digits_value(s.take(k), radix);
        assert(x * radix >= x) by (nonlinear_arith)
            requires
                radix >= 1,
        ;
    } else {
        assert(s.take(k) =~= s);
    }
}

/// Parses `s[lo..hi]` as an unsigned number in `radix` not above `max`.
pub fn parse_uint_range(s: &[char], lo: usize, hi: usize, radix: u32, max: u64) -> (r: Option<u64>)
    requires
        lo <= hi <= s@.len(),
        radix == 10 || radix == 16,
    ensures
        match r {
            Some(v) => parse_uint(s@.subrange(lo as int, hi as int), radix as nat, max as nat)
                == Some(v as nat),
            None => parse_uint(s@.subrange(lo as int, hi as int), radix as nat, max as nat) is None,
        },
{
    let ghost t = s@.subrange(lo as int, hi as int);
    let start = if lo < hi && s[lo] == '+' {
        lo + 1
    } else {
        lo
    };
    let ghost d = unsigned_digits(t);
    assert(d =~= s@.subrange(start as int, hi as int));
    if start == hi {
        return None;
    }
    let mut v: u64 = 0;
    let mut i = start;
    assert(d.take(0) =~= Seq::<char>::empty());
    while i < hi
        invariant
            start <= i <= hi <= s@.len(),
            d == s@.subrange(start as int, hi as int),
            t == s@.subrange(lo as int, hi as int),
            d == unsigned_digits(t),
            radix == 10 || radix == 16,
            all_digits(d.take(i - start), radix as nat),
            v as nat == digits_value(d.take(i - start), radix as nat),
            v <= max,
        decreases hi - i,
    {
        let c = s[i];
        let n = c as u32;
        let dig: u64 = if 48 <= n && n <= 57 {
            (n - 48) as u64
        } else if radix == 16 && 97 <= n && n <= 102 {
            (n - 87) as u64
        } else if radix == 16 && 65 <= n && n <= 70 {
            (n - 55) as u64
        } else {
            assert(d[i - start] == c);
            assert(!all_digits(d, radix as nat));
            return None;
        };
        assert(d[i - start] == c);
        assert(digit_value(c, radix as nat) == Some(dig as nat));
        let ghost next = d.take(i - start + 1);
        assert(next.drop_last() =~= d.take(i - start));
        assert(next.last() == c);
        let wide: u128 = if radix == 10 {
            (v as u128) * 10 + dig as u128
        } else {
            (v as u128) * 16 + dig as u128
        };
        assert(wide as nat == digits_value(next, radix as nat));
        if wide > max as u128 {
            proof {
                if all_digits(d, radix as nat) {
                    lemma_digits_value_prefix(d, radix as nat, i - start + 1);
                }
            }
            return None;
        }
        v = wide as u64;
        i = i + 1;
        assert forall|k: int| 0 <= k < i - start implies (#[trigger] digit_value(
            d.take(i - start)[k],
            radix as nat,
        )) is Some by {
            if k < i - start - 1 {
                assert(d.take(i - start)[k] == d.take(i - start - 1)[k]);
            }
        }
    }
    assert(d.take(hi - start) =~= d);
    Some(v)
}

/// `str::parse::<u64>()` on a character slice.
pub fn parse_u64(s: &[char]) -> (r: Option<u64>)
    ensures
        match r {
            Some(v) => parse_uint(s@, 10, u64::MAX as nat) == Some(v as nat),
            None => parse_uint(s@, 10, u64::MAX as nat) is None,
        },
{
    assert(s@.subrange(0, s@.len() as int) =~= s@);
    parse_uint_range(s, 0, s.len(), 10, u64::MAX)
}

// ---------------------------------------------------------------------------
// Decimal formatting
// ---------------------------------------------------------------------------

/// The character for a decimal digit.
pub open spec fn digit_char(d: nat) -> char {
    if d == 0 {
        '0'
    } else if d == 1 {
        '1'
    } else if d == 2 {
        '2'
    } else if d == 3 {
        '3'
    } else if d == 4 {
        '4'
    } else if d == 5 {
        '5'
    } else if d == 6 {
        '6'
    } else if d == 7 {
        '7'
    } else if d == 8 {
        '8'
    } else {
        '9'
    }
}

/// The decimal representation of `n` (what `Display` writes for an integer).
pub open spec fn dec_chars(n: nat) -> Seq<char>
    decreases n,
{
    if n < 10 {
        seq![digit_char(n)]
    } else {
        dec_chars(n / 10).push(digit_char(n % 10))
    }
}

fn digit_to_char(d: u64) -> (c: char)
    requires
        d < 10,
    ensures
        c == digit_char(d as nat),
{
    if d == 0 {
        '0'
    } else if d == 1 {
        '1'
    } else if d == 2 {
        '2'
    } else if d == 3 {
        '3'
    } else if d == 4 {
        '4'
    } else if d == 5 {
        '5'
    } else if d == 6 {
        '6'
    } else if d == 7 {
        '7'
    } else if d == 8 {
        '8'
    } else {
        '9'
    }
}

/// The decimal digits of `n`.
pub fn u64_dec_chars(n: u64) -> (r: Vec<char>)
    ensures
        r@ == dec_chars(n as nat),
    decreases n,
{
    if n < 10 {
        let mut v: Vec<char> = Vec::new();
        v.push(digit_to_char(n));
        assert(v@ =~= seq![digit_char(n as nat)]);
        v
    } else {
        let mut v = u64_dec_chars(n / 10);
        v.push(digit_to_char(n % 10));
        v
    }
}

/// `s` followed by the characters of `t`.
pub fn append_chars(s: &mut Vec<char>, t: &[char])
    ensures
        final(s)@ == old(s)@ + t@,
{
    let mut i: usize = 0;
    while i < t.len()
        invariant
            i <= t@.len(),
            s@ == old(s)@ + t@.take(i as int),
        decreases t.len() - i,
    {
        s.push(t[i]);
        i = i + 1;
        assert(s@ =~= old(s)@ + t@.take(i as int));
    }
    assert(t@.take(t@.len() as int) =~= t@);
}

/// `prefix` followed by the decimal digits of `n` (`format!("{prefix}{n}")`).
pub fn label_with_number(prefix: &str, n: u64) -> (r: String)
    ensures
        r@ == prefix@ + dec_chars(n as nat),
{
    let mut v = chars_of(prefix);
    let d = u64_dec_chars(n);
    append_chars(&mut v, d.as_slice());
    string_of(v.as_slice())
}

/// Whether every character of `s` is an ASCII digit.
pub open spec fn all_ascii_digits(s: Seq<char>) -> bool {
    forall|i: int| 0 <= i < s.len() ==> 48 <= (#[trigger] s[i]) as u32 <= 57
}

pub proof fn lemma_split_nonempty(s: Seq<char>, c: char)
    ensures
        split(s, c).len() >= 1,
    decreases s.len(),
{
    let i = find(s, c);
    if i >= 0 {
        lemma_find(s, c);
        lemma_split_nonempty(s.skip(i + 1), c);
    }
}

/// The last piece of `str::split(c)` is the text after the last `c`: a
/// suffix of `s` without `c`, which is all of `s` or follows a `c`.
pub proof fn lemma_split_last(s: Seq<char>, c: char)
    ensures
        split(s, c).len() >= 1,
        split(s, c).last().len() <= s.len(),
        s.subrange(s.len() - split(s, c).last().len(), s.len() as int) == split(s, c).last(),
        forall|k: int| 0 <= k < split(s, c).last().len() ==> split(s, c).last()[k] != c,
        split(s, c).last().len() < s.len() ==> s[s.len() - split(s, c).last().len() - 1] == c,
    decreases s.len(),
{
    lemma_split_nonempty(s, c);
    lemma_find(s, c);
    let i = find(s, c);
    if i < 0 {
        assert(s.subrange(0, s.len() as int) =~= s);
    } else {
        let t = s.skip(i + 1);
        lemma_split_last(t, c);
        let l = split(t, c).last();
        assert(split(s, c) == seq![s.take(i)] + split(t, c));
        assert(split(s, c).last() == l);
        assert(s.subrange(s.len() - l.len(), s.len() as int) =~= t.subrange(t.len() - l.len(), t.len() as int));
        if l.len() < t.len() {
            assert(s[s.len() - l.len() - 1] == t[t.len() - l.len() - 1]);
        }
    }
}

} // verus!

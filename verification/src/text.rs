use vstd::prelude::*;

verus! {

/// The characters of `s`, one by one.
pub fn chars_of(s: &str) -> (v: Vec<char>)
    ensures
        v@ == s@,
{
    let mut v: Vec<char> = Vec::new();
    for c in it: s.chars()
        invariant
            v@ == it.seq().take(it.index()),
            it.seq() == s@,
    {
        v.push(c);
    }
    v
}

/// Appends one character to a string (`String::push`).
#[verifier::external_body]
pub(crate) fn push_char(s: &mut String, c: char)
    ensures
        final(s)@ == old(s)@.push(c),
{
    s.push(c);
}

/// A string holding exactly the given characters.
pub fn string_of(cs: &Vec<char>, lo: usize, hi: usize) -> (s: String)
    requires
        lo <= hi <= cs@.len(),
    ensures
        s@ == cs@.subrange(lo as int, hi as int),
{
    let mut s = String::new();
    let mut i = lo;
    while i < hi
        invariant
            lo <= i <= hi <= cs@.len(),
            s@ == cs@.subrange(lo as int, i as int),
        decreases hi - i,
    {
        push_char(&mut s, cs[i]);
        assert(cs@.subrange(lo as int, i + 1) == cs@.subrange(lo as int, i as int).push(cs@[i as int]));
        i += 1;
    }
    s
}

/// Concatenation of a string and a string slice, as a new string.
pub fn concat(a: &str, b: &str) -> (s: String)
    ensures
        s@ == a@ + b@,
{
    let mut s = String::from_str(a);
    s.append(b);
    s
}

// ---------------------------------------------------------------------------
// Decimal rendering of integers
// ---------------------------------------------------------------------------

/// The ASCII digit for `d` (0..=9).
pub open spec fn digit_char(d: int) -> char {
    if d == 0 { '0' }
    else if d == 1 { '1' }
    else if d == 2 { '2' }
    else if d == 3 { '3' }
    else if d == 4 { '4' }
    else if d == 5 { '5' }
    else if d == 6 { '6' }
    else if d == 7 { '7' }
    else if d == 8 { '8' }
    else { '9' }
}

/// The value of an ASCII digit character, or `None` for any other character.
pub open spec fn digit_value(c: char) -> Option<int> {
    if c == '0' { Some(0) }
    else if c == '1' { Some(1) }
    else if c == '2' { Some(2) }
    else if c == '3' { Some(3) }
    else if c == '4' { Some(4) }
    else if c == '5' { Some(5) }
    else if c == '6' { Some(6) }
    else if c == '7' { Some(7) }
    else if c == '8' { Some(8) }
    else if c == '9' { Some(9) }
    else { None }
}

/// The decimal notation of `n`, without sign or leading zeros (as `Display` prints it).
pub open spec fn decimal(n: nat) -> Seq<char>
    decreases n,
{
    if n < 10 {
        seq![digit_char(n as int)]
    } else {
        decimal(n / 10).push(digit_char((n % 10) as int))
    }
}

pub fn digit_char_of(d: u64) -> (c: char)
    requires
        d < 10,
    ensures
        c == digit_char(d as int),
{
    if d == 0 { '0' }
    else if d == 1 { '1' }
    else if d == 2 { '2' }
    else if d == 3 { '3' }
    else if d == 4 { '4' }
    else if d == 5 { '5' }
    else if d == 6 { '6' }
    else if d == 7 { '7' }
    else if d == 8 { '8' }
    else { '9' }
}

/// Appends the decimal notation of `n`.
pub fn push_decimal(s: &mut String, n: u64)
    ensures
        final(s)@ == old(s)@ + decimal(n as nat),
    decreases n,
{
    if n >= 10 {
        push_decimal(s, n / 10);
    }
    push_char(s, digit_char_of(n % 10));
}

/// The decimal notation of `n` as a string.
pub fn decimal_string(n: u64) -> (s: String)
    ensures
        s@ == decimal(n as nat),
{
    let mut s = String::new();
    push_decimal(&mut s, n);
    s
}

// ---------------------------------------------------------------------------
// Parsing unsigned integers the way `str::parse` does
// ---------------------------------------------------------------------------

/// Why text is not an unsigned integer (the kinds of `ParseIntError`).
#[derive(Clone, Copy, Debug, PartialEq, Eq)]
pub enum IntErrorKind {
    Empty,
    InvalidDigit,
    PosOverflow,
}

/// Reads decimal digits left to right onto `acc`; the first bad character or the first
/// step past `max` decides the error.
pub open spec fn parse_digits(ds: Seq<char>, acc: int, max: int) -> Result<int, IntErrorKind>
    decreases ds.len(),
{
    if ds.len() == 0 {
        Ok(acc)
    } else {
        match digit_value(ds[0]) {
            None => Err(IntErrorKind::InvalidDigit),
            Some(d) => if acc * 10 + d > max {
                Err(IntErrorKind::PosOverflow)
            } else {
                parse_digits(ds.drop_first(), acc * 10 + d, max)
            },
        }
    }
}

/// An unsigned integer no greater than `max`, read from `s` as `str::parse` reads it:
/// an optional leading `+`, then decimal digits only.
pub open spec fn parse_uint(s: Seq<char>, max: int) -> Result<int, IntErrorKind> {
    if s.len() == 0 {
        Err(IntErrorKind::Empty)
    } else if (s[0] == '+' || s[0] == '-') && s.len() == 1 {
        Err(IntErrorKind::InvalidDigit)
    } else if s[0] == '+' {
        parse_digits(s.drop_first(), 0, max)
    } else {
        parse_digits(s, 0, max)
    }
}

fn digit_of(c: char) -> (r: Option<u64>)
    ensures
        match digit_value(c) {
            Some(d) => r == Some(d as u64),
            None => r is None,
        },
{
    if c == '0' { Some(0) }
    else if c == '1' { Some(1) }
    else if c == '2' { Some(2) }
    else if c == '3' { Some(3) }
    else if c == '4' { Some(4) }
    else if c == '5' { Some(5) }
    else if c == '6' { Some(6) }
    else if c == '7' { Some(7) }
    else if c == '8' { Some(8) }
    else if c == '9' { Some(9) }
    else { None }
}

/// Parses `cs[lo..hi]` as an unsigned integer no greater than `max`.
pub fn parse_uint_range(cs: &Vec<char>, lo: usize, hi: usize, max: u64) -> (r: Result<u64, IntErrorKind>)
    requires
        lo <= hi <= cs@.len(),
    ensures
        r matches Ok(v) ==> parse_uint(cs@.subrange(lo as int, hi as int), max as int) == Ok::<int, IntErrorKind>(v as int) && v <= max,
        r matches Err(e) ==> parse_uint(cs@.subrange(lo as int, hi as int), max as int) == Err::<int, IntErrorKind>(e),
{
    let ghost s = cs@.subrange(lo as int, hi as int);
    if lo == hi {
        return Err(IntErrorKind::Empty);
    }
    if (cs[lo] == '+' || cs[lo] == '-') && hi - lo == 1 {
        return Err(IntErrorKind::InvalidDigit);
    }
    let mut i = lo;
    if cs[lo] == '+' {
        i = lo + 1;
    }
    let ghost ds = cs@.subrange(i as int, hi as int);
    assert(s[0] == '+' ==> s.drop_first() == ds);
    assert(s[0] != '+' ==> s == ds);
    assert(parse_uint(s, max as int) == parse_digits(ds, 0, max as int));
    let mut acc: u64 = 0;
    let start = i;
    while i < hi
        invariant
            start <= i <= hi <= cs@.len(),
            acc <= max,
            ds == cs@.subrange(start as int, hi as int),
            parse_uint(s, max as int) == parse_digits(ds, 0, max as int),
            s == cs@.subrange(lo as int, hi as int),
            parse_digits(ds, 0, max as int) == parse_digits(cs@.subrange(i as int, hi as int), acc as int, max as int),
        decreases hi - i,
    {
        let ghost rest = cs@.subrange(i as int, hi as int);
        assert(rest[0] == cs@[i as int]);
        assert(rest.drop_first() == cs@.subrange(i + 1, hi as int));
        match digit_of(cs[i]) {
            None => {
                assert(parse_digits(rest, acc as int, max as int) == Err::<int, IntErrorKind>(IntErrorKind::InvalidDigit));
                return Err(IntErrorKind::InvalidDigit);
            },
            Some(d) => {
                if d > max {
                    assert(acc * 10 + d > max) by (nonlinear_arith)
                        requires d > max, acc >= 0;
                    assert(parse_digits(rest, acc as int, max as int) == Err::<int, IntErrorKind>(IntErrorKind::PosOverflow));
                    return Err(IntErrorKind::PosOverflow);
                }
                if acc > (max - d) / 10 {
                    assert(acc * 10 + d > max) by (nonlinear_arith)
                        requires acc > (max - d) / 10, d <= 9, d <= max;
                    assert(parse_digits(rest, acc as int, max as int) == Err::<int, IntErrorKind>(IntErrorKind::PosOverflow));
                    return Err(IntErrorKind::PosOverflow);
                }
                assert(acc * 10 + d <= max) by (nonlinear_arith)
                    requires acc <= (max - d) / 10, d <= max;
                acc = acc * 10 + d;
            },
        }
        i += 1;
    }
    Ok(acc)
}


// ---------------------------------------------------------------------------
// Character classes and searching
// ---------------------------------------------------------------------------

/// Unicode `White_Space`, as `char::is_whitespace` decides it.
pub open spec fn is_whitespace(c: char) -> bool {
    let u = c as u32;
    ||| 9 <= u <= 13
    ||| u == 32
    ||| u == 0x85
    ||| u == 0xa0
    ||| u == 0x1680
    ||| 0x2000 <= u <= 0x200a
    ||| u == 0x2028
    ||| u == 0x2029
    ||| u == 0x202f
    ||| u == 0x205f
    ||| u == 0x3000
}

pub fn char_is_whitespace(c: char) -> (r: bool)
    ensures
        r == is_whitespace(c),
{
    let u = c as u32;
    (9 <= u && u <= 13) || u == 32 || u == 0x85 || u == 0xa0 || u == 0x1680
        || (0x2000 <= u && u <= 0x200a) || u == 0x2028 || u == 0x2029 || u == 0x202f
        || u == 0x205f || u == 0x3000
}

/// `s` with its leading whitespace removed.
pub open spec fn trim_start(s: Seq<char>) -> Seq<char>
    decreases s.len(),
{
    if s.len() > 0 && is_whitespace(s[0]) {
        trim_start(s.drop_first())
    } else {
        s
    }
}

/// `s` with its trailing whitespace removed.
pub open spec fn trim_end(s: Seq<char>) -> Seq<char>
    decreases s.len(),
{
    if s.len() > 0 && is_whitespace(s.last()) {
        trim_end(s.drop_last())
    } else {
        s
    }
}

/// `str::trim`: both ends.
pub open spec fn trim(s: Seq<char>) -> Seq<char> {
    trim_end(trim_start(s))
}

/// The bounds of `trim(cs[lo..hi])` inside `cs`.
pub fn trim_bounds(cs: &Vec<char>, lo: usize, hi: usize) -> (r: (usize, usize))
    requires
        lo <= hi <= cs@.len(),
    ensures
        lo <= r.0 <= r.1 <= hi,
        cs@.subrange(r.0 as int, r.1 as int) == trim(cs@.subrange(lo as int, hi as int)),
        trim_start(cs@.subrange(lo as int, hi as int)) == cs@.subrange(r.0 as int, hi as int),
{
    let mut i = lo;
    while i < hi && char_is_whitespace(cs[i])
        invariant
            lo <= i <= hi <= cs@.len(),
            trim_start(cs@.subrange(lo as int, hi as int)) == trim_start(cs@.subrange(i as int, hi as int)),
        decreases hi - i,
    {
        assert(cs@.subrange(i as int, hi as int).drop_first() == cs@.subrange(i + 1, hi as int));
        i += 1;
    }
    assert(trim_start(cs@.subrange(i as int, hi as int)) == cs@.subrange(i as int, hi as int));
    let mut j = hi;
    while j > i && char_is_whitespace(cs[j - 1])
        invariant
            lo <= i <= j <= hi <= cs@.len(),
            trim_end(cs@.subrange(i as int, hi as int)) == trim_end(cs@.subrange(i as int, j as int)),
        decreases j - i,
    {
        assert(cs@.subrange(i as int, j as int).drop_last() == cs@.subrange(i as int, j - 1));
        j -= 1;
    }
    assert(trim_end(cs@.subrange(i as int, j as int)) == cs@.subrange(i as int, j as int));
    (i, j)
}

/// `s[i..]` begins with `p`.
pub open spec fn matches_at(s: Seq<char>, p: Seq<char>, i: int) -> bool {
    0 <= i && i + p.len() <= s.len() && s.subrange(i, i + p.len()) == p
}

/// `str::contains` for a string pattern.
pub open spec fn contains(s: Seq<char>, p: Seq<char>) -> bool {
    exists|i: int| matches_at(s, p, i)
}

/// `str::starts_with`.
pub open spec fn starts_with(s: Seq<char>, p: Seq<char>) -> bool {
    matches_at(s, p, 0)
}

/// `str::ends_with`.
pub open spec fn ends_with(s: Seq<char>, p: Seq<char>) -> bool {
    p.len() <= s.len() && matches_at(s, p, s.len() - p.len())
}

/// Whether `cs[i..]` begins with `p`.
pub fn matches_at_exec(cs: &Vec<char>, p: &Vec<char>, i: usize) -> (r: bool)
    ensures
        r == matches_at(cs@, p@, i as int),
{
    if p.len() > cs.len() || i > cs.len() - p.len() {
        return false;
    }
    let mut k: usize = 0;
    while k < p.len()
        invariant
            i + p@.len() <= cs@.len(),
            cs@.len() <= usize::MAX,
            k <= p@.len(),
            forall|m: int| 0 <= m < k ==> cs@[i + m] == p@[m],
        decreases p.len() - k,
    {
        if cs[i + k] != p[k] {
            assert(cs@.subrange(i as int, i + p@.len())[k as int] != p@[k as int]);
            return false;
        }
        k += 1;
    }
    assert(cs@.subrange(i as int, i + p@.len()) == p@);
    true
}

/// Whether `p` occurs in `cs`.
pub fn contains_exec(cs: &Vec<char>, p: &Vec<char>) -> (r: bool)
    ensures
        r == contains(cs@, p@),
{
    if p.len() > cs.len() {
        return false;
    }
    let last = cs.len() - p.len();
    let mut i: usize = 0;
    while i < last
        invariant
            last == cs@.len() - p@.len(),
            i <= last,
            forall|j: int| 0 <= j < i ==> !matches_at(cs@, p@, j),
        decreases last - i,
    {
        if matches_at_exec(cs, p, i) {
            return true;
        }
        i += 1;
    }
    if matches_at_exec(cs, p, last) {
        return true;
    }
    assert forall|j: int| !matches_at(cs@, p@, j) by {
        if 0 <= j && j + p@.len() <= cs@.len() {
            assert(j <= last);
        }
    }
    false
}

/// Whether `p` occurs in `s`.
pub fn str_contains(s: &str, p: &str) -> (r: bool)
    ensures
        r == contains(s@, p@),
{
    contains_exec(&chars_of(s), &chars_of(p))
}

/// The index of the first `c` in `s`.
pub open spec fn index_of(s: Seq<char>, c: char) -> Option<int>
    decreases s.len(),
{
    if s.len() == 0 {
        None
    } else if s[0] == c {
        Some(0)
    } else {
        match index_of(s.drop_first(), c) {
            Some(i) => Some(i + 1),
            None => None,
        }
    }
}

pub proof fn lemma_index_of(s: Seq<char>, c: char, i: int)
    requires
        0 <= i <= s.len(),
        forall|j: int| 0 <= j < i ==> s[j] != c,
    ensures
        i < s.len() && s[i] == c ==> index_of(s, c) == Some(i),
        i == s.len() ==> index_of(s, c) is None,
    decreases i,
{
    if i > 0 {
        assert forall|j: int| 0 <= j < i - 1 implies s.drop_first()[j] != c by {
            assert(s.drop_first()[j] == s[j + 1]);
        }
        lemma_index_of(s.drop_first(), c, i - 1);
    }
}

/// The first index of `c` in `cs[lo..hi]`, counted from `lo`.
pub fn index_of_exec(cs: &Vec<char>, lo: usize, hi: usize, c: char) -> (r: Option<usize>)
    requires
        lo <= hi <= cs@.len(),
    ensures
        r matches Some(k) ==> lo <= k < hi && index_of(cs@.subrange(lo as int, hi as int), c) == Some(k - lo),
        r is None ==> index_of(cs@.subrange(lo as int, hi as int), c) is None,
{
    let ghost s = cs@.subrange(lo as int, hi as int);
    let mut i = lo;
    while i < hi
        invariant
            lo <= i <= hi <= cs@.len(),
            s == cs@.subrange(lo as int, hi as int),
            forall|j: int| 0 <= j < i - lo ==> s[j] != c,
        decreases hi - i,
    {
        if cs[i] == c {
            proof { lemma_index_of(s, c, i - lo); }
            return Some(i);
        }
        i += 1;
    }
    proof { lemma_index_of(s, c, i - lo); }
    None
}

/// `s` with every trailing `c` removed (`str::trim_end_matches` with a char).
pub open spec fn trim_end_char(s: Seq<char>, c: char) -> Seq<char>
    decreases s.len(),
{
    if s.len() > 0 && s.last() == c {
        trim_end_char(s.drop_last(), c)
    } else {
        s
    }
}

/// The end of `trim_end_char(cs[lo..hi], c)` inside `cs`.
pub fn trim_end_char_exec(cs: &Vec<char>, lo: usize, hi: usize, c: char) -> (r: usize)
    requires
        lo <= hi <= cs@.len(),
    ensures
        lo <= r <= hi,
        cs@.subrange(lo as int, r as int) == trim_end_char(cs@.subrange(lo as int, hi as int), c),
{
    let mut j = hi;
    while j > lo && cs[j - 1] == c
        invariant
            lo <= j <= hi <= cs@.len(),
            trim_end_char(cs@.subrange(lo as int, hi as int), c) == trim_end_char(cs@.subrange(lo as int, j as int), c),
        decreases j - lo,
    {
        assert(cs@.subrange(lo as int, j as int).drop_last() == cs@.subrange(lo as int, j - 1));
        j -= 1;
    }
    j
}

/// `s` with each `c` replaced by `rep` (`str::replace` with a char pattern).
pub open spec fn replace_char(s: Seq<char>, c: char, rep: Seq<char>) -> Seq<char>
    decreases s.len(),
{
    if s.len() == 0 {
        seq![]
    } else {
        (if s[0] == c { rep } else { seq![s[0]] }) + replace_char(s.drop_first(), c, rep)
    }
}

pub fn replace_char_exec(cs: &Vec<char>, c: char, rep: &str) -> (r: Vec<char>)
    ensures
        r@ == replace_char(cs@, c, rep@),
{
    let rep_chars = chars_of(rep);
    let mut out: Vec<char> = Vec::new();
    let mut i: usize = 0;
    assert(cs@.skip(0) == cs@);
    while i < cs.len()
        invariant
            i <= cs@.len(),
            rep_chars@ == rep@,
            replace_char(cs@, c, rep@) == out@ + replace_char(cs@.skip(i as int), c, rep@),
        decreases cs.len() - i,
    {
        assert(cs@.skip(i as int).drop_first() == cs@.skip(i + 1));
        assert(cs@.skip(i as int)[0] == cs@[i as int]);
        let ghost before = out@;
        if cs[i] == c {
            let mut k: usize = 0;
            while k < rep_chars.len()
                invariant
                    k <= rep_chars@.len(),
                    out@ == before + rep_chars@.take(k as int),
                decreases rep_chars.len() - k,
            {
                out.push(rep_chars[k]);
                assert(rep_chars@.take(k + 1) == rep_chars@.take(k as int).push(rep_chars@[k as int]));
                k += 1;
            }
            assert(rep_chars@.take(k as int) == rep_chars@);
        } else {
            out.push(cs[i]);
        }
        assert(replace_char(cs@, c, rep@) == out@ + replace_char(cs@.skip(i + 1), c, rep@));
        i += 1;
    }
    assert(cs@.skip(i as int) == Seq::<char>::empty());
    out
}


/// Character-wise equality of two character sequences.
pub fn chars_eq(a: &Vec<char>, b: &Vec<char>) -> (r: bool)
    ensures
        r == (a@ == b@),
{
    if a.len() != b.len() {
        return false;
    }
    let mut i: usize = 0;
    while i < a.len()
        invariant
            a@.len() == b@.len(),
            i <= a@.len(),
            forall|j: int| 0 <= j < i ==> a@[j] == b@[j],
        decreases a.len() - i,
    {
        if a[i] != b[i] {
            return false;
        }
        i += 1;
    }
    assert(a@ == b@);
    true
}

/// String equality, by characters.
pub fn str_eq(a: &str, b: &str) -> (r: bool)
    ensures
        r == (a@ == b@),
{
    chars_eq(&chars_of(a), &chars_of(b))
}


// ---------------------------------------------------------------------------
// Lines
// ---------------------------------------------------------------------------

/// A line without its trailing carriage return, if it has one.
pub open spec fn drop_cr(l: Seq<char>) -> Seq<char> {
    if l.len() > 0 && l.last() == '\r' { l.drop_last() } else { l }
}

/// The lines of `s` (`str::lines`), reading left to right with the line being read in
/// `cur`: a line ends at `\n` (a `\r` before it is dropped); a last line without `\n` is
/// kept as it is, and no empty line follows a final `\n`.
pub open spec fn lines_from(s: Seq<char>, cur: Seq<char>) -> Seq<Seq<char>>
    decreases s.len(),
{
    if s.len() == 0 {
        if cur.len() == 0 { seq![] } else { seq![cur] }
    } else if s[0] == '\n' {
        seq![drop_cr(cur)] + lines_from(s.drop_first(), seq![])
    } else {
        lines_from(s.drop_first(), cur.push(s[0]))
    }
}

/// The lines of `s`.
pub open spec fn lines(s: Seq<char>) -> Seq<Seq<char>> {
    lines_from(s, seq![])
}

/// The texts that ranges of `cs` cover.
pub open spec fn range_texts(cs: Seq<char>, rs: Seq<(usize, usize)>) -> Seq<Seq<char>> {
    rs.map_values(|r: (usize, usize)| cs.subrange(r.0 as int, r.1 as int))
}

/// The lines of `cs`, as ranges of it.
pub fn line_ranges(cs: &Vec<char>) -> (r: Vec<(usize, usize)>)
    ensures
        range_texts(cs@, r@) == lines(cs@),
        forall|k: int| 0 <= k < r@.len() ==> (#[trigger] r@[k]).0 <= r@[k].1 <= cs@.len(),
{
    let mut out: Vec<(usize, usize)> = Vec::new();
    let mut start: usize = 0;
    let mut i: usize = 0;
    assert(cs@.skip(0) == cs@);
    assert(cs@.subrange(0, 0) =~= Seq::<char>::empty());
    while i < cs.len()
        invariant
            start <= i <= cs@.len(),
            forall|k: int| 0 <= k < out@.len() ==> (#[trigger] out@[k]).0 <= out@[k].1 <= cs@.len(),
            lines(cs@) == range_texts(cs@, out@) + lines_from(cs@.skip(i as int), cs@.subrange(start as int, i as int)),
        decreases cs.len() - i,
    {
        let ghost rest = cs@.skip(i as int);
        let ghost next = cs@.skip(i + 1);
        let ghost cur = cs@.subrange(start as int, i as int);
        let ghost o0 = out@;
        assert(rest.drop_first() == next);
        assert(rest[0] == cs@[i as int]);
        if cs[i] == '\n' {
            let end = if i > start && cs[i - 1] == '\r' { i - 1 } else { i };
            assert(cs@.subrange(start as int, end as int) == drop_cr(cur));
            out.push((start, end));
            assert(range_texts(cs@, out@) =~= range_texts(cs@, o0).push(drop_cr(cur)));
            assert(lines_from(rest, cur) == seq![drop_cr(cur)] + lines_from(next, seq![]));
            assert(cs@.subrange(i + 1, i + 1) =~= Seq::<char>::empty());
            assert(range_texts(cs@, o0).push(drop_cr(cur)) + lines_from(next, seq![])
                =~= range_texts(cs@, o0) + (seq![drop_cr(cur)] + lines_from(next, seq![])));
            start = i + 1;
        } else {
            assert(lines_from(rest, cur) == lines_from(next, cur.push(cs@[i as int])));
            assert(cur.push(cs@[i as int]) =~= cs@.subrange(start as int, i + 1));
        }
        i += 1;
    }
    let ghost o0 = out@;
    let ghost cur = cs@.subrange(start as int, i as int);
    assert(cs@.skip(i as int) =~= Seq::<char>::empty());
    if start < i {
        out.push((start, i));
        assert(range_texts(cs@, out@) =~= range_texts(cs@, o0).push(cur));
        assert(range_texts(cs@, o0).push(cur) =~= range_texts(cs@, o0) + seq![cur]);
    } else {
        assert(range_texts(cs@, o0) + Seq::<Seq<char>>::empty() =~= range_texts(cs@, o0));
    }
    out
}

/// The lines that contain `p`, in order.
pub open spec fn lines_containing(ls: Seq<Seq<char>>, p: Seq<char>) -> Seq<Seq<char>>
    decreases ls.len(),
{
    if ls.len() == 0 {
        seq![]
    } else {
        (if contains(ls[0], p) { seq![ls[0]] } else { seq![] }) + lines_containing(ls.drop_first(), p)
    }
}

/// Whether `p` occurs in `cs[lo..hi]`.
pub fn contains_in_range(cs: &Vec<char>, lo: usize, hi: usize, p: &Vec<char>) -> (r: bool)
    requires
        lo <= hi <= cs@.len(),
    ensures
        r == contains(cs@.subrange(lo as int, hi as int), p@),
{
    let sub = {
        let mut v: Vec<char> = Vec::new();
        let mut k = lo;
        while k < hi
            invariant
                lo <= k <= hi <= cs@.len(),
                v@ == cs@.subrange(lo as int, k as int),
            decreases hi - k,
        {
            v.push(cs[k]);
            assert(cs@.subrange(lo as int, k + 1) == cs@.subrange(lo as int, k as int).push(cs@[k as int]));
            k += 1;
        }
        v
    };
    contains_exec(&sub, p)
}

/// The lines of `text` that contain `p` (`text.lines().filter(|l| l.contains(p))`).
pub fn lines_with(text: &str, p: &str) -> (r: Vec<String>)
    ensures
        r@.map_values(|s: String| s@) == lines_containing(lines(text@), p@),
{
    let cs = chars_of(text);
    let pc = chars_of(p);
    let rs = line_ranges(&cs);
    let ghost ls = lines(text@);
    let mut out: Vec<String> = Vec::new();
    let mut i: usize = 0;
    assert(ls.skip(0) == ls);
    while i < rs.len()
        invariant
            i <= rs@.len(),
            cs@ == text@,
            pc@ == p@,
            ls == lines(text@),
            range_texts(cs@, rs@) == ls,
            forall|k: int| 0 <= k < rs@.len() ==> (#[trigger] rs@[k]).0 <= rs@[k].1 <= cs@.len(),
            lines_containing(ls, p@) == out@.map_values(|s: String| s@) + lines_containing(ls.skip(i as int), p@),
        decreases rs.len() - i,
    {
        let (a, b) = rs[i];
        let ghost l = cs@.subrange(a as int, b as int);
        assert(ls[i as int] == l);
        assert(ls.skip(i as int).drop_first() == ls.skip(i + 1));
        assert(ls.skip(i as int)[0] == l);
        let ghost o0 = out@;
        let ghost tail = lines_containing(ls.skip(i + 1), p@);
        if contains_in_range(&cs, a, b, &pc) {
            out.push(string_of(&cs, a, b));
            assert(out@.map_values(|s: String| s@) =~= o0.map_values(|s: String| s@).push(l));
            assert(o0.map_values(|s: String| s@).push(l) + tail =~= o0.map_values(|s: String| s@) + (seq![l] + tail));
        } else {
            assert(Seq::<Seq<char>>::empty() + tail =~= tail);
        }
        i += 1;
    }
    assert(ls.skip(i as int) =~= Seq::<Seq<char>>::empty());
    assert(out@.map_values(|s: String| s@) + Seq::<Seq<char>>::empty() =~= out@.map_values(|s: String| s@));
    out
}


/// The first position at or after `i` where `p` occurs in `s`.
pub open spec fn find_from(s: Seq<char>, p: Seq<char>, i: int) -> Option<int>
    decreases s.len() + 1 - i,
{
    if i < 0 || i > s.len() {
        None
    } else if matches_at(s, p, i) {
        Some(i)
    } else {
        find_from(s, p, i + 1)
    }
}

/// The first position where `p` occurs in `s` (`str::find`).
pub open spec fn find(s: Seq<char>, p: Seq<char>) -> Option<int> {
    find_from(s, p, 0)
}

/// The first position of `p` in `cs[lo..hi]`, counted from `lo`.
pub fn find_in_range(cs: &Vec<char>, lo: usize, hi: usize, p: &Vec<char>) -> (r: Option<usize>)
    requires
        lo <= hi <= cs@.len(),
    ensures
        r matches Some(k) ==> lo <= k && k + p@.len() <= hi && find(cs@.subrange(lo as int, hi as int), p@) == Some(k - lo),
        r is None ==> find(cs@.subrange(lo as int, hi as int), p@) is None,
{
    let ghost s = cs@.subrange(lo as int, hi as int);
    let mut i = lo;
    while i <= hi
        invariant
            lo <= i <= hi + 1,
            hi <= cs@.len(),
            s == cs@.subrange(lo as int, hi as int),
            find(s, p@) == find_from(s, p@, i - lo),
        decreases hi + 1 - i,
    {
        let fits = p.len() <= hi - i;
        let m = fits && matches_at_exec(cs, p, i);
        assert(m == matches_at(s, p@, i - lo)) by {
            if fits {
                assert(s.subrange(i - lo, i - lo + p@.len()) == cs@.subrange(i as int, i + p@.len()));
            }
        }
        if m {
            return Some(i);
        }
        if i == hi {
            assert(find_from(s, p@, i - lo + 1) is None);
            return None;
        }
        i += 1;
    }
    None
}

/// Only the ASCII digits of `s`, in order.
pub open spec fn ascii_digits(s: Seq<char>) -> Seq<char>
    decreases s.len(),
{
    if s.len() == 0 {
        seq![]
    } else {
        (if digit_value(s[0]) is Some { seq![s[0]] } else { seq![] }) + ascii_digits(s.drop_first())
    }
}

/// The ASCII digits of `cs[lo..hi]`.
pub fn ascii_digits_exec(cs: &Vec<char>, lo: usize, hi: usize) -> (r: Vec<char>)
    requires
        lo <= hi <= cs@.len(),
    ensures
        r@ == ascii_digits(cs@.subrange(lo as int, hi as int)),
{
    let ghost s = cs@.subrange(lo as int, hi as int);
    let mut out: Vec<char> = Vec::new();
    let mut i = lo;
    assert(s.skip(0) == s);
    while i < hi
        invariant
            lo <= i <= hi <= cs@.len(),
            s == cs@.subrange(lo as int, hi as int),
            ascii_digits(s) == out@ + ascii_digits(s.skip(i - lo)),
        decreases hi - i,
    {
        assert(s.skip(i - lo).drop_first() == s.skip(i - lo + 1));
        assert(s.skip(i - lo)[0] == cs@[i as int]);
        let ghost o0 = out@;
        let ghost tail = ascii_digits(s.skip(i - lo + 1));
        let c = cs[i];
        if c == '0' || c == '1' || c == '2' || c == '3' || c == '4' || c == '5' || c == '6' || c == '7' || c == '8' || c == '9' {
            out.push(c);
            assert(o0.push(c) + tail =~= o0 + (seq![c] + tail));
        } else {
            assert(Seq::<char>::empty() + tail =~= tail);
        }
        i += 1;
    }
    assert(s.skip(i - lo) =~= Seq::<char>::empty());
    assert(out@ + Seq::<char>::empty() =~= out@);
    out
}

} // verus!

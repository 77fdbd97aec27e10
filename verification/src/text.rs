//! Character-level string helpers shared by the parsers and formatters.
//!
//! Strings are modelled by their character sequences (`s@: Seq<char>`); the
//! spec functions here say what each helper computes on those sequences.
use vstd::prelude::*;
use vstd::string::StringExecFns;

verus! {

/// `str` equality, as std defines it: the same characters in the same order.
pub fn str_eq(a: &str, b: &str) -> (r: bool)
    ensures
        r == (a@ == b@),
{
    let x = to_chars(a);
    let y = to_chars(b);
    if x.len() != y.len() {
        return false;
    }
    let mut i: usize = 0;
    while i < x.len()
        invariant
            i <= x@.len() == y@.len(),
            x@ == a@ && y@ == b@,
            forall|j: int| 0 <= j < i ==> x@[j] == y@[j],
        decreases x@.len() - i,
    {
        if x[i] != y[i] {
            return false;
        }
        i += 1;
    }
    assert(x@ =~= y@);
    true
}

/// Appends one character (std `String::push`).
#[verifier::external_body]
pub(crate) fn push_char(s: &mut String, c: char)
    ensures
        final(s)@ == old(s)@.push(c),
{
    s.push(c)
}

/// Appends a string slice (std `String::push_str`).
pub fn push_str(s: &mut String, t: &str)
    ensures
        final(s)@ == old(s)@ + t@,
{
    s.append(t)
}

/// A new owned string with the characters of `s` (std `str::to_string`).
pub fn owned(s: &str) -> (r: String)
    ensures
        r@ == s@,
{
    let mut out = String::new();
    push_str(&mut out, s);
    assert(out@ =~= s@);
    out
}

/// The characters of a string slice, in order.
pub fn to_chars(s: &str) -> (r: Vec<char>)
    ensures
        r@ == s@,
{
    let mut out: Vec<char> = Vec::new();
    for c in it: s.chars()
        invariant
            out@ == it.seq().take(it.index() as int),
    {
        out.push(c);
    }
    assert(out@ =~= s@);
    out
}

/// The characters `v[lo..hi]`.
pub fn chars_range(v: &[char], lo: usize, hi: usize) -> (r: Vec<char>)
    requires
        lo <= hi <= v@.len(),
    ensures
        r@ == v@.subrange(lo as int, hi as int),
{
    let mut out: Vec<char> = Vec::new();
    let mut i = lo;
    while i < hi
        invariant
            lo <= i <= hi <= v@.len(),
            out@ == v@.subrange(lo as int, i as int),
        decreases hi - i,
    {
        out.push(v[i]);
        i += 1;
        assert(out@ =~= v@.subrange(lo as int, i as int));
    }
    out
}

/// A string made of the characters `v[lo..hi]`.
pub fn from_chars_range(v: &[char], lo: usize, hi: usize) -> (r: String)
    requires
        lo <= hi <= v@.len(),
    ensures
        r@ == v@.subrange(lo as int, hi as int),
{
    let mut out = String::new();
    let mut i = lo;
    while i < hi
        invariant
            lo <= i <= hi <= v@.len(),
            out@ == v@.subrange(lo as int, i as int),
        decreases hi - i,
    {
        push_char(&mut out, v[i]);
        i += 1;
        assert(out@ =~= v@.subrange(lo as int, i as int));
    }
    out
}

/* --------------------------------- ASCII case --------------------------------- */

/// ASCII lower case of one character (std `char::to_ascii_lowercase`).
pub open spec fn ascii_lower(c: char) -> char {
    if 'A' <= c && c <= 'Z' {
        ((c as u8) + 32) as char
    } else {
        c
    }
}

/// ASCII lower case of one character.
pub fn ascii_lower_exec(c: char) -> (r: char)
    ensures
        r == ascii_lower(c),
{
    if 'A' <= c && c <= 'Z' {
        ((c as u8) + 32) as char
    } else {
        c
    }
}

/* ------------------------------ decimal numbers ------------------------------ */

/// The ASCII digit for `d` (`d < 10`).
pub open spec fn digit_char(d: nat) -> char {
    if d == 0 {
        '0'
    } else if d == 1 {
        '1'
    } else if d == 2 {
        '2'
    } else if d == 3 {
        '3'
    } else if d == 4 {
        '4'
    } else if d == 5 {
        '5'
    } else if d == 6 {
        '6'
    } else if d == 7 {
        '7'
    } else if d == 8 {
        '8'
    } else {
        '9'
    }
}

/// Decimal representation of a natural number, without leading zeros
/// (what `Display` prints for unsigned integers).
pub open spec fn decimal(n: nat) -> Seq<char>
    decreases n,
{
    if n < 10 {
        seq![digit_char(n)]
    } else {
        decimal(n / 10).push(digit_char(n % 10))
    }
}

fn digit(d: u64) -> (c: char)
    requires
        d < 10,
    ensures
        c == digit_char(d as nat),
{
    if d == 0 {
        '0'
    } else if d == 1 {
        '1'
    } else if d == 2 {
        '2'
    } else if d == 3 {
        '3'
    } else if d == 4 {
        '4'
    } else if d == 5 {
        '5'
    } else if d == 6 {
        '6'
    } else if d == 7 {
        '7'
    } else if d == 8 {
        '8'
    } else {
        '9'
    }
}

/// Appends the decimal digits of `n`.
pub fn push_decimal(s: &mut String, n: u64)
    ensures
        final(s)@ == old(s)@ + decimal(n as nat),
    decreases n,
{
    if n >= 10 {
        push_decimal(s, n / 10);
    }
    push_char(s, digit(n % 10));
    assert(final(s)@ =~= old(s)@ + decimal(n as nat)) by {
        if n >= 10 {
            assert(decimal(n as nat) == decimal((n / 10) as nat).push(digit_char((n % 10) as nat)));
        }
    }
}

/// Decimal representation of `n` (std `u64::to_string`).
pub fn decimal_string(n: u64) -> (r: String)
    ensures
        r@ == decimal(n as nat),
{
    let mut s = String::new();
    push_decimal(&mut s, n);
    assert(s@ =~= decimal(n as nat));
    s
}

/* --------------------------------- whitespace -------------------------------- */

/// Unicode `White_Space`, the set that std's `char::is_whitespace` tests.
pub open spec fn is_ws(c: char) -> bool {
    ||| c == '\t'
    ||| c == '\n'
    ||| c == '\u{0B}'
    ||| c == '\u{0C}'
    ||| c == '\r'
    ||| c == ' '
    ||| c == '\u{85}'
    ||| c == '\u{A0}'
    ||| c == '\u{1680}'
    ||| ('\u{2000}' <= c && c <= '\u{200A}')
    ||| c == '\u{2028}'
    ||| c == '\u{2029}'
    ||| c == '\u{202F}'
    ||| c == '\u{205F}'
    ||| c == '\u{3000}'
}

pub fn is_ws_exec(c: char) -> (r: bool)
    ensures
        r == is_ws(c),
{
    c == '\t' || c == '\n' || c == '\u{0B}' || c == '\u{0C}' || c == '\r' || c == ' '
        || c == '\u{85}' || c == '\u{A0}' || c == '\u{1680}' || ('\u{2000}' <= c && c
        <= '\u{200A}') || c == '\u{2028}' || c == '\u{2029}' || c == '\u{202F}' || c
        == '\u{205F}' || c == '\u{3000}'
}

/// Leading whitespace removed (std `str::trim_start`).
pub open spec fn trim_start(s: Seq<char>) -> Seq<char>
    decreases s.len(),
{
    if s.len() > 0 && is_ws(s[0]) {
        trim_start(s.drop_first())
    } else {
        s
    }
}

/// Trailing whitespace removed (std `str::trim_end`).
pub open spec fn trim_end(s: Seq<char>) -> Seq<char>
    decreases s.len(),
{
    if s.len() > 0 && is_ws(s.last()) {
        trim_end(s.drop_last())
    } else {
        s
    }
}

/// Whitespace removed at both ends (std `str::trim`).
pub open spec fn trim(s: Seq<char>) -> Seq<char> {
    trim_end(trim_start(s))
}

proof fn lemma_trim_start_step(s: Seq<char>, i: int)
    requires
        0 <= i < s.len(),
        is_ws(s[i]),
    ensures
        trim_start(s.subrange(i, s.len() as int)) == trim_start(s.subrange(i + 1, s.len() as int)),
{
    let t = s.subrange(i, s.len() as int);
    assert(t.drop_first() =~= s.subrange(i + 1, s.len() as int));
}

proof fn lemma_trim_end_step(s: Seq<char>, lo: int, hi: int)
    requires
        0 <= lo < hi <= s.len(),
        is_ws(s[hi - 1]),
    ensures
        trim_end(s.subrange(lo, hi)) == trim_end(s.subrange(lo, hi - 1)),
{
    let t = s.subrange(lo, hi);
    assert(t.drop_last() =~= s.subrange(lo, hi - 1));
}

/// Bounds `(lo, hi)` such that `v[lo..hi]` is `trim(v)`.
pub fn trim_bounds(v: &[char]) -> (r: (usize, usize))
    ensures
        r.0 <= r.1 <= v@.len(),
        v@.subrange(r.0 as int, r.1 as int) == trim(v@),
{
    let n = v.len();
    let mut lo: usize = 0;
    assert(v@.subrange(0, n as int) =~= v@);
    while lo < n && is_ws_exec(v[lo])
        invariant
            lo <= n == v@.len(),
            trim_start(v@) == trim_start(v@.subrange(lo as int, n as int)),
        decreases n - lo,
    {
        proof {
            lemma_trim_start_step(v@, lo as int);
        }
        lo += 1;
    }
    let ghost ts = v@.subrange(lo as int, n as int);
    assert(trim_start(ts) == ts) by {
        if ts.len() > 0 {
            assert(ts[0] == v@[lo as int]);
        }
    }
    let mut hi: usize = n;
    while hi > lo && is_ws_exec(v[hi - 1])
        invariant
            lo <= hi <= n == v@.len(),
            trim_start(v@) == v@.subrange(lo as int, n as int),
            trim_end(v@.subrange(lo as int, n as int)) == trim_end(v@.subrange(lo as int, hi as int)),
        decreases hi - lo,
    {
        proof {
            lemma_trim_end_step(v@, lo as int, hi as int);
        }
        hi -= 1;
    }
    let ghost te = v@.subrange(lo as int, hi as int);
    assert(trim_end(te) == te) by {
        if te.len() > 0 {
            assert(te.last() == v@[hi - 1]);
        }
    }
    (lo, hi)
}

/// `trim(s)` as a new string.
pub fn trimmed(s: &str) -> (r: String)
    ensures
        r@ == trim(s@),
{
    let v = to_chars(s);
    let (lo, hi) = trim_bounds(v.as_slice());
    from_chars_range(v.as_slice(), lo, hi)
}

/// Whether `trim(s)` is empty, that is `s` holds only whitespace.
pub fn is_blank(s: &str) -> (r: bool)
    ensures
        r == (trim(s@).len() == 0),
{
    let v = to_chars(s);
    let (lo, hi) = trim_bounds(v.as_slice());
    lo == hi
}

/* ---------------------------- prefixes and suffixes -------------------------- */

pub open spec fn starts_with(s: Seq<char>, p: Seq<char>) -> bool {
    p.len() <= s.len() && s.take(p.len() as int) == p
}

pub open spec fn ends_with(s: Seq<char>, p: Seq<char>) -> bool {
    p.len() <= s.len() && s.skip(s.len() - p.len()) == p
}

/// `p` occurs in `s` starting at position `i`.
pub open spec fn occurs_at(s: Seq<char>, p: Seq<char>, i: int) -> bool {
    0 <= i && i + p.len() <= s.len() && s.subrange(i, i + p.len()) == p
}

pub open spec fn contains(s: Seq<char>, p: Seq<char>) -> bool {
    exists|i: int| occurs_at(s, p, i)
}

/// Whether `p` occurs in `v` at position `i`.
pub fn matches_at(v: &[char], i: usize, p: &[char]) -> (r: bool)
    ensures
        r == occurs_at(v@, p@, i as int),
{
    if i > v.len() || p.len() > v.len() - i {
        return false;
    }
    let mut k: usize = 0;
    while k < p.len()
        invariant
            i + p@.len() <= v@.len(),
            v@.len() <= usize::MAX,
            k <= p@.len(),
            forall|j: int| 0 <= j < k ==> v@[i + j] == p@[j],
        decreases p@.len() - k,
    {
        if v[i + k] != p[k] {
            assert(v@.subrange(i as int, i + p@.len())[k as int] != p@[k as int]);
            return false;
        }
        k += 1;
    }
    assert(v@.subrange(i as int, i + p@.len()) =~= p@);
    true
}

pub fn starts_with_exec(s: &str, p: &str) -> (r: bool)
    ensures
        r == starts_with(s@, p@),
{
    let v = to_chars(s);
    let w = to_chars(p);
    let r = matches_at(v.as_slice(), 0, w.as_slice());
    assert(r == starts_with(s@, p@)) by {
        if w@.len() <= v@.len() {
            assert(v@.subrange(0, w@.len() as int) =~= v@.take(w@.len() as int));
        }
    }
    r
}

pub fn ends_with_exec(s: &str, p: &str) -> (r: bool)
    ensures
        r == ends_with(s@, p@),
{
    let v = to_chars(s);
    let w = to_chars(p);
    if w.len() > v.len() {
        return false;
    }
    let r = matches_at(v.as_slice(), v.len() - w.len(), w.as_slice());
    assert(v@.subrange(v@.len() - w@.len(), v@.len() as int) =~= v@.skip(v@.len() - w@.len()));
    r
}

/// The first position at or after `from` where `p` occurs in `s`.
pub open spec fn find_from(s: Seq<char>, p: Seq<char>, from: int) -> Option<int>
    decreases s.len() + 1 - from,
{
    if from < 0 || from + p.len() > s.len() {
        None
    } else if occurs_at(s, p, from) {
        Some(from)
    } else {
        find_from(s, p, from + 1)
    }
}

pub proof fn lemma_find_from_facts(s: Seq<char>, p: Seq<char>, from: int)
    requires
        0 <= from,
    ensures
        find_from(s, p, from) matches Some(i) ==> from <= i && occurs_at(s, p, i) && forall|j: int|
            from <= j < i ==> !occurs_at(s, p, j),
        find_from(s, p, from) is None ==> forall|j: int| from <= j ==> !occurs_at(s, p, j),
    decreases s.len() + 1 - from,
{
    if from + p.len() > s.len() {
    } else if occurs_at(s, p, from) {
    } else {
        lemma_find_from_facts(s, p, from + 1);
        assert forall|j: int| from <= j && j < from + 1 implies !occurs_at(s, p, j) by {}
    }
}

pub open spec fn shifted(o: Option<int>, by: int) -> Option<int> {
    match o {
        Some(i) => Some(i + by),
        None => None,
    }
}

/// Searching from `from` in `s` is searching from `k` in the suffix of `s`
/// that starts at `from`, shifted back.
pub proof fn lemma_find_shift(s: Seq<char>, p: Seq<char>, from: int, k: int)
    requires
        0 <= from <= s.len(),
        0 <= k,
    ensures
        find_from(s, p, from + k) == shifted(find_from(s.subrange(from, s.len() as int), p, k), from),
    decreases s.len() + 1 - from - k,
{
    let t = s.subrange(from, s.len() as int);
    if from + k + p.len() > s.len() {
    } else {
        assert(t.subrange(k, k + p.len()) =~= s.subrange(from + k, from + k + p.len()));
        if !occurs_at(s, p, from + k) {
            lemma_find_shift(s, p, from, k + 1);
            assert(from + (k + 1) == from + k + 1);
        }
    }
}

/// Exec form of `find_from`.
pub fn find_exec(v: &[char], p: &[char], from: usize) -> (r: Option<usize>)
    ensures
        match r {
            Some(i) => find_from(v@, p@, from as int) == Some(i as int),
            None => find_from(v@, p@, from as int) is None,
        },
{
    if p.len() > v.len() {
        assert(find_from(v@, p@, from as int) is None);
        return None;
    }
    let last = v.len() - p.len();
    let mut i = from;
    while i <= last
        invariant
            last + p@.len() == v@.len(),
            from <= i,
            find_from(v@, p@, from as int) == find_from(v@, p@, i as int),
        decreases last + 1 - i,
    {
        if matches_at(v, i, p) {
            return Some(i);
        }
        if i == last {
            assert(find_from(v@, p@, i + 1) is None);
            return None;
        }
        i += 1;
    }
    None
}

/// The characters of an optional string slice.
pub open spec fn opt_str_view(o: Option<&str>) -> Option<Seq<char>> {
    match o {
        Some(s) => Some(s@),
        None => None,
    }
}

/// Whether `p` occurs anywhere in `s` (std `str::contains`).
pub fn contains_exec(s: &str, p: &str) -> (r: bool)
    ensures
        r == contains(s@, p@),
{
    let v = to_chars(s);
    let w = to_chars(p);
    let f = find_exec(v.as_slice(), w.as_slice(), 0);
    proof {
        lemma_find_from_facts(v@, w@, 0);
    }
    f.is_some()
}

/* ----------------------------------- joining --------------------------------- */

/// The parts, with `sep` between each two of them (std `[String]::join`).
pub open spec fn join(parts: Seq<Seq<char>>, sep: Seq<char>) -> Seq<char>
    decreases parts.len(),
{
    if parts.len() == 0 {
        Seq::empty()
    } else if parts.len() == 1 {
        parts[0]
    } else {
        join(parts.drop_last(), sep) + sep + parts.last()
    }
}

pub open spec fn str_views(v: Seq<&str>) -> Seq<Seq<char>> {
    v.map_values(|s: &str| s@)
}

pub open spec fn string_views(v: Seq<String>) -> Seq<Seq<char>> {
    v.map_values(|s: String| s@)
}

/// Joins string slices with a separator.
pub fn join_strs(parts: &[&str], sep: &str) -> (r: String)
    ensures
        r@ == join(str_views(parts@), sep@),
{
    let mut out = String::new();
    let mut i: usize = 0;
    while i < parts.len()
        invariant
            i <= parts@.len(),
            out@ == join(str_views(parts@.take(i as int)), sep@),
        decreases parts@.len() - i,
    {
        let ghost prev = str_views(parts@.take(i as int));
        if i > 0 {
            push_str(&mut out, sep);
        }
        push_str(&mut out, parts[i]);
        proof {
            let cur = str_views(parts@.take(i + 1));
            assert(cur.drop_last() =~= prev);
            assert(cur.last() == parts@[i as int]@);
            if i == 0 {
                assert(cur.len() == 1);
                assert(out@ =~= cur[0]);
            } else {
                assert(out@ =~= join(prev, sep@) + sep@ + cur.last());
            }
        }
        i += 1;
    }
    assert(parts@.take(parts@.len() as int) =~= parts@);
    out
}

/// Joins owned strings with a separator.
pub fn join_strings(parts: &Vec<String>, sep: &str) -> (r: String)
    ensures
        r@ == join(string_views(parts@), sep@),
{
    let mut out = String::new();
    let mut i: usize = 0;
    while i < parts.len()
        invariant
            i <= parts@.len(),
            out@ == join(string_views(parts@.take(i as int)), sep@),
        decreases parts@.len() - i,
    {
        let ghost prev = string_views(parts@.take(i as int));
        if i > 0 {
            push_str(&mut out, sep);
        }
        push_str(&mut out, parts[i].as_str());
        proof {
            let cur = string_views(parts@.take(i + 1));
            assert(cur.drop_last() =~= prev);
            assert(cur.last() == parts@[i as int]@);
            if i == 0 {
                assert(cur.len() == 1);
                assert(out@ =~= cur[0]);
            } else {
                assert(out@ =~= join(prev, sep@) + sep@ + cur.last());
            }
        }
        i += 1;
    }
    assert(parts@.take(parts@.len() as int) =~= parts@);
    out
}


/* ------------------------------- parsing numbers ------------------------------- */

pub open spec fn is_digit(c: char) -> bool {
    '0' <= c && c <= '9'
}

/// The number that a string of decimal digits spells.
pub open spec fn digits_value(d: Seq<char>) -> nat
    decreases d.len(),
{
    if d.len() == 0 {
        0
    } else {
        digits_value(d.drop_last()) * 10 + (d.last() as nat - 48) as nat
    }
}

/// std's `str::parse` for an unsigned integer type whose largest value is
/// `max`: an optional `+`, then one or more ASCII digits, for a value of at
/// most `max`.
pub open spec fn unsigned_digits(s: Seq<char>) -> Seq<char> {
    if s.len() > 0 && s[0] == '+' {
        s.drop_first()
    } else {
        s
    }
}

pub open spec fn all_digits(d: Seq<char>) -> bool {
    forall|i: int| 0 <= i < d.len() ==> is_digit(#[trigger] d[i])
}

pub open spec fn parse_unsigned(s: Seq<char>, max: nat) -> Option<nat> {
    let d = unsigned_digits(s);
    if d.len() == 0 || !all_digits(d) {
        None
    } else if digits_value(d) > max {
        None
    } else {
        Some(digits_value(d))
    }
}

/// Parses an unsigned decimal number of at most `max`.
pub fn parse_unsigned_exec(s: &str, max: u64) -> (r: Option<u64>)
    ensures
        match r {
            Some(v) => parse_unsigned(s@, max as nat) == Some(v as nat),
            None => parse_unsigned(s@, max as nat) is None,
        },
{
    let v = to_chars(s);
    let start: usize = if v.len() > 0 && v[0] == '+' {
        1
    } else {
        0
    };
    let ghost d = unsigned_digits(s@);
    assert(d =~= v@.subrange(start as int, v@.len() as int));
    if start == v.len() {
        assert(d.len() == 0);
        assert(parse_unsigned(s@, max as nat) is None);
        return None;
    }
    let mut acc: u64 = 0;
    let mut over = false;
    let mut i = start;
    while i < v.len()
        invariant
            start <= i <= v@.len(),
            v@ == s@,
            d == unsigned_digits(s@),
            d == v@.subrange(start as int, v@.len() as int),
            forall|j: int| start <= j < i ==> is_digit(#[trigger] v@[j]),
            over ==> digits_value(v@.subrange(start as int, i as int)) > max,
            !over ==> acc as nat == digits_value(v@.subrange(start as int, i as int)) && acc <= max,
        decreases v@.len() - i,
    {
        let c = v[i];
        if !('0' <= c && c <= '9') {
            assert(d[i - start] == c);
            assert(!is_digit(d[i - start]));
            return None;
        }
        let dig = (c as u32 - 48) as u64;
        proof {
            let pre = v@.subrange(start as int, i as int);
            let next = v@.subrange(start as int, i + 1);
            assert(next.drop_last() =~= pre);
            assert(next.last() == c);
            assert(dig as nat == (c as nat - 48) as nat);
        }
        if !over {
            let wide: u128 = (acc as u128) * 10 + (dig as u128);
            if wide > max as u128 {
                over = true;
            } else {
                acc = wide as u64;
            }
        }
        i += 1;
    }
    assert(v@.subrange(start as int, v@.len() as int) == d);
    if over {
        None
    } else {
        Some(acc)
    }
}

/// The decimal text of a number is a run of digits, without sign, that
/// spells the number.
pub proof fn lemma_decimal_digits(n: nat)
    ensures
        decimal(n).len() > 0,
        all_digits(decimal(n)),
        decimal(n)[0] != '+',
        digits_value(decimal(n)) == n,
    decreases n,
{
    if n < 10 {
        let d = decimal(n);
        assert(d == seq![digit_char(n)]);
        assert(d.drop_last() =~= Seq::<char>::empty());
        assert(digit_char(n) as nat == 48 + n);
        assert(d.last() == digit_char(n));
        assert(digits_value(d) == digits_value(d.drop_last()) * 10 + (d.last() as nat - 48) as nat);
    } else {
        lemma_decimal_digits(n / 10);
        let front = decimal(n / 10);
        let d = decimal(n);
        assert(d == front.push(digit_char(n % 10)));
        assert(d.drop_last() =~= front);
        assert(digit_char(n % 10) as nat == 48 + n % 10);
        assert(d[0] == front[0]);
        assert(d.last() == digit_char(n % 10));
        assert(digits_value(d) == digits_value(front) * 10 + (d.last() as nat - 48) as nat);
        assert(n == (n / 10) * 10 + n % 10);
        assert forall|i: int| 0 <= i < d.len() implies is_digit(#[trigger] d[i]) by {
            if i < front.len() {
                assert(d[i] == front[i]);
            }
        }
    }
}

/// Parsing the decimal text of a number gives the number back.
pub proof fn lemma_parse_decimal(n: nat, max: nat)
    requires
        n <= max,
    ensures
        parse_unsigned(decimal(n), max) == Some(n),
{
    lemma_decimal_digits(n);
    assert(unsigned_digits(decimal(n)) == decimal(n));
}

} // verus!

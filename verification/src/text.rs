//! Character-level text handling shared by the parsers of this crate.

use vstd::prelude::*;

verus! {

/// Unicode `White_Space`, the property that `char::is_whitespace` tests.
pub open spec fn is_ws(c: char) -> bool {
    let u: u32 = c as u32;
    (0x9 <= u && u <= 0xd) || u == 0x20 || u == 0x85 || u == 0xa0 || u == 0x1680 || (0x2000 <= u
        && u <= 0x200a) || u == 0x2028 || u == 0x2029 || u == 0x202f || u == 0x205f || u == 0x3000
}

/// Whether `c` is Unicode white space.
pub fn is_whitespace(c: char) -> (b: bool)
    ensures
        b == is_ws(c),
{
    let u: u32 = c as u32;
    (0x9 <= u && u <= 0xd) || u == 0x20 || u == 0x85 || u == 0xa0 || u == 0x1680 || (0x2000 <= u
        && u <= 0x200a) || u == 0x2028 || u == 0x2029 || u == 0x202f || u == 0x205f || u == 0x3000
}

/// `String::push` appends one character.
pub assume_specification[ String::push ](s: &mut String, ch: char)
    ensures
        final(s)@ == old(s)@.push(ch),
;

/// The characters of `s`, in order.
pub fn str_chars(s: &str) -> (v: Vec<char>)
    ensures
        v@ == s@,
{
    let mut v: Vec<char> = Vec::new();
    for c in it: s.chars()
        invariant
            v@ == it.seq().take(it.index() as int),
            it.seq() == s@,
    {
        v.push(c);
    }
    v
}


/// The string made of `v[lo..hi]`.
pub fn string_from(v: &Vec<char>, lo: usize, hi: usize) -> (s: String)
    requires
        lo <= hi <= v@.len(),
    ensures
        s@ == v@.subrange(lo as int, hi as int),
{
    let mut s = String::new();
    let mut i: usize = lo;
    while i < hi
        invariant
            lo <= i <= hi <= v@.len(),
            s@ == v@.subrange(lo as int, i as int),
        decreases hi - i,
    {
        s.push(v[i]);
        i += 1;
    }
    s
}

/// The string made of all of `v`.
pub fn string_of(v: &Vec<char>) -> (s: String)
    ensures
        s@ == v@,
{
    let s = string_from(v, 0, v.len());
    assert(v@.subrange(0, v@.len() as int) =~= v@);
    s
}

/// `s` without its leading white space.
pub open spec fn trim_start(s: Seq<char>) -> Seq<char>
    decreases s.len(),
{
    if s.len() > 0 && is_ws(s[0]) {
        trim_start(s.drop_first())
    } else {
        s
    }
}

/// `s` without its trailing white space.
pub open spec fn trim_end(s: Seq<char>) -> Seq<char>
    decreases s.len(),
{
    if s.len() > 0 && is_ws(s.last()) {
        trim_end(s.drop_last())
    } else {
        s
    }
}

/// `s` without leading and trailing white space, as `str::trim` gives it.
pub open spec fn trim(s: Seq<char>) -> Seq<char> {
    trim_end(trim_start(s))
}

/// The bounds of `trim(v[lo..hi])` within `v`.
pub fn trim_bounds(v: &Vec<char>, lo: usize, hi: usize) -> (r: (usize, usize))
    requires
        lo <= hi <= v@.len(),
    ensures
        lo <= r.0 <= r.1 <= hi,
        v@.subrange(r.0 as int, r.1 as int) == trim(v@.subrange(lo as int, hi as int)),
{
    let mut a: usize = lo;
    while a < hi && is_whitespace(v[a])
        invariant
            lo <= a <= hi <= v@.len(),
            trim_start(v@.subrange(lo as int, hi as int)) == trim_start(
                v@.subrange(a as int, hi as int),
            ),
        decreases hi - a,
    {
        assert(v@.subrange(a as int, hi as int).drop_first() =~= v@.subrange(a + 1, hi as int));
        a += 1;
    }
    let mut b: usize = hi;
    while b > a && is_whitespace(v[b - 1])
        invariant
            lo <= a <= b <= hi <= v@.len(),
            trim(v@.subrange(lo as int, hi as int)) == trim_end(v@.subrange(a as int, b as int)),
        decreases b - a,
    {
        assert(v@.subrange(a as int, b as int).drop_last() =~= v@.subrange(a as int, b - 1));
        b -= 1;
    }
    (a, b)
}

/// Whether `p` is a prefix of `v[lo..hi]`.
pub fn has_prefix(v: &Vec<char>, lo: usize, hi: usize, p: &Vec<char>) -> (b: bool)
    requires
        lo <= hi <= v@.len(),
    ensures
        b == p@.is_prefix_of(v@.subrange(lo as int, hi as int)),
{
    if p.len() > hi - lo {
        return false;
    }
    let mut i: usize = 0;
    while i < p.len()
        invariant
            p@.len() <= hi - lo,
            lo <= hi <= v@.len(),
            0 <= i <= p@.len(),
            forall|j: int| 0 <= j < i ==> p@[j] == v@[lo + j],
        decreases p@.len() - i,
    {
        if p[i] != v[lo + i] {
            assert(v@.subrange(lo as int, hi as int)[i as int] == v@[lo + i]);
            return false;
        }
        i += 1;
    }
    assert(p@ =~= v@.subrange(lo as int, hi as int).subrange(0, p@.len() as int));
    true
}

/// Whether `p` is a suffix of `v[lo..hi]`.
pub fn has_suffix_char(v: &Vec<char>, lo: usize, hi: usize, c: char) -> (b: bool)
    requires
        lo <= hi <= v@.len(),
    ensures
        b == (hi > lo && v@[hi - 1] == c),
{
    hi > lo && v[hi - 1] == c
}

/// Whether `v[lo..hi]` equals `p`.
pub fn range_equals(v: &Vec<char>, lo: usize, hi: usize, p: &Vec<char>) -> (b: bool)
    requires
        lo <= hi <= v@.len(),
    ensures
        b == (v@.subrange(lo as int, hi as int) == p@),
{
    if hi - lo != p.len() {
        return false;
    }
    let b = has_prefix(v, lo, hi, p);
    assert(b ==> v@.subrange(lo as int, hi as int) =~= p@);
    b
}

/// Scans `s` from the left and returns the words finished so far and the
/// word in progress; words are maximal runs of non-white-space characters.
pub open spec fn ws_scan(s: Seq<char>) -> (Seq<Seq<char>>, Seq<char>)
    decreases s.len(),
{
    if s.len() == 0 {
        (seq![], seq![])
    } else {
        let prev = ws_scan(s.drop_last());
        if is_ws(s.last()) {
            if prev.1.len() > 0 {
                (prev.0.push(prev.1), seq![])
            } else {
                prev
            }
        } else {
            (prev.0, prev.1.push(s.last()))
        }
    }
}

/// The white-space separated words of `s`, as `str::split_whitespace` yields them.
pub open spec fn split_ws(s: Seq<char>) -> Seq<Seq<char>> {
    let r = ws_scan(s);
    if r.1.len() > 0 {
        r.0.push(r.1)
    } else {
        r.0
    }
}

/// The views of a vector of character vectors.
pub open spec fn views(v: Seq<Vec<char>>) -> Seq<Seq<char>> {
    v.map_values(|w: Vec<char>| w@)
}

/// The words of `v[lo..hi]`.
pub fn split_whitespace(v: &Vec<char>, lo: usize, hi: usize) -> (words: Vec<Vec<char>>)
    requires
        lo <= hi <= v@.len(),
    ensures
        views(words@) == split_ws(v@.subrange(lo as int, hi as int)),
{
    let mut done: Vec<Vec<char>> = Vec::new();
    let mut cur: Vec<char> = Vec::new();
    let mut i: usize = lo;
    while i < hi
        invariant
            lo <= i <= hi <= v@.len(),
            (views(done@), cur@) == ws_scan(v@.subrange(lo as int, i as int)),
        decreases hi - i,
    {
        let ghost prev = v@.subrange(lo as int, i as int);
        assert(v@.subrange(lo as int, i + 1).drop_last() =~= prev);
        let c = v[i];
        if is_whitespace(c) {
            if cur.len() > 0 {
                let w = cur;
                done.push(w);
                cur = Vec::new();
                assert(views(done@) =~= ws_scan(prev).0.push(ws_scan(prev).1));
            }
        } else {
            cur.push(c);
        }
        i += 1;
    }
    if cur.len() > 0 {
        done.push(cur);
        assert(views(done@) =~= split_ws(v@.subrange(lo as int, hi as int)));
    }
    done
}

/// The decimal digit character for `d`.
pub open spec fn digit_char(d: nat) -> char {
    if d == 0 {
        '0'
    } else if d == 1 {
        '1'
    } else if d == 2 {
        '2'
    } else if d == 3 {
        '3'
    } else if d == 4 {
        '4'
    } else if d == 5 {
        '5'
    } else if d == 6 {
        '6'
    } else if d == 7 {
        '7'
    } else if d == 8 {
        '8'
    } else {
        '9'
    }
}

fn digit(d: u64) -> (c: char)
    requires
        d < 10,
    ensures
        c == digit_char(d as nat),
{
    if d == 0 {
        '0'
    } else if d == 1 {
        '1'
    } else if d == 2 {
        '2'
    } else if d == 3 {
        '3'
    } else if d == 4 {
        '4'
    } else if d == 5 {
        '5'
    } else if d == 6 {
        '6'
    } else if d == 7 {
        '7'
    } else if d == 8 {
        '8'
    } else {
        '9'
    }
}

/// The decimal representation of `n`, without leading zeros.
pub open spec fn decimal(n: nat) -> Seq<char>
    decreases n,
{
    if n < 10 {
        seq![digit_char(n)]
    } else {
        decimal(n / 10).push(digit_char(n % 10))
    }
}

/// Appends the decimal representation of `n` to `s`.
pub fn push_decimal(s: &mut String, n: u64)
    ensures
        final(s)@ == old(s)@ + decimal(n as nat),
    decreases n,
{
    if n >= 10 {
        push_decimal(s, n / 10);
    }
    s.push(digit(n % 10));
    assert(old(s)@ + decimal(n as nat) =~= (old(s)@ + (if n >= 10 {
        decimal((n / 10) as nat)
    } else {
        seq![]
    })).push(digit_char((n % 10) as nat)));
}

/// The decimal representation of `n`, as `n.to_string()` gives it.
pub fn u64_to_string(n: u64) -> (s: String)
    ensures
        s@ == decimal(n as nat),
{
    let mut s = String::new();
    push_decimal(&mut s, n);
    assert(s@ =~= decimal(n as nat));
    s
}

/// The decimal representation of a signed integer, with a leading `-` when negative.
pub open spec fn signed_decimal(n: int) -> Seq<char> {
    if n < 0 {
        seq!['-'] + decimal((-n) as nat)
    } else {
        decimal(n as nat)
    }
}

/// The decimal representation of `n`, as `n.to_string()` gives it.
pub fn i64_to_string(n: i64) -> (s: String)
    ensures
        s@ == signed_decimal(n as int),
{
    let mut s = String::new();
    if n < 0 {
        s.push('-');
        let m: u64 = if n == i64::MIN {
            9223372036854775808u64
        } else {
            (-n) as u64
        };
        push_decimal(&mut s, m);
    } else {
        push_decimal(&mut s, n as u64);
    }
    assert(s@ =~= signed_decimal(n as int));
    s
}

/// The value of a decimal digit character.
pub open spec fn dec_value(c: char) -> Option<nat> {
    let u: u32 = c as u32;
    if 0x30 <= u && u <= 0x39 {
        Some((u - 0x30) as nat)
    } else {
        None
    }
}

/// Whether every character of `s` is a decimal digit.
pub open spec fn all_dec(s: Seq<char>) -> bool {
    forall|i: int| 0 <= i < s.len() ==> (#[trigger] dec_value(s[i])) is Some
}

/// The number that the decimal digits `s` denote.
pub open spec fn dec_number(s: Seq<char>) -> nat
    decreases s.len(),
{
    if s.len() == 0 {
        0
    } else {
        dec_number(s.drop_last()) * 10 + dec_value(s.last())->0
    }
}

/// What `str::parse::<u64>` gives for `s`: an optional `+` followed by at
/// least one decimal digit, denoting a number that fits in 64 bits.
pub open spec fn parse_u64_spec(s: Seq<char>) -> Option<u64> {
    let d = if s.len() > 0 && s[0] == '+' {
        s.drop_first()
    } else {
        s
    };
    if d.len() > 0 && all_dec(d) && dec_number(d) <= u64::MAX {
        Some(dec_number(d) as u64)
    } else {
        None
    }
}

proof fn lemma_dec_number_monotone(s: Seq<char>, j: int, k: int)
    requires
        0 <= j <= k <= s.len(),
        all_dec(s.take(k)),
    ensures
        dec_number(s.take(j)) <= dec_number(s.take(k)),
    decreases k - j,
{
    if j < k {
        lemma_dec_number_monotone(s, j, k - 1);
        assert(s.take(k).drop_last() =~= s.take(k - 1));
        assert(all_dec(s.take(k - 1))) by {
            assert forall|i: int| 0 <= i < k - 1 implies (#[trigger] dec_value(
                s.take(k - 1)[i],
            )) is Some by {
                assert(s.take(k - 1)[i] == s.take(k)[i]);
            }
        }
    }
}

/// The value of a decimal digit character.
fn dec_digit(c: char) -> (d: Option<u64>)
    ensures
        match d {
            Some(x) => dec_value(c) == Some(x as nat),
            None => dec_value(c) is None,
        },
{
    let u: u32 = c as u32;
    if 0x30 <= u && u <= 0x39 {
        Some((u - 0x30) as u64)
    } else {
        None
    }
}

/// Parses `v[lo..hi]` as `str::parse::<u64>` does.
pub fn parse_u64(v: &Vec<char>, lo: usize, hi: usize) -> (r: Option<u64>)
    requires
        lo <= hi <= v@.len(),
    ensures
        r == parse_u64_spec(v@.subrange(lo as int, hi as int)),
{
    let ghost s = v@.subrange(lo as int, hi as int);
    let start: usize = if lo < hi && v[lo] == '+' {
        lo + 1
    } else {
        lo
    };
    let ghost d = v@.subrange(start as int, hi as int);
    assert(d =~= (if s.len() > 0 && s[0] == '+' {
        s.drop_first()
    } else {
        s
    }));
    if start == hi {
        return None;
    }
    let mut acc: u64 = 0;
    let mut i: usize = start;
    while i < hi
        invariant
            lo <= start <= i <= hi <= v@.len(),
            d == v@.subrange(start as int, hi as int),
            s == v@.subrange(lo as int, hi as int),
            d == (if s.len() > 0 && s[0] == '+' {
                s.drop_first()
            } else {
                s
            }),
            all_dec(d.take(i - start)),
            acc as nat == dec_number(d.take(i - start)),
        decreases hi - i,
    {
        let ghost k = i - start;
        assert(d.take(k + 1).drop_last() =~= d.take(k));
        assert(d[k] == v@[i as int]);
        assert(d.take(k + 1).last() == d[k]);
        assert(dec_number(d.take(k + 1)) == dec_number(d.take(k)) * 10 + dec_value(d[k])->0);
        match dec_digit(v[i]) {
            None => {
                assert(!all_dec(d));
                return None;
            },
            Some(x) => {
                assert(all_dec(d.take(k + 1))) by {
                    assert forall|j: int| 0 <= j < k + 1 implies (#[trigger] dec_value(
                        d.take(k + 1)[j],
                    )) is Some by {
                        if j < k {
                            assert(d.take(k + 1)[j] == d.take(k)[j]);
                        }
                    }
                }
                match acc.checked_mul(10) {
                    None => {
                        proof {
                            if all_dec(d) {
                                assert(d.take(d.len() as int) =~= d);
                                lemma_dec_number_monotone(d, k + 1, d.len() as int);
                            }
                        }
                        return None;
                    },
                    Some(m) => match m.checked_add(x) {
                        None => {
                            proof {
                                if all_dec(d) {
                                    assert(d.take(d.len() as int) =~= d);
                                    lemma_dec_number_monotone(d, k + 1, d.len() as int);
                                }
                            }
                            return None;
                        },
                        Some(a) => {
                            acc = a;
                        },
                    },
                }
            },
        }
        i += 1;
    }
    assert(d.take(d.len() as int) =~= d);
    Some(acc)
}


/// Whether `i` is the first position at which `p` occurs in `s`.
pub open spec fn is_first_occurrence(s: Seq<char>, p: Seq<char>, i: int) -> bool {
    &&& 0 <= i && i + p.len() <= s.len()
    &&& s.subrange(i, i + p.len()) == p
    &&& forall|j: int| 0 <= j < i ==> #[trigger] s.subrange(j, j + p.len()) != p
}

/// The first position at which `p` occurs in `s`, as `str::find` gives it.
pub open spec fn find(s: Seq<char>, p: Seq<char>) -> Option<int> {
    if exists|i: int| is_first_occurrence(s, p, i) {
        Some(choose|i: int| is_first_occurrence(s, p, i))
    } else {
        None
    }
}

/// There is at most one first occurrence.
pub proof fn lemma_first_occurrence_unique(s: Seq<char>, p: Seq<char>, i: int, k: int)
    requires
        is_first_occurrence(s, p, i),
        is_first_occurrence(s, p, k),
    ensures
        i == k,
{
    if i < k {
        assert(s.subrange(i, i + p.len()) != p);
    } else if k < i {
        assert(s.subrange(k, k + p.len()) != p);
    }
}

/// The position of the first occurrence of `p` in `v[lo..hi]`, relative to `lo`.
pub fn find_in(v: &Vec<char>, lo: usize, hi: usize, p: &Vec<char>) -> (r: Option<usize>)
    requires
        lo <= hi <= v@.len(),
    ensures
        match r {
            Some(i) => find(v@.subrange(lo as int, hi as int), p@) == Some(i as int)
                && is_first_occurrence(v@.subrange(lo as int, hi as int), p@, i as int),
            None => find(v@.subrange(lo as int, hi as int), p@) is None,
        },
{
    let ghost s = v@.subrange(lo as int, hi as int);
    if p.len() > hi - lo {
        assert forall|i: int| !is_first_occurrence(s, p@, i) by {}
        return None;
    }
    let last: usize = hi - lo - p.len();
    let mut i: usize = 0;
    while i <= last
        invariant
            lo <= hi <= v@.len(),
            p@.len() <= hi - lo,
            last == hi - lo - p@.len(),
            s == v@.subrange(lo as int, hi as int),
            0 <= i <= last + 1,
            forall|j: int| 0 <= j < i ==> #[trigger] s.subrange(j, j + p@.len()) != p@,
        decreases last + 1 - i,
    {
        let m = has_prefix(v, lo + i, hi, p);
        assert(v@.subrange(lo + i, hi as int).subrange(0, p@.len() as int) =~= s.subrange(
            i as int,
            i + p@.len(),
        ));
        if m {
            assert(is_first_occurrence(s, p@, i as int));
            proof {
                let k = choose|k: int| is_first_occurrence(s, p@, k);
                lemma_first_occurrence_unique(s, p@, i as int, k);
            }
            return Some(i);
        }
        i += 1;
    }
    assert forall|k: int| !is_first_occurrence(s, p@, k) by {
        if is_first_occurrence(s, p@, k) {
            assert(s.subrange(k, k + p@.len()) != p@);
        }
    }
    None
}


/// The second `sep`-separated field of `s` (what `s.split(sep).nth(1)`
/// yields), or all of `s` when `sep` does not occur in it.
pub open spec fn second_field(s: Seq<char>, sep: Seq<char>) -> Seq<char> {
    match find(s, sep) {
        Some(c) => {
            let rest = s.skip(c + sep.len());
            match find(rest, sep) {
                Some(d) => rest.take(d),
                None => rest,
            }
        },
        None => s,
    }
}

/// The bounds of `second_field(v[lo..hi], sep)` within `v`.
pub fn second_field_bounds(v: &Vec<char>, lo: usize, hi: usize, sep: &Vec<char>) -> (r: (
    usize,
    usize,
))
    requires
        lo <= hi <= v@.len(),
    ensures
        lo <= r.0 <= r.1 <= hi,
        v@.subrange(r.0 as int, r.1 as int) == second_field(
            v@.subrange(lo as int, hi as int),
            sep@,
        ),
{
    let ghost data = v@.subrange(lo as int, hi as int);
    match find_in(v, lo, hi, sep) {
        None => {
            (lo, hi)
        },
        Some(c) => {
            let start = lo + c + sep.len();
            assert(data.skip(c + sep@.len()) =~= v@.subrange(start as int, hi as int));
            match find_in(v, start, hi, sep) {
                Some(d) => {
                    assert(data.skip(c + sep@.len()).take(d as int) =~= v@.subrange(
                        start as int,
                        start + d,
                    ));
                    (start, start + d)
                },
                None => (start, hi),
            }
        },
    }
}


/// Lexicographic order of character sequences by code point, the order in
/// which `String` compares (its UTF-8 bytes compare in the same order).
pub open spec fn lex_lt(a: Seq<char>, b: Seq<char>) -> bool
    decreases a.len(),
{
    if a.len() == 0 {
        b.len() > 0
    } else if b.len() == 0 {
        false
    } else if a[0] != b[0] {
        a[0] < b[0]
    } else {
        lex_lt(a.drop_first(), b.drop_first())
    }
}

/// No sequence is before itself.
pub proof fn lemma_lex_irreflexive(a: Seq<char>)
    ensures
        !lex_lt(a, a),
    decreases a.len(),
{
    if a.len() > 0 {
        lemma_lex_irreflexive(a.drop_first());
    }
}

/// Of two different sequences, exactly one is before the other.
pub proof fn lemma_lex_total(a: Seq<char>, b: Seq<char>)
    ensures
        a == b || lex_lt(a, b) || lex_lt(b, a),
        !(lex_lt(a, b) && lex_lt(b, a)),
    decreases a.len(),
{
    if a.len() > 0 && b.len() > 0 {
        lemma_lex_total(a.drop_first(), b.drop_first());
        if a[0] == b[0] && a.drop_first() == b.drop_first() {
            assert forall|i: int| 0 <= i < a.len() implies a[i] == b[i] by {
                if i > 0 {
                    assert(a[i] == a.drop_first()[i - 1]);
                    assert(b[i] == b.drop_first()[i - 1]);
                }
            }
            assert(a =~= b);
        }
    } else if a.len() == 0 && b.len() == 0 {
        assert(a =~= b);
    }
}

/// The order is transitive.
pub proof fn lemma_lex_transitive(a: Seq<char>, b: Seq<char>, c: Seq<char>)
    requires
        lex_lt(a, b),
        lex_lt(b, c),
    ensures
        lex_lt(a, c),
    decreases a.len(),
{
    if a.len() > 0 && b.len() > 0 && c.len() > 0 {
        if a[0] == b[0] && b[0] == c[0] {
            lemma_lex_transitive(a.drop_first(), b.drop_first(), c.drop_first());
        }
    }
}

/// Whether `a` comes before `b` in code point order.
pub fn lex_less(a: &Vec<char>, b: &Vec<char>) -> (r: bool)
    ensures
        r == lex_lt(a@, b@),
{
    let mut i: usize = 0;
    assert(a@.skip(0) =~= a@);
    assert(b@.skip(0) =~= b@);
    while i < a.len() && i < b.len()
        invariant
            i <= a@.len(),
            i <= b@.len(),
            lex_lt(a@, b@) == lex_lt(a@.skip(i as int), b@.skip(i as int)),
        decreases a@.len() - i,
    {
        assert(a@.skip(i as int)[0] == a@[i as int]);
        assert(b@.skip(i as int)[0] == b@[i as int]);
        if a[i] != b[i] {
            return a[i] < b[i];
        }
        assert(a@.skip(i as int).drop_first() =~= a@.skip(i + 1));
        assert(b@.skip(i as int).drop_first() =~= b@.skip(i + 1));
        i += 1;
    }
    i < b.len()
}

/// Whether `a` and `b` hold the same characters.
pub fn chars_equal(a: &Vec<char>, b: &Vec<char>) -> (r: bool)
    ensures
        r == (a@ == b@),
{
    assert(a@.subrange(0, a@.len() as int) =~= a@);
    range_equals(a, 0, a.len(), b)
}


proof fn lemma_digit_value(d: nat)
    requires
        d < 10,
    ensures
        dec_value(digit_char(d)) == Some(d),
{
}

proof fn lemma_decimal_digits(n: nat)
    ensures
        all_dec(decimal(n)),
        dec_number(decimal(n)) == n,
        decimal(n).len() > 0,
        decimal(n)[0] != '+',
    decreases n,
{
    lemma_digit_value(n % 10);
    if n < 10 {
        assert(decimal(n).drop_last() =~= Seq::<char>::empty());
        assert(dec_number(decimal(n).drop_last()) == 0);
        assert(decimal(n).last() == digit_char(n));
        assert(dec_number(decimal(n)) == dec_number(decimal(n).drop_last()) * 10 + dec_value(
            decimal(n).last(),
        )->0);
    }
    if n >= 10 {
        lemma_decimal_digits(n / 10);
        assert(n == (n / 10) * 10 + n % 10) by (nonlinear_arith);
        let d = decimal(n / 10);
        let e = d.push(digit_char(n % 10));
        assert(e.drop_last() =~= d);
        assert(decimal(n) == e);
        assert(dec_number(e) == dec_number(d) * 10 + dec_value(e.last())->0);
        assert forall|i: int| 0 <= i < e.len() implies (#[trigger] dec_value(e[i])) is Some by {
            if i < d.len() {
                assert(e[i] == d[i]);
            }
        }
        assert(e[0] == d[0]);
    }
}

/// Reading back the decimal text of a number gives the number:
/// `n.to_string().parse::<u64>() == Ok(n)`.
pub proof fn lemma_decimal_parse_roundtrip(n: u64)
    ensures
        parse_u64_spec(decimal(n as nat)) == Some(n),
{
    lemma_decimal_digits(n as nat);
}

/// Trimming twice is trimming once.
pub proof fn lemma_trim_idempotent(s: Seq<char>)
    ensures
        trim(trim(s)) == trim(s),
{
    lemma_trim_start_of_trimmed(s);
    lemma_trim_end_keeps_start(trim_start(s));
    lemma_trim_end_idempotent(trim_start(s));
}

proof fn lemma_trim_start_of_trimmed(s: Seq<char>)
    ensures
        trim_start(s).len() == 0 || !is_ws(trim_start(s)[0]),
    decreases s.len(),
{
    if s.len() > 0 && is_ws(s[0]) {
        lemma_trim_start_of_trimmed(s.drop_first());
    }
}

proof fn lemma_trim_end_keeps_start(s: Seq<char>)
    requires
        s.len() == 0 || !is_ws(s[0]),
    ensures
        trim_start(trim_end(s)) == trim_end(s),
        trim_end(s).len() == 0 || !is_ws(trim_end(s).last()),
    decreases s.len(),
{
    if s.len() > 0 && is_ws(s.last()) {
        if s.len() > 1 {
            assert(s.drop_last()[0] == s[0]);
        }
        lemma_trim_end_keeps_start(s.drop_last());
    }
}

proof fn lemma_trim_end_idempotent(s: Seq<char>)
    requires
        s.len() == 0 || !is_ws(s[0]),
    ensures
        trim_end(trim_end(s)) == trim_end(s),
{
    lemma_trim_end_keeps_start(s);
}

} // verus!

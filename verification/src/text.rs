use vstd::prelude::*;

verus! {

/// ASCII whitespace, as trimmed from the edges of WHOIS fields.
pub open spec fn is_ws(b: u8) -> bool {
    b == 32 || b == 9 || b == 10 || b == 13 || b == 11 || b == 12
}

pub open spec fn is_digit(b: u8) -> bool {
    48 <= b && b <= 57
}

pub open spec fn all_digits(s: Seq<u8>) -> bool {
    forall|i: int| 0 <= i < s.len() ==> is_digit(#[trigger] s[i])
}

pub open spec fn to_lower(b: u8) -> u8 {
    if 65 <= b && b <= 90 {
        (b + 32) as u8
    } else {
        b
    }
}

pub open spec fn lower_seq(s: Seq<u8>) -> Seq<u8> {
    s.map_values(|b: u8| to_lower(b))
}

pub open spec fn trim_start_spec(s: Seq<u8>) -> Seq<u8>
    decreases s.len(),
{
    if s.len() > 0 && is_ws(s[0]) {
        trim_start_spec(s.drop_first())
    } else {
        s
    }
}

pub open spec fn trim_end_spec(s: Seq<u8>) -> Seq<u8>
    decreases s.len(),
{
    if s.len() > 0 && is_ws(s.last()) {
        trim_end_spec(s.drop_last())
    } else {
        s
    }
}

/// The sequence with ASCII whitespace removed from both ends.
pub open spec fn trim_spec(s: Seq<u8>) -> Seq<u8> {
    trim_end_spec(trim_start_spec(s))
}

/// The value of a sequence of decimal digits, most significant first.
pub open spec fn dec_value(s: Seq<u8>) -> int
    decreases s.len(),
{
    if s.len() == 0 {
        0
    } else {
        dec_value(s.drop_last()) * 10 + (s.last() - 48)
    }
}

/// A sequence parses as a `u32` when it is non-empty, all digits, and its
/// value fits.
pub open spec fn parses_as_u32(s: Seq<u8>) -> bool {
    s.len() > 0 && all_digits(s) && dec_value(s) <= u32::MAX
}

pub proof fn lemma_dec_value_prefix(s: Seq<u8>, i: int)
    requires
        0 <= i < s.len(),
    ensures
        dec_value(s.subrange(0, i + 1)) == dec_value(s.subrange(0, i)) * 10 + (s[i] - 48),
{
    let p = s.subrange(0, i + 1);
    assert(p.drop_last() =~= s.subrange(0, i));
    assert(p.last() == s[i]);
}

pub proof fn lemma_dec_value_nonneg(s: Seq<u8>)
    requires
        all_digits(s),
    ensures
        dec_value(s) >= 0,
    decreases s.len(),
{
    if s.len() > 0 {
        assert(all_digits(s.drop_last())) by {
            assert(forall|i: int|
                0 <= i < s.len() - 1 ==> s.drop_last()[i] == #[trigger] s[i]);
        }
        lemma_dec_value_nonneg(s.drop_last());
    }
}

pub proof fn lemma_dec_value_monotone(s: Seq<u8>, i: int, j: int)
    requires
        0 <= i <= j <= s.len(),
        all_digits(s),
    ensures
        dec_value(s.subrange(0, i)) <= dec_value(s.subrange(0, j)),
    decreases j - i,
{
    if i < j {
        lemma_dec_value_monotone(s, i, j - 1);
        lemma_dec_value_prefix(s, j - 1);
        let v = dec_value(s.subrange(0, j - 1));
        assert(all_digits(s.subrange(0, j - 1))) by {
            assert(forall|k: int|
                0 <= k < j - 1 ==> s.subrange(0, j - 1)[k] == #[trigger] s[k]);
        }
        lemma_dec_value_nonneg(s.subrange(0, j - 1));
        assert(v <= v * 10 + (s[j - 1] - 48)) by (nonlinear_arith)
            requires
                v >= 0,
                s[j - 1] >= 48,
        ;
    }
}

/// The decimal digits of `n`, most significant first, without leading
/// zeros (`0` itself is the single digit `0`).
pub open spec fn dec_digits(n: int) -> Seq<u8>
    decreases n,
{
    if n < 10 {
        seq![(48 + if n >= 0 { n } else { 0 }) as u8]
    } else {
        dec_digits(n / 10).push((48 + n % 10) as u8)
    }
}

pub proof fn lemma_dec_digits_value(n: int)
    requires
        n >= 0,
    ensures
        all_digits(dec_digits(n)),
        dec_digits(n).len() >= 1,
        dec_value(dec_digits(n)) == n,
        dec_digits(n)[0] != 48 || dec_digits(n).len() == 1,
    decreases n,
{
    if n < 10 {
        let s = dec_digits(n);
        assert(s.len() == 1);
        assert(s.drop_last() =~= Seq::<u8>::empty());
        assert(dec_value(s.drop_last()) == 0);
        assert(s.last() == (48 + n) as u8);
        assert(dec_value(s) == n);
    } else {
        lemma_dec_digits_value(n / 10);
        let s = dec_digits(n);
        let p = dec_digits(n / 10);
        assert(s.drop_last() =~= p);
        assert(s.last() == (48 + n % 10) as u8);
        assert(dec_value(s) == dec_value(p) * 10 + n % 10);
        vstd::arithmetic::div_mod::lemma_fundamental_div_mod(n, 10);
        assert(all_digits(s)) by {
            assert(forall|i: int| 0 <= i < p.len() ==> s[i] == #[trigger] p[i]);
        }
        assert(s[0] == p[0]);
        assert(n / 10 >= 1);
        assert(s[0] != 48) by {
            if p.len() == 1 {
                assert(dec_value(p) == p[0] - 48) by {
                    assert(p.drop_last() =~= Seq::<u8>::empty());
                    assert(dec_value(p.drop_last()) == 0);
                    assert(p.last() == p[0]);
                }
                assert(p[0] - 48 >= 1);
            } else {
                assert(p[0] != 48);
            }
        }
    }
}

/// Writes `n` in decimal, most significant digit first.
pub fn format_u32_dec(n: u32) -> (v: Vec<u8>)
    ensures
        v@ == dec_digits(n as int),
    decreases n,
{
    if n < 10 {
        let mut v: Vec<u8> = Vec::new();
        v.push(48 + n as u8);
        proof {
            assert(v@ =~= dec_digits(n as int));
        }
        v
    } else {
        let mut v = format_u32_dec(n / 10);
        v.push(48 + (n % 10) as u8);
        v
    }
}

/// Exact byte-sequence equality of two slices.
pub fn slice_eq(a: &[u8], b: &[u8]) -> (r: bool)
    ensures
        r == (a@ == b@),
{
    if a.len() != b.len() {
        assert(a@ != b@) by {
            assert(a@.len() != b@.len());
        }
        return false;
    }
    let n = a.len();
    let mut i: usize = 0;
    while i < n
        invariant
            n == a@.len() == b@.len(),
            0 <= i <= n,
            forall|k: int| 0 <= k < i ==> a@[k] == b@[k],
        decreases n - i,
    {
        if a[i] != b[i] {
            return false;
        }
        i += 1;
    }
    assert(a@ =~= b@);
    true
}

/// Case-insensitive (ASCII) equality of two slices.
pub fn eq_ignore_ascii_case(a: &[u8], b: &[u8]) -> (r: bool)
    ensures
        r == (lower_seq(a@) == lower_seq(b@)),
{
    if a.len() != b.len() {
        assert(lower_seq(a@) != lower_seq(b@)) by {
            assert(lower_seq(a@).len() != lower_seq(b@).len());
        }
        return false;
    }
    let n = a.len();
    let mut i: usize = 0;
    while i < n
        invariant
            n == a@.len() == b@.len(),
            0 <= i <= n,
            forall|k: int| 0 <= k < i ==> lower_seq(a@)[k] == lower_seq(b@)[k],
        decreases n - i,
    {
        let x = a[i];
        let y = b[i];
        let xl = if 65 <= x && x <= 90 {
            x + 32
        } else {
            x
        };
        let yl = if 65 <= y && y <= 90 {
            y + 32
        } else {
            y
        };
        if xl != yl {
            assert(lower_seq(a@)[i as int] != lower_seq(b@)[i as int]);
            return false;
        }
        i += 1;
    }
    assert(lower_seq(a@) =~= lower_seq(b@));
    true
}

/// The first index at which `c` occurs in `s`, if any.
pub open spec fn first_index_of(s: Seq<u8>, c: u8) -> Option<int>
    decreases s.len(),
{
    if s.len() == 0 {
        None
    } else if s[0] == c {
        Some(0int)
    } else {
        match first_index_of(s.drop_first(), c) {
            Some(j) => Some(j + 1),
            None => None,
        }
    }
}

/// First index of `c` in `b`, if any.
pub fn find_first(b: &[u8], c: u8) -> (r: Option<usize>)
    ensures
        match r {
            Some(i) => first_index_of(b@, c) == Some(i as int) && i < b@.len(),
            None => first_index_of(b@, c) is None,
        },
{
    let n = b.len();
    proof {
        assert(b@.skip(0) =~= b@);
    }
    let mut i: usize = 0;
    while i < n
        invariant
            n == b@.len(),
            0 <= i <= n,
            first_index_of(b@, c) == (match first_index_of(b@.skip(i as int), c) {
                Some(j) => Some(j + i),
                None => None::<int>,
            }),
        decreases n - i,
    {
        if b[i] == c {
            proof {
                assert(b@.skip(i as int)[0] == c);
            }
            return Some(i);
        }
        proof {
            assert(b@.skip(i as int).drop_first() =~= b@.skip(i as int + 1));
            assert(b@.skip(i as int)[0] != c);
        }
        i += 1;
    }
    proof {
        assert(b@.skip(i as int).len() == 0);
    }
    None
}

/// Copies a byte slice into a fresh vector.
pub fn bytes_to_vec(b: &[u8]) -> (v: Vec<u8>)
    ensures
        v@ == b@,
{
    let n = b.len();
    let mut v: Vec<u8> = Vec::new();
    let mut i: usize = 0;
    while i < n
        invariant
            n == b@.len(),
            0 <= i <= n,
            v@ == b@.subrange(0, i as int),
        decreases n - i,
    {
        v.push(b[i]);
        proof {
            assert(v@ =~= b@.subrange(0, i as int + 1));
        }
        i += 1;
    }
    proof {
        assert(b@.subrange(0, n as int) =~= b@);
    }
    v
}

fn trim_start_idx(b: &[u8]) -> (start: usize)
    ensures
        start <= b@.len(),
        b@.subrange(start as int, b@.len() as int) == trim_start_spec(b@),
{
    let n = b.len();
    proof {
        assert(b@.subrange(0, n as int) =~= b@);
    }
    let mut start: usize = 0;
    while start < n
        invariant
            n == b@.len(),
            0 <= start <= n,
            trim_start_spec(b@) == trim_start_spec(b@.subrange(start as int, n as int)),
        decreases n - start,
    {
        let w = b[start];
        if !(w == 32 || w == 9 || w == 10 || w == 13 || w == 11 || w == 12) {
            proof {
                let cur = b@.subrange(start as int, n as int);
                assert(!is_ws(cur[0]));
                assert(trim_start_spec(b@) == cur);
            }
            return start;
        }
        proof {
            let cur = b@.subrange(start as int, n as int);
            assert(cur.drop_first() =~= b@.subrange(start as int + 1, n as int));
        }
        start += 1;
    }
    proof {
        let cur = b@.subrange(start as int, n as int);
        assert(trim_start_spec(b@) == cur);
    }
    start
}

fn trim_end_idx(b: &[u8], start: usize) -> (end: usize)
    requires
        start <= b@.len(),
    ensures
        start <= end <= b@.len(),
        b@.subrange(start as int, end as int) == trim_end_spec(
            b@.subrange(start as int, b@.len() as int),
        ),
{
    let n = b.len();
    let mut end: usize = n;
    while end > start
        invariant
            n == b@.len(),
            start <= end <= n,
            trim_end_spec(b@.subrange(start as int, n as int)) == trim_end_spec(
                b@.subrange(start as int, end as int),
            ),
        decreases end,
    {
        let w = b[end - 1];
        if !(w == 32 || w == 9 || w == 10 || w == 13 || w == 11 || w == 12) {
            proof {
                let cur = b@.subrange(start as int, end as int);
                assert(!is_ws(cur.last()));
                assert(trim_end_spec(cur) == cur);
            }
            return end;
        }
        proof {
            let cur = b@.subrange(start as int, end as int);
            assert(cur.drop_last() =~= b@.subrange(start as int, end as int - 1));
        }
        end -= 1;
    }
    proof {
        let cur = b@.subrange(start as int, end as int);
        assert(cur.len() == 0);
        assert(trim_end_spec(cur) == cur);
    }
    end
}

/// The bounds of `b` with ASCII whitespace trimmed from both ends:
/// `b[r.0 .. r.1]` is `trim_spec(b@)`.
pub fn trim_bounds(b: &[u8]) -> (r: (usize, usize))
    ensures
        r.0 <= r.1 <= b@.len(),
        b@.subrange(r.0 as int, r.1 as int) == trim_spec(b@),
{
    let start = trim_start_idx(b);
    let end = trim_end_idx(b, start);
    (start, end)
}

/// Parses a non-empty, all-digit slice as a `u32`; `None` on any other input
/// or on overflow.
pub fn parse_u32_dec(b: &[u8]) -> (r: Option<u32>)
    ensures
        match r {
            Some(v) => parses_as_u32(b@) && v == dec_value(b@),
            None => !parses_as_u32(b@),
        },
{
    let n = b.len();
    if n == 0 {
        return None;
    }
    let mut acc: u32 = 0;
    let mut i: usize = 0;
    while i < n
        invariant
            n == b@.len(),
            0 <= i <= n,
            all_digits(b@.subrange(0, i as int)),
            acc == dec_value(b@.subrange(0, i as int)),
        decreases n - i,
    {
        let d = b[i];
        if d < 48 || d > 57 {
            assert(!all_digits(b@));
            return None;
        }
        proof {
            lemma_dec_value_prefix(b@, i as int);
            assert(all_digits(b@.subrange(0, i as int + 1))) by {
                let p = b@.subrange(0, i as int + 1);
                assert(forall|k: int| 0 <= k < i ==> p[k] == b@.subrange(0, i as int)[k]);
            }
        }
        let next = match acc.checked_mul(10) {
            Some(m) => m.checked_add((d - 48) as u32),
            None => None,
        };
        match next {
            Some(v) => {
                acc = v;
            },
            None => {
                proof {
                    if all_digits(b@) && dec_value(b@) <= u32::MAX {
                        lemma_dec_value_monotone(b@, i as int + 1, n as int);
                        assert(b@.subrange(0, n as int) =~= b@);
                    }
                }
                return None;
            },
        }
        i += 1;
    }
    proof {
        assert(b@.subrange(0, n as int) =~= b@);
    }
    Some(acc)
}

} // verus!

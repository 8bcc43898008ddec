//! Byte-string helpers for the HTTP front ends: cutting at a delimiter,
//! ASCII case folding, whitespace trimming and comma-separated tokens.
use vstd::prelude::*;

verus! {

/// Index of the first `c` at or after `i` in `s` (its length when there is none).
pub open spec fn find_from(s: Seq<u8>, c: u8, i: nat) -> nat
    decreases s.len() - i,
{
    if i < s.len() && s[i as int] != c {
        find_from(s, c, i + 1)
    } else {
        i
    }
}

/// Everything in `s` before its first `c`.
pub open spec fn until(s: Seq<u8>, c: u8) -> Seq<u8> {
    s.take(find_from(s, c, 0) as int)
}

/// ASCII lower case of a byte.
pub open spec fn lower(b: u8) -> u8 {
    if 65 <= b <= 90 {
        (b + 32) as u8
    } else {
        b
    }
}

/// `a` and `b` are equal ignoring ASCII case.
pub open spec fn same_ignoring_case(a: Seq<u8>, b: Seq<u8>) -> bool {
    a.len() == b.len() && forall|i: int| 0 <= i < a.len() ==> #[trigger] lower(a[i]) == lower(b[i])
}

/// ASCII whitespace: tab, line feed, vertical tab, form feed, carriage return, space.
pub open spec fn is_space(b: u8) -> bool {
    b == 32 || (9 <= b <= 13)
}

/// Index of the first byte at or after `i` that is not whitespace.
pub open spec fn skip_spaces(s: Seq<u8>, i: nat) -> nat
    decreases s.len() - i,
{
    if i < s.len() && is_space(s[i as int]) {
        skip_spaces(s, i + 1)
    } else {
        i
    }
}

/// Going back from `j`, but not below `lo`, the end of the last byte that is not whitespace.
pub open spec fn back_spaces(s: Seq<u8>, j: nat, lo: nat) -> nat
    decreases j,
{
    if j > lo && is_space(s[j - 1]) {
        back_spaces(s, (j - 1) as nat, lo)
    } else {
        j
    }
}

/// `s` without leading and trailing whitespace.
pub open spec fn trimmed(s: Seq<u8>) -> Seq<u8> {
    let lo = skip_spaces(s, 0);
    s.subrange(lo as int, back_spaces(s, s.len(), lo) as int)
}

/// `s[a..b]` is one of the pieces of `s` between commas.
pub open spec fn is_piece(s: Seq<u8>, a: int, b: int) -> bool {
    &&& 0 <= a <= b <= s.len()
    &&& (a == 0 || s[a - 1] == 44)
    &&& (b == s.len() || s[b] == 44)
    &&& forall|j: int| a <= j < b ==> #[trigger] s[j] != 44
}

/// One of the comma-separated pieces of `s`, trimmed, is `token` ignoring ASCII case.
pub open spec fn has_token(s: Seq<u8>, token: Seq<u8>) -> bool {
    exists|a: int, b: int| #[trigger] is_piece(s, a, b) && same_ignoring_case(trimmed(s.subrange(a, b)), token)
}

/// `find_from` stops at the first `c`.
pub proof fn lemma_find_from(s: Seq<u8>, c: u8, i: nat)
    requires
        i <= s.len(),
    ensures
        i <= find_from(s, c, i) <= s.len(),
        forall|j: int| i <= j < find_from(s, c, i) ==> #[trigger] s[j] != c,
        find_from(s, c, i) < s.len() ==> s[find_from(s, c, i) as int] == c,
    decreases s.len() - i,
{
    if i < s.len() && s[i as int] != c {
        lemma_find_from(s, c, i + 1);
    }
}

/// Everything in `s` before its first `c`.
pub fn until_byte(s: &[u8], c: u8) -> (head: Vec<u8>)
    ensures
        head@ == until(s@, c),
{
    let mut head: Vec<u8> = Vec::new();
    let mut k: usize = 0;
    proof {
        lemma_find_from(s@, c, 0);
    }
    while k < s.len() && s[k] != c
        invariant
            k <= s@.len(),
            k <= find_from(s@, c, 0),
            head@ == s@.take(k as int),
            find_from(s@, c, 0) <= s@.len(),
            forall|j: int| 0 <= j < find_from(s@, c, 0) ==> #[trigger] s@[j] != c,
            find_from(s@, c, 0) < s@.len() ==> s@[find_from(s@, c, 0) as int] == c,
        decreases s@.len() - k,
    {
        head.push(s[k]);
        assert(s@.take(k as int + 1) =~= s@.take(k as int).push(s@[k as int]));
        k = k + 1;
    }
    head
}

/// ASCII lower case of a byte.
pub fn to_lower(b: u8) -> (l: u8)
    ensures
        l == lower(b),
{
    if 65 <= b && b <= 90 {
        b + 32
    } else {
        b
    }
}

/// `a[lo..hi]` equals `b` ignoring ASCII case.
pub fn piece_same_ignoring_case(a: &[u8], lo: usize, hi: usize, b: &[u8]) -> (same: bool)
    requires
        lo <= hi <= a@.len(),
    ensures
        same == same_ignoring_case(a@.subrange(lo as int, hi as int), b@),
{
    if hi - lo != b.len() {
        return false;
    }
    let mut k: usize = 0;
    while k < b.len()
        invariant
            lo <= hi <= a@.len(),
            hi - lo == b@.len(),
            k <= b@.len(),
            forall|j: int| 0 <= j < k ==> lower(#[trigger] a@[lo + j]) == lower(b@[j]),
        decreases b@.len() - k,
    {
        if to_lower(a[lo + k]) != to_lower(b[k]) {
            assert(a@.subrange(lo as int, hi as int)[k as int] == a@[lo + k]);
            return false;
        }
        k = k + 1;
    }
    assert forall|j: int| 0 <= j < b@.len() implies #[trigger] lower(a@.subrange(lo as int, hi as int)[j])
        == lower(b@[j]) by {
        assert(a@.subrange(lo as int, hi as int)[j] == a@[lo + j]);
    }
    true
}

/// `a` equals `b` ignoring ASCII case.
pub fn same_ignoring_ascii_case(a: &[u8], b: &[u8]) -> (same: bool)
    ensures
        same == same_ignoring_case(a@, b@),
{
    let same = piece_same_ignoring_case(a, 0, a.len(), b);
    assert(a@.subrange(0, a@.len() as int) =~= a@);
    same
}

/// ASCII whitespace.
fn space(b: u8) -> (r: bool)
    ensures
        r == is_space(b),
{
    b == 32 || (9 <= b && b <= 13)
}

/// The bounds of `s[a..b]` without leading and trailing whitespace.
pub fn trim_bounds(s: &[u8], a: usize, b: usize) -> (bounds: (usize, usize))
    requires
        a <= b <= s@.len(),
    ensures
        a <= bounds.0 <= bounds.1 <= b,
        s@.subrange(bounds.0 as int, bounds.1 as int) == trimmed(s@.subrange(a as int, b as int)),
{
    let ghost piece = s@.subrange(a as int, b as int);
    let mut lo = a;
    while lo < b && space(s[lo])
        invariant
            a <= lo <= b <= s@.len(),
            piece == s@.subrange(a as int, b as int),
            skip_spaces(piece, 0) == skip_spaces(piece, (lo - a) as nat),
        decreases b - lo,
    {
        assert(piece[lo - a] == s@[lo as int]);
        lo = lo + 1;
    }
    assert(skip_spaces(piece, (lo - a) as nat) == lo - a) by {
        if lo < b {
            assert(piece[lo - a] == s@[lo as int]);
        }
    }
    let mut hi = b;
    while hi > lo && space(s[hi - 1])
        invariant
            a <= lo <= hi <= b <= s@.len(),
            piece == s@.subrange(a as int, b as int),
            skip_spaces(piece, 0) == lo - a,
            back_spaces(piece, piece.len(), (lo - a) as nat) == back_spaces(
                piece,
                (hi - a) as nat,
                (lo - a) as nat,
            ),
        decreases hi,
    {
        assert(piece[hi - 1 - a] == s@[hi - 1]);
        hi = hi - 1;
    }
    assert(back_spaces(piece, (hi - a) as nat, (lo - a) as nat) == hi - a) by {
        if hi > lo {
            assert(piece[hi - a - 1] == s@[hi - 1]);
        }
    }
    assert(s@.subrange(lo as int, hi as int) =~= piece.subrange(lo - a, hi - a));
    (lo, hi)
}

/// Whether the piece `s[start..end]` matches; a piece ending at `end` starts at `start`.
fn check_piece(s: &[u8], start: usize, end: usize, token: &[u8]) -> (here: bool)
    requires
        start <= end <= s@.len(),
        start == 0 || s@[start - 1] == 44,
        end == s@.len() || s@[end as int] == 44,
        forall|j: int| start <= j < end ==> #[trigger] s@[j] != 44,
    ensures
        is_piece(s@, start as int, end as int),
        here == same_ignoring_case(trimmed(s@.subrange(start as int, end as int)), token@),
        forall|a: int, b: int| #[trigger] is_piece(s@, a, b) && b == end ==> a == start,
{
    let (lo, hi) = trim_bounds(s, start, end);
    let here = piece_same_ignoring_case(s, lo, hi, token);
    assert forall|a: int, b: int| #[trigger] is_piece(s@, a, b) && b == end implies a == start by {
        if a < start {
            assert(s@[start - 1] == 44);
        } else if a > start {
            assert(s@[a - 1] == 44);
        }
    }
    here
}

/// One of the comma-separated pieces of `s`, trimmed, is `token` ignoring ASCII case.
pub fn contains_token(s: &[u8], token: &[u8]) -> (found: bool)
    ensures
        found == has_token(s@, token@),
{
    let mut found = false;
    let mut start: usize = 0;
    let mut i: usize = 0;
    while i < s.len()
        invariant
            start <= i <= s@.len(),
            start == 0 || s@[start - 1] == 44,
            forall|j: int| start <= j < i ==> #[trigger] s@[j] != 44,
            found <==> exists|a: int, b: int|
                #[trigger] is_piece(s@, a, b) && b < i && same_ignoring_case(
                    trimmed(s@.subrange(a, b)),
                    token@,
                ),
        decreases s@.len() - i,
    {
        if s[i] == 44 {
            if check_piece(s, start, i, token) {
                found = true;
            }
            start = i + 1;
        }
        i = i + 1;
    }
    if check_piece(s, start, s.len(), token) {
        found = true;
    }
    found
}

} // verus!

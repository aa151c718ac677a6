//! Verified byte- and string-level utilities: comparison, search,
//! splitting, case folding and decimal conversion. The backend adapters
//! parse engine output with these.

use vstd::prelude::*;

verus! {

use vstd::string::StringSliceAdditionalSpecFns;

/// Byte-for-byte equality of two slices.
pub fn bytes_eq(a: &[u8], b: &[u8]) -> (r: bool)
    ensures
        r == (a@ == b@),
{
    if a.len() != b.len() {
        proof {
            assert(a@.len() != b@.len());
        }
        return false;
    }
    let mut i: usize = 0;
    while i < a.len()
        invariant
            i <= a@.len(),
            a@.len() == b@.len(),
            forall|j: int| 0 <= j < i ==> a@[j] == b@[j],
        decreases a@.len() - i,
    {
        if a[i] != b[i] {
            return false;
        }
        i = i + 1;
    }
    proof {
        assert(a@ =~= b@);
    }
    true
}

/// Character-for-character equality of two string slices, decided on
/// their UTF-8 bytes.
pub fn str_eq(a: &str, b: &str) -> (r: bool)
    ensures
        r == (a@ == b@),
{
    let r = bytes_eq(a.as_bytes(), b.as_bytes());
    proof {
        vstd::utf8::encode_utf8_decode_utf8(a@);
        vstd::utf8::encode_utf8_decode_utf8(b@);
    }
    r
}

/// The needle occurs in the haystack at offset `i`.
pub open spec fn spec_match_at(h: Seq<u8>, n: Seq<u8>, i: int) -> bool {
    0 <= i && i + n.len() <= h.len() && h.subrange(i, i + n.len() as int) == n
}

/// The needle occurs somewhere in the haystack.
pub open spec fn spec_contains(h: Seq<u8>, n: Seq<u8>) -> bool {
    exists|i: int| spec_match_at(h, n, i)
}

/// Substring search: whether `n` occurs anywhere in `h`.
pub fn bytes_contains(h: &[u8], n: &[u8]) -> (r: bool)
    ensures
        r == spec_contains(h@, n@),
{
    if n.len() > h.len() {
        return false;
    }
    if n.len() == 0 {
        proof {
            assert(h@.subrange(0, 0) =~= n@);
            assert(spec_match_at(h@, n@, 0));
        }
        return true;
    }
    let last = h.len() - n.len();
    let mut i: usize = 0;
    proof {
        assert(h@.len() <= usize::MAX);
    }
    while i <= last
        invariant
            h@.len() <= usize::MAX,
            0 < n@.len() <= h@.len(),
            last == h@.len() - n@.len(),
            i <= last + 1,
            forall|k: int| 0 <= k < i ==> !spec_match_at(h@, n@, k),
        decreases last - i + 1,
    {
        let window = &h[i..i + n.len()];
        if bytes_eq(window, n) {
            proof {
                assert(spec_match_at(h@, n@, i as int));
            }
            return true;
        }
        i = i + 1;
    }
    proof {
        assert forall|k: int| !spec_match_at(h@, n@, k) by {
            if 0 <= k <= last as int {
                assert(!spec_match_at(h@, n@, k));
            }
        }
    }
    false
}

/// The haystack starts with the prefix.
pub open spec fn spec_starts_with(h: Seq<u8>, p: Seq<u8>) -> bool {
    spec_match_at(h, p, 0)
}

/// Prefix test.
pub fn bytes_starts_with(h: &[u8], p: &[u8]) -> (r: bool)
    ensures
        r == spec_starts_with(h@, p@),
{
    if p.len() > h.len() {
        return false;
    }
    let window = &h[0..p.len()];
    bytes_eq(window, p)
}

/// ASCII lower-casing of one byte.
pub open spec fn spec_lower_byte(b: u8) -> u8 {
    if 65 <= b <= 90 {
        (b + 32) as u8
    } else {
        b
    }
}

/// ASCII lower-casing of a byte sequence.
pub open spec fn spec_lower(s: Seq<u8>) -> Seq<u8> {
    s.map(|_i: int, b: u8| spec_lower_byte(b))
}

/// ASCII lower-casing: `A`..`Z` map to `a`..`z`, all else is kept.
pub fn to_ascii_lower(s: &[u8]) -> (r: Vec<u8>)
    ensures
        r@ == spec_lower(s@),
{
    let mut r: Vec<u8> = Vec::new();
    let mut i: usize = 0;
    while i < s.len()
        invariant
            i <= s@.len(),
            r@.len() == i,
            forall|j: int| 0 <= j < i ==> r@[j] == spec_lower_byte(s@[j]),
        decreases s@.len() - i,
    {
        let b = s[i];
        if 65 <= b && b <= 90 {
            r.push(b + 32);
        } else {
            r.push(b);
        }
        i = i + 1;
    }
    proof {
        assert(r@ =~= spec_lower(s@));
    }
    r
}

/// First offset of `sep` in `s`, or -1.
pub open spec fn spec_find_byte(s: Seq<u8>, sep: u8) -> int
    decreases s.len(),
{
    if s.len() == 0 {
        -1
    } else if s[0] == sep {
        0
    } else {
        let rest = spec_find_byte(s.subrange(1, s.len() as int), sep);
        if rest < 0 {
            -1
        } else {
            rest + 1
        }
    }
}

/// `spec_find_byte` stays in bounds, lands on the separator, and is the
/// first such offset.
pub proof fn lemma_find_byte(s: Seq<u8>, sep: u8)
    ensures
        spec_find_byte(s, sep) >= 0 ==> spec_find_byte(s, sep) < s.len() && s[spec_find_byte(
            s,
            sep,
        )] == sep,
        spec_find_byte(s, sep) < 0 ==> forall|j: int| 0 <= j < s.len() ==> s[j] != sep,
        forall|j: int| 0 <= j < spec_find_byte(s, sep) ==> s[j] != sep,
    decreases s.len(),
{
    if s.len() > 0 {
        let rest = s.subrange(1, s.len() as int);
        lemma_find_byte(rest, sep);
        assert forall|j: int| 1 <= j < s.len() implies s[j] == rest[j - 1] by {}
    }
}

/// If the bytes before `upto` miss `sep` and `upto` (when in range)
/// hits it, then `upto` is the find result; a full miss finds nothing.
pub proof fn lemma_find_byte_prefix(s: Seq<u8>, sep: u8, upto: int)
    requires
        0 <= upto <= s.len(),
        forall|j: int| 0 <= j < upto ==> s[j] != sep,
    ensures
        upto < s.len() && s[upto] == sep ==> spec_find_byte(s, sep) == upto,
        upto == s.len() ==> spec_find_byte(s, sep) < 0,
    decreases s.len(),
{
    if s.len() > 0 && upto > 0 {
        let rest = s.subrange(1, s.len() as int);
        assert forall|j: int| 0 <= j < upto - 1 implies rest[j] != sep by {
            assert(rest[j] == s[j + 1]);
        }
        lemma_find_byte_prefix(rest, sep, upto - 1);
        if upto < s.len() {
            assert(rest[upto - 1] == s[upto]);
        }
    }
}

/// Split at every occurrence of `sep`. Every input, including the
/// empty one, yields at least one piece; `n` separators yield `n + 1`
/// pieces.
pub open spec fn spec_split(s: Seq<u8>, sep: u8) -> Seq<Seq<u8>>
    decreases s.len(),
    via spec_split_decreases
{
    if spec_find_byte(s, sep) < 0 {
        seq![s]
    } else {
        let k = spec_find_byte(s, sep);
        seq![s.subrange(0, k)] + spec_split(s.subrange(k + 1, s.len() as int), sep)
    }
}

#[via_fn]
proof fn spec_split_decreases(s: Seq<u8>, sep: u8) {
    lemma_find_byte(s, sep);
}

/// Split the bytes at every occurrence of `sep`.
pub fn split_bytes(s: &[u8], sep: u8) -> (r: Vec<Vec<u8>>)
    ensures
        r@.len() == spec_split(s@, sep).len(),
        forall|j: int| 0 <= j < r@.len() ==> (#[trigger] r@[j])@ == spec_split(s@, sep)[j],
{
    let mut done: Vec<Vec<u8>> = Vec::new();
    let ghost mut acc: Seq<Seq<u8>> = Seq::empty();
    let mut start: usize = 0;
    let mut i: usize = 0;
    proof {
        assert(s@.subrange(0, s@.len() as int) =~= s@);
        assert(acc + spec_split(s@, sep) =~= spec_split(s@, sep));
    }
    while i < s.len()
        invariant
            start <= i <= s@.len(),
            forall|j: int| start <= j < i ==> s@[j] != sep,
            done@.len() == acc.len(),
            forall|j: int| 0 <= j < acc.len() ==> (#[trigger] done@[j])@ == acc[j],
            spec_split(s@, sep) == acc + spec_split(
                s@.subrange(start as int, s@.len() as int),
                sep,
            ),
        decreases s@.len() - i,
    {
        if s[i] == sep {
            let ghost rem = s@.subrange(start as int, s@.len() as int);
            proof {
                assert forall|j: int| 0 <= j < i - start implies rem[j] != sep by {
                    assert(rem[j] == s@[start + j]);
                }
                assert(rem[i - start] == s@[i as int]);
                lemma_find_byte_prefix(rem, sep, i - start);
                assert(rem.subrange(0, i - start) =~= s@.subrange(start as int, i as int));
                assert(rem.subrange(i - start + 1, rem.len() as int) =~= s@.subrange(
                    i + 1,
                    s@.len() as int,
                ));
            }
            let piece = slice_to_vec_u8(&s[start..i]);
            done.push(piece);
            proof {
                acc = acc.push(s@.subrange(start as int, i as int));
                assert(spec_split(s@, sep) =~= acc + spec_split(
                    s@.subrange(i + 1, s@.len() as int),
                    sep,
                ));
            }
            start = i + 1;
        }
        i = i + 1;
    }
    let ghost rem = s@.subrange(start as int, s@.len() as int);
    proof {
        assert forall|j: int| 0 <= j < rem.len() implies rem[j] != sep by {
            assert(rem[j] == s@[start + j]);
        }
        lemma_find_byte_prefix(rem, sep, rem.len() as int);
        assert(spec_split(rem, sep) == seq![rem]);
    }
    let piece = slice_to_vec_u8(&s[start..s.len()]);
    done.push(piece);
    proof {
        acc = acc.push(rem);
        assert(spec_split(s@, sep) =~= acc);
    }
    done
}

/// A carriage return at the end of a line is dropped.
pub open spec fn spec_strip_cr(s: Seq<u8>) -> Seq<u8> {
    if s.len() > 0 && s.last() == 13 {
        s.drop_last()
    } else {
        s
    }
}

/// The lines of a byte text: split at every newline, with a trailing
/// carriage return dropped from each line and one final empty piece
/// (from a terminating newline) dropped.
pub open spec fn spec_lines(s: Seq<u8>) -> Seq<Seq<u8>> {
    let p = spec_split(s, 10);
    let q = if p.len() > 0 && p.last().len() == 0 {
        p.drop_last()
    } else {
        p
    };
    q.map(|_i: int, piece: Seq<u8>| spec_strip_cr(piece))
}

/// Split a byte text into lines.
pub fn lines_of(s: &[u8]) -> (r: Vec<Vec<u8>>)
    ensures
        r@.len() == spec_lines(s@).len(),
        forall|j: int| 0 <= j < r@.len() ==> (#[trigger] r@[j])@ == spec_lines(s@)[j],
{
    let mut pieces = split_bytes(s, 10);
    let ghost p = spec_split(s@, 10);
    if pieces.len() > 0 && pieces[pieces.len() - 1].len() == 0 {
        let _ = pieces.pop();
    }
    let ghost q = if p.len() > 0 && p.last().len() == 0 {
        p.drop_last()
    } else {
        p
    };
    let mut r: Vec<Vec<u8>> = Vec::new();
    let mut i: usize = 0;
    while i < pieces.len()
        invariant
            i <= pieces@.len(),
            pieces@.len() == q.len(),
            forall|j: int| 0 <= j < q.len() ==> (#[trigger] pieces@[j])@ == q[j],
            r@.len() == i,
            forall|j: int| 0 <= j < i ==> (#[trigger] r@[j])@ == spec_strip_cr(q[j]),
        decreases pieces@.len() - i,
    {
        let line = &pieces[i];
        if line.len() > 0 && line[line.len() - 1] == 13 {
            let stripped = slice_to_vec_u8(&line.as_slice()[0..line.len() - 1]);
            proof {
                assert(stripped@ =~= spec_strip_cr(q[i as int]));
            }
            r.push(stripped);
        } else {
            let kept = slice_to_vec_u8(line.as_slice());
            r.push(kept);
        }
        i = i + 1;
    }
    proof {
        assert(spec_lines(s@) =~= q.map(|_i: int, piece: Seq<u8>| spec_strip_cr(piece)));
    }
    r
}

/// An ASCII decimal digit.
pub open spec fn spec_is_digit(b: u8) -> bool {
    48 <= b <= 57
}

/// All bytes are ASCII decimal digits.
pub open spec fn spec_all_digits(s: Seq<u8>) -> bool {
    forall|j: int| 0 <= j < s.len() ==> spec_is_digit(#[trigger] s[j])
}

/// The value of a digit string, most significant digit first.
pub open spec fn spec_digits_val(s: Seq<u8>) -> int
    decreases s.len(),
{
    if s.len() == 0 {
        0
    } else {
        spec_digits_val(s.drop_last()) * 10 + (s.last() - 48)
    }
}

/// A digit string's value is never negative.
pub proof fn lemma_digits_val_nonneg(s: Seq<u8>)
    requires
        spec_all_digits(s),
    ensures
        spec_digits_val(s) >= 0,
    decreases s.len(),
{
    if s.len() > 0 {
        assert(spec_all_digits(s.drop_last()));
        lemma_digits_val_nonneg(s.drop_last());
    }
}

/// A prefix of a digit string never has a larger value.
pub proof fn lemma_digits_val_prefix(s: Seq<u8>, i: int)
    requires
        spec_all_digits(s),
        0 <= i <= s.len(),
    ensures
        spec_digits_val(s.subrange(0, i)) <= spec_digits_val(s),
    decreases s.len() - i,
{
    if i < s.len() {
        let a = s.subrange(0, i);
        let b = s.subrange(0, i + 1);
        assert(b.drop_last() =~= a);
        assert(spec_all_digits(a));
        lemma_digits_val_nonneg(a);
        assert(spec_digits_val(b) == spec_digits_val(a) * 10 + (s[i] - 48));
        lemma_digits_val_prefix(s, i + 1);
    } else {
        assert(s.subrange(0, i) =~= s);
    }
}

/// Parse an unsigned decimal number. `None` exactly when the input is
/// empty, holds a non-digit, or encodes a value above `u64::MAX`.
pub fn parse_u64(s: &[u8]) -> (r: Option<u64>)
    ensures
        match r {
            Some(v) => s@.len() > 0 && spec_all_digits(s@) && v as int == spec_digits_val(s@),
            None => s@.len() == 0 || !spec_all_digits(s@) || spec_digits_val(s@) > u64::MAX,
        },
{
    if s.len() == 0 {
        return None;
    }
    let mut acc: u64 = 0;
    let mut i: usize = 0;
    while i < s.len()
        invariant
            0 < s@.len(),
            i <= s@.len(),
            spec_all_digits(s@.subrange(0, i as int)),
            acc as int == spec_digits_val(s@.subrange(0, i as int)),
        decreases s@.len() - i,
    {
        let b = s[i];
        if b < 48 || b > 57 {
            return None;
        }
        let d = (b - 48) as u64;
        if acc > (u64::MAX - d) / 10 {
            proof {
                let pre = s@.subrange(0, i as int);
                let cur = s@.subrange(0, i + 1);
                assert(cur.drop_last() =~= pre);
                assert(spec_all_digits(cur));
                assert(acc * 10 + d > u64::MAX) by (nonlinear_arith)
                    requires
                        acc > (u64::MAX - d) / 10,
                        0 <= d <= 9,
                {}
                assert(spec_digits_val(cur) > u64::MAX);
                if spec_all_digits(s@) {
                    lemma_digits_val_prefix(s@, i + 1);
                }
            }
            return None;
        }
        proof {
            assert(acc * 10 + d <= u64::MAX) by (nonlinear_arith)
                requires
                    acc <= (u64::MAX - d) / 10,
                    0 <= d <= 9,
            {}
            let pre = s@.subrange(0, i as int);
            let cur = s@.subrange(0, i + 1);
            assert(cur.drop_last() =~= pre);
        }
        acc = acc * 10 + d;
        i = i + 1;
    }
    proof {
        assert(s@.subrange(0, s@.len() as int) =~= s@);
    }
    Some(acc)
}

/// The decimal digit string of a number, most significant digit first,
/// with no leading zeros (a single zero for 0).
pub open spec fn spec_u64_digits(n: int) -> Seq<u8>
    decreases n,
{
    if n < 10 {
        seq![(48 + if n >= 0 { n } else { 0 }) as u8]
    } else {
        spec_u64_digits(n / 10).push((48 + n % 10) as u8)
    }
}

/// Every digit byte the formatter emits is an ASCII digit.
pub proof fn lemma_u64_digits_ascii(n: int)
    ensures
        forall|j: int|
            0 <= j < spec_u64_digits(n).len() ==> 48 <= #[trigger] spec_u64_digits(n)[j] <= 57,
    decreases n,
{
    if n < 10 {
        assert(spec_u64_digits(n).len() == 1);
    } else {
        lemma_u64_digits_ascii(n / 10);
        let pre = spec_u64_digits(n / 10);
        assert forall|j: int| 0 <= j < spec_u64_digits(n).len() implies 48
            <= #[trigger] spec_u64_digits(n)[j] <= 57 by {
            if j < pre.len() {
                assert(spec_u64_digits(n)[j] == pre[j]);
            } else {
                assert(spec_u64_digits(n)[j] == (48 + n % 10) as u8);
            }
        }
    }
}

/// Render a number as its decimal digit string.
pub fn format_u64(n: u64) -> (r: Vec<u8>)
    ensures
        r@ == spec_u64_digits(n as int),
{
    let mut rev: Vec<u8> = Vec::new();
    let mut cur: u64 = n;
    while cur >= 10
        invariant
            spec_u64_digits(n as int) == spec_u64_digits(cur as int) + rev@.reverse(),
        decreases cur,
    {
        let d = (cur % 10) as u8;
        let ghost prev = cur;
        rev.push(48 + d);
        cur = cur / 10;
        proof {
            assert(cur < prev) by (nonlinear_arith)
                requires
                    prev >= 10,
                    cur == prev / 10,
            {}
            assert(spec_u64_digits(prev as int) == spec_u64_digits(cur as int).push(
                (48 + prev as int % 10) as u8,
            ));
            assert(spec_u64_digits(cur as int) + rev@.reverse() =~= spec_u64_digits(
                cur as int,
            ).push((48 + prev as int % 10) as u8) + rev@.drop_last().reverse());
        }
    }
    let mut r: Vec<u8> = Vec::new();
    r.push(48 + (cur % 10) as u8);
    proof {
        assert(spec_u64_digits(cur as int) =~= seq![(48 + cur as int) as u8]);
        assert(r@ =~= spec_u64_digits(cur as int));
    }
    let mut i: usize = rev.len();
    while i > 0
        invariant
            i <= rev@.len(),
            r@ == spec_u64_digits(cur as int) + rev@.reverse().subrange(
                0,
                rev@.len() - i,
            ),
        decreases i,
    {
        i = i - 1;
        r.push(rev[i]);
        proof {
            assert(rev@.reverse()[rev@.len() - i - 1] == rev@[i as int]);
            assert(r@ =~= spec_u64_digits(cur as int) + rev@.reverse().subrange(
                0,
                rev@.len() - i,
            ));
        }
    }
    proof {
        assert(rev@.reverse().subrange(0, rev@.len() as int) =~= rev@.reverse());
    }
    r
}

/// ASCII whitespace: space, tab, newline, carriage return.
pub open spec fn spec_is_ws(b: u8) -> bool {
    b == 32 || b == 9 || b == 10 || b == 13
}

/// First whitespace offset in `s`, or -1.
pub open spec fn spec_find_ws(s: Seq<u8>) -> int
    decreases s.len(),
{
    if s.len() == 0 {
        -1
    } else if spec_is_ws(s[0]) {
        0
    } else {
        let rest = spec_find_ws(s.subrange(1, s.len() as int));
        if rest < 0 {
            -1
        } else {
            rest + 1
        }
    }
}

/// `spec_find_ws` stays in bounds, lands on whitespace, and is the
/// first such offset.
pub proof fn lemma_find_ws(s: Seq<u8>)
    ensures
        spec_find_ws(s) >= 0 ==> spec_find_ws(s) < s.len() && spec_is_ws(s[spec_find_ws(s)]),
        spec_find_ws(s) < 0 ==> forall|j: int| 0 <= j < s.len() ==> !spec_is_ws(#[trigger] s[j]),
        forall|j: int| 0 <= j < spec_find_ws(s) ==> !spec_is_ws(#[trigger] s[j]),
    decreases s.len(),
{
    if s.len() > 0 {
        let rest = s.subrange(1, s.len() as int);
        lemma_find_ws(rest);
        assert forall|j: int| 1 <= j < s.len() implies s[j] == rest[j - 1] by {}
    }
}

/// If the bytes before `upto` are not whitespace and `upto` (when in
/// range) is, then `upto` is the first whitespace; a full miss finds none.
pub proof fn lemma_find_ws_prefix(s: Seq<u8>, upto: int)
    requires
        0 <= upto <= s.len(),
        forall|j: int| 0 <= j < upto ==> !spec_is_ws(#[trigger] s[j]),
    ensures
        upto < s.len() && spec_is_ws(s[upto]) ==> spec_find_ws(s) == upto,
        upto == s.len() ==> spec_find_ws(s) < 0,
    decreases s.len(),
{
    if s.len() > 0 && upto > 0 {
        let rest = s.subrange(1, s.len() as int);
        assert forall|j: int| 0 <= j < upto - 1 implies !spec_is_ws(#[trigger] rest[j]) by {
            assert(rest[j] == s[j + 1]);
        }
        lemma_find_ws_prefix(rest, upto - 1);
        if upto < s.len() {
            assert(rest[upto - 1] == s[upto]);
        }
    }
}

/// The whitespace-separated tokens of a byte text: runs of whitespace
/// collapse, and leading or trailing whitespace yields no empty token.
pub open spec fn spec_split_ws(s: Seq<u8>) -> Seq<Seq<u8>>
    decreases s.len(),
    via spec_split_ws_decreases
{
    if s.len() == 0 {
        Seq::empty()
    } else if spec_is_ws(s[0]) {
        spec_split_ws(s.subrange(1, s.len() as int))
    } else {
        let k = spec_find_ws(s);
        if k < 0 {
            seq![s]
        } else {
            seq![s.subrange(0, k)] + spec_split_ws(s.subrange(k, s.len() as int))
        }
    }
}

#[via_fn]
proof fn spec_split_ws_decreases(s: Seq<u8>) {
    lemma_find_ws(s);
    if s.len() > 0 && !spec_is_ws(s[0]) {
        let k = spec_find_ws(s);
        if k >= 0 {
            assert(k >= 1);
        }
    }
}

/// Split a byte text into whitespace-separated tokens.
pub fn split_ws(s: &[u8]) -> (r: Vec<Vec<u8>>)
    ensures
        r@.len() == spec_split_ws(s@).len(),
        forall|j: int| 0 <= j < r@.len() ==> (#[trigger] r@[j])@ == spec_split_ws(s@)[j],
{
    let mut done: Vec<Vec<u8>> = Vec::new();
    let ghost mut acc: Seq<Seq<u8>> = Seq::empty();
    let mut i: usize = 0;
    proof {
        assert(s@.subrange(0, s@.len() as int) =~= s@);
        assert(acc + spec_split_ws(s@) =~= spec_split_ws(s@));
    }
    while i < s.len()
        invariant
            i <= s@.len(),
            done@.len() == acc.len(),
            forall|j: int| 0 <= j < acc.len() ==> (#[trigger] done@[j])@ == acc[j],
            spec_split_ws(s@) == acc + spec_split_ws(s@.subrange(i as int, s@.len() as int)),
        decreases s@.len() - i,
    {
        let b = s[i];
        if b == 32 || b == 9 || b == 10 || b == 13 {
            proof {
                let rem = s@.subrange(i as int, s@.len() as int);
                assert(spec_is_ws(rem[0]));
                assert(rem.subrange(1, rem.len() as int) =~= s@.subrange(
                    i + 1,
                    s@.len() as int,
                ));
            }
            i = i + 1;
        } else {
            // scan the token
            let start = i;
            let mut j: usize = i;
            while j < s.len() && !is_ws_byte(s[j])
                invariant
                    start <= j <= s@.len(),
                    forall|k: int| start <= k < j ==> !spec_is_ws(#[trigger] s@[k]),
                decreases s@.len() - j,
            {
                j = j + 1;
            }
            let ghost rem = s@.subrange(start as int, s@.len() as int);
            proof {
                assert forall|k: int| 0 <= k < j - start implies !spec_is_ws(
                    #[trigger] rem[k],
                ) by {
                    assert(rem[k] == s@[start + k]);
                }
                if j < s.len() {
                    assert(rem[j - start] == s@[j as int]);
                    lemma_find_ws_prefix(rem, j - start);
                } else {
                    lemma_find_ws_prefix(rem, rem.len() as int);
                }
                assert(rem.subrange(0, j - start) =~= s@.subrange(start as int, j as int));
                if j < s.len() {
                    assert(rem.subrange(j - start, rem.len() as int) =~= s@.subrange(
                        j as int,
                        s@.len() as int,
                    ));
                }
            }
            let piece = slice_to_vec_u8(&s[start..j]);
            done.push(piece);
            proof {
                acc = acc.push(s@.subrange(start as int, j as int));
                if j < s.len() {
                    assert(spec_split_ws(s@) =~= acc + spec_split_ws(
                        s@.subrange(j as int, s@.len() as int),
                    ));
                } else {
                    assert(spec_split_ws(rem) =~= seq![rem]);
                    assert(s@.subrange(j as int, s@.len() as int).len() == 0);
                    assert(spec_split_ws(s@) =~= acc + spec_split_ws(
                        s@.subrange(j as int, s@.len() as int),
                    ));
                }
            }
            i = j;
        }
    }
    proof {
        assert(s@.subrange(i as int, s@.len() as int).len() == 0);
        assert(spec_split_ws(s@) =~= acc);
    }
    done
}

/// ASCII whitespace test for one byte.
pub fn is_ws_byte(b: u8) -> (r: bool)
    ensures
        r == spec_is_ws(b),
{
    b == 32 || b == 9 || b == 10 || b == 13
}

/// Leading and trailing ASCII whitespace dropped.
pub open spec fn spec_trim(s: Seq<u8>) -> Seq<u8>
    decreases s.len(),
{
    if s.len() == 0 {
        s
    } else if spec_is_ws(s[0]) {
        spec_trim(s.subrange(1, s.len() as int))
    } else if spec_is_ws(s.last()) {
        spec_trim(s.subrange(0, s.len() - 1))
    } else {
        s
    }
}

/// Trim ASCII whitespace from both ends.
pub fn trim_bytes(s: &[u8]) -> (r: Vec<u8>)
    ensures
        r@ == spec_trim(s@),
{
    let mut lo: usize = 0;
    let mut hi: usize = s.len();
    proof {
        assert(s@.subrange(0, s@.len() as int) =~= s@);
    }
    while lo < hi && is_ws_byte(s[lo])
        invariant
            lo <= hi <= s@.len(),
            spec_trim(s@) == spec_trim(s@.subrange(lo as int, hi as int)),
        decreases hi - lo,
    {
        proof {
            let cur = s@.subrange(lo as int, hi as int);
            assert(cur.subrange(1, cur.len() as int) =~= s@.subrange(lo + 1, hi as int));
        }
        lo = lo + 1;
    }
    while hi > lo && is_ws_byte(s[hi - 1])
        invariant
            lo <= hi <= s@.len(),
            lo < hi ==> !spec_is_ws(s@[lo as int]),
            spec_trim(s@) == spec_trim(s@.subrange(lo as int, hi as int)),
        decreases hi,
    {
        proof {
            let cur = s@.subrange(lo as int, hi as int);
            assert(cur[0] == s@[lo as int]);
            assert(cur.last() == s@[hi - 1]);
            assert(cur.subrange(0, cur.len() - 1) =~= s@.subrange(lo as int, hi - 1));
        }
        hi = hi - 1;
    }
    let r = slice_to_vec_u8(&s[lo..hi]);
    proof {
        let cur = s@.subrange(lo as int, hi as int);
        if cur.len() > 0 {
            assert(cur[0] == s@[lo as int]);
            assert(cur.last() == s@[hi - 1]);
        }
        assert(spec_trim(cur) == cur);
    }
    r
}

/// Byte equality against an ASCII literal.
pub fn eq_ascii(h: &[u8], lit: &str) -> (r: bool)
    requires
        vstd::string::is_ascii(lit),
    ensures
        r == (h@ == lit@.map(|_i: int, c: char| c as u8)),
{
    let n = lit.as_bytes();
    proof {
        broadcast use vstd::string::is_ascii_spec_bytes;

        assert(n@ =~= lit@.map(|_i: int, c: char| c as u8));
    }
    bytes_eq(h, n)
}

/// Substring search against an ASCII literal needle.
pub fn contains_ascii(h: &[u8], lit: &str) -> (r: bool)
    requires
        vstd::string::is_ascii(lit),
    ensures
        r == spec_contains(h@, lit@.map(|_i: int, c: char| c as u8)),
{
    let n = lit.as_bytes();
    proof {
        broadcast use vstd::string::is_ascii_spec_bytes;

        assert(n@ =~= lit@.map(|_i: int, c: char| c as u8));
    }
    bytes_contains(h, n)
}

/// Every byte is ASCII.
pub open spec fn spec_all_ascii(v: Seq<u8>) -> bool {
    forall|j: int| 0 <= j < v.len() ==> #[trigger] v[j] < 128
}

/// The characters an ASCII byte sequence stands for.
pub open spec fn spec_chars_of(v: Seq<u8>) -> Seq<char> {
    v.map(|_i: int, b: u8| b as char)
}

/// ASCII bytes are valid UTF-8 and decode to their own characters.
pub proof fn lemma_ascii_decode(v: Seq<u8>)
    requires
        spec_all_ascii(v),
    ensures
        vstd::utf8::valid_utf8(v),
        vstd::utf8::decode_utf8(v) == spec_chars_of(v),
{
    let chars = spec_chars_of(v);
    assert(vstd::utf8::is_ascii_chars(chars)) by {
        assert forall|i: int| 0 <= i < chars.len() implies '\0' <= #[trigger] chars[i]
            <= '\u{7f}' by {
            assert(chars[i] == v[i] as char);
        }
    }
    vstd::utf8::is_ascii_chars_encode_utf8(chars);
    assert(vstd::utf8::encode_utf8(chars) =~= v);
    vstd::utf8::encode_utf8_valid_utf8(chars);
    vstd::utf8::encode_utf8_decode_utf8(chars);
}

/// Relies on `String::from_utf8_lossy`: a valid UTF-8 input is decoded
/// unchanged (invalid sequences would be replaced, which the contract
/// does not describe).
#[verifier::external_body]
pub fn bytes_to_string(v: &[u8]) -> (r: String)
    ensures
        vstd::utf8::valid_utf8(v@) ==> r@ == vstd::utf8::decode_utf8(v@),
{
    String::from_utf8_lossy(v).into_owned()
}

/// Decode ASCII bytes into the string of the same characters.
pub fn ascii_str(v: &[u8]) -> (r: String)
    ensures
        spec_all_ascii(v@) ==> r@ == spec_chars_of(v@),
{
    proof {
        if spec_all_ascii(v@) {
            lemma_ascii_decode(v@);
        }
    }
    bytes_to_string(v)
}

/// Every occurrence of a non-empty pattern replaced, scanning left to
/// right without rescanning replacements.
pub open spec fn spec_replace(s: Seq<u8>, from: Seq<u8>, to: Seq<u8>) -> Seq<u8>
    decreases s.len(),
{
    if s.len() == 0 {
        s
    } else if from.len() > 0 && spec_starts_with(s, from) {
        to + spec_replace(s.subrange(from.len() as int, s.len() as int), from, to)
    } else {
        seq![s[0]] + spec_replace(s.subrange(1, s.len() as int), from, to)
    }
}

/// Replace every occurrence of a non-empty pattern.
#[verifier::loop_isolation(false)]
pub fn replace_bytes(s: &[u8], from: &[u8], to: &[u8]) -> (r: Vec<u8>)
    requires
        from@.len() > 0,
    ensures
        r@ == spec_replace(s@, from@, to@),
{
    let mut done: Vec<u8> = Vec::new();
    let mut i: usize = 0;
    proof {
        assert(s@.subrange(0, s@.len() as int) =~= s@);
        assert(done@ + spec_replace(s@, from@, to@) =~= spec_replace(s@, from@, to@));
    }
    while i < s.len()
        invariant
            i <= s@.len(),
            spec_replace(s@, from@, to@) == done@ + spec_replace(
                s@.subrange(i as int, s@.len() as int),
                from@,
                to@,
            ),
        decreases s@.len() - i,
    {
        let ghost rem = s@.subrange(i as int, s@.len() as int);
        if from.len() <= s.len() - i && bytes_eq(&s[i..i + from.len()], from) {
            proof {
                assert(rem.subrange(0, from@.len() as int) =~= s@.subrange(
                    i as int,
                    i + from@.len(),
                ));
                assert(spec_starts_with(rem, from@));
                assert(rem.subrange(from@.len() as int, rem.len() as int) =~= s@.subrange(
                    i + from@.len(),
                    s@.len() as int,
                ));
            }
            let mut k: usize = 0;
            while k < to.len()
                invariant
                    k <= to@.len(),
                    done@ == old_done_plus(spec_replace(s@, from@, to@), rem, from@, to@)
                        + to@.subrange(0, k as int),
                decreases to@.len() - k,
            {
                done.push(to[k]);
                proof {
                    assert(done@ =~= old_done_plus(spec_replace(s@, from@, to@), rem, from@, to@)
                        + to@.subrange(0, k + 1));
                }
                k = k + 1;
            }
            proof {
                assert(to@.subrange(0, to@.len() as int) =~= to@);
                assert(done@ + spec_replace(
                    s@.subrange(i + from@.len(), s@.len() as int),
                    from@,
                    to@,
                ) =~= spec_replace(s@, from@, to@));
            }
            i = i + from.len();
        } else {
            proof {
                if from@.len() <= rem.len() {
                    assert(rem.subrange(0, from@.len() as int) =~= s@.subrange(
                        i as int,
                        i + from@.len(),
                    ));
                }
                assert(!spec_starts_with(rem, from@));
                assert(rem[0] == s@[i as int]);
                assert(rem.subrange(1, rem.len() as int) =~= s@.subrange(
                    i + 1,
                    s@.len() as int,
                ));
            }
            done.push(s[i]);
            proof {
                assert(done@ + spec_replace(s@.subrange(i + 1, s@.len() as int), from@, to@)
                    =~= spec_replace(s@, from@, to@));
            }
            i = i + 1;
        }
    }
    proof {
        assert(s@.subrange(s@.len() as int, s@.len() as int).len() == 0);
        assert(done@ =~= spec_replace(s@, from@, to@));
    }
    done
}

/// What the output held before the current replacement was appended.
pub open spec fn old_done_plus(
    whole: Seq<u8>,
    rem: Seq<u8>,
    from: Seq<u8>,
    to: Seq<u8>,
) -> Seq<u8> {
    whole.subrange(0, whole.len() - (to + spec_replace(
        rem.subrange(from.len() as int, rem.len() as int),
        from,
        to,
    )).len())
}

/// The pieces joined with a separator between each pair.
pub open spec fn spec_join(parts: Seq<Seq<u8>>, sep: Seq<u8>) -> Seq<u8>
    decreases parts.len(),
{
    if parts.len() == 0 {
        Seq::empty()
    } else if parts.len() == 1 {
        parts[0]
    } else {
        parts[0] + sep + spec_join(parts.drop_first(), sep)
    }
}

/// A separator followed by each remaining piece.
pub open spec fn spec_tail_join(parts: Seq<Seq<u8>>, sep: Seq<u8>) -> Seq<u8>
    decreases parts.len(),
{
    if parts.len() == 0 {
        Seq::empty()
    } else {
        sep + parts[0] + spec_tail_join(parts.drop_first(), sep)
    }
}

/// A join is its head followed by the tail join.
pub proof fn lemma_join_head(parts: Seq<Seq<u8>>, sep: Seq<u8>)
    requires
        parts.len() >= 1,
    ensures
        spec_join(parts, sep) == parts[0] + spec_tail_join(parts.drop_first(), sep),
    decreases parts.len(),
{
    if parts.len() == 1 {
        assert(spec_tail_join(parts.drop_first(), sep) =~= Seq::empty());
        assert(parts[0] + Seq::empty() =~= parts[0]);
    } else {
        lemma_join_head(parts.drop_first(), sep);
        assert(parts[0] + sep + spec_join(parts.drop_first(), sep) =~= parts[0] + (sep
            + parts.drop_first()[0] + spec_tail_join(parts.drop_first().drop_first(), sep)));
        assert(spec_tail_join(parts.drop_first(), sep) == sep + parts.drop_first()[0]
            + spec_tail_join(parts.drop_first().drop_first(), sep));
        assert(parts[0] + spec_tail_join(parts.drop_first(), sep) =~= parts[0] + (sep
            + parts.drop_first()[0] + spec_tail_join(parts.drop_first().drop_first(), sep)));
    }
}

/// Append a slice to a byte vector.
pub fn append_bytes(r: &mut Vec<u8>, s: &[u8])
    ensures
        final(r)@ == old(r)@ + s@,
{
    let mut k: usize = 0;
    while k < s.len()
        invariant
            k <= s@.len(),
            r@ == old(r)@ + s@.subrange(0, k as int),
        decreases s@.len() - k,
    {
        r.push(s[k]);
        proof {
            assert(r@ =~= old(r)@ + s@.subrange(0, k + 1));
        }
        k = k + 1;
    }
    proof {
        assert(r@ =~= old(r)@ + s@);
    }
}

/// Join byte pieces with a separator.
#[verifier::loop_isolation(false)]
pub fn join_bytes(parts: &Vec<Vec<u8>>, sep: &[u8]) -> (r: Vec<u8>)
    ensures
        r@ == spec_join(Seq::new(parts@.len(), |j: int| parts@[j]@), sep@),
{
    let ghost pv = Seq::new(parts@.len(), |j: int| parts@[j]@);
    let mut r: Vec<u8> = Vec::new();
    if parts.len() == 0 {
        proof {
            assert(r@ =~= spec_join(pv, sep@));
        }
        return r;
    }
    append_bytes(&mut r, parts[0].as_slice());
    proof {
        lemma_join_head(pv, sep@);
        assert(Seq::<u8>::empty() + pv[0] =~= pv[0]);
        assert(pv.subrange(1, pv.len() as int) =~= pv.drop_first());
    }
    let mut i: usize = 1;
    while i < parts.len()
        invariant
            1 <= i <= pv.len(),
            spec_join(pv, sep@) == r@ + spec_tail_join(
                pv.subrange(i as int, pv.len() as int),
                sep@,
            ),
        decreases pv.len() - i,
    {
        let ghost rem = pv.subrange(i as int, pv.len() as int);
        proof {
            assert(rem[0] == pv[i as int]);
            assert(rem.drop_first() =~= pv.subrange(i + 1, pv.len() as int));
        }
        append_bytes(&mut r, sep);
        append_bytes(&mut r, parts[i].as_slice());
        proof {
            assert(spec_tail_join(rem, sep@) == sep@ + pv[i as int] + spec_tail_join(
                pv.subrange(i + 1, pv.len() as int),
                sep@,
            ));
            assert(r@ + spec_tail_join(pv.subrange(i + 1, pv.len() as int), sep@) =~= spec_join(
                pv,
                sep@,
            ));
        }
        i = i + 1;
    }
    proof {
        assert(spec_tail_join(pv.subrange(pv.len() as int, pv.len() as int), sep@)
            =~= Seq::empty());
        assert(r@ + Seq::<u8>::empty() =~= r@);
    }
    r
}

/// Append one string, tracked at the deep-view level.
pub fn push_string(v: &mut Vec<String>, s: String)
    ensures
        final(v).deep_view() == old(v).deep_view().push(s@),
{
    let ghost sv = s@;
    v.push(s);
    proof {
        assert forall|j: int| 0 <= j < v@.len() implies #[trigger] v.deep_view()[j] == old(
            v,
        ).deep_view().push(sv)[j] by {
            assert(v.deep_view()[j] == v@[j]@);
            if j < v@.len() - 1 {
                assert(v@[j] == old(v)@[j]);
                assert(old(v).deep_view()[j] == old(v)@[j]@);
            }
        }
        assert(v.deep_view() =~= old(v).deep_view().push(sv));
    }
}

/// Copy of a byte slice as a vector.
pub fn slice_to_vec_u8(s: &[u8]) -> (r: Vec<u8>)
    ensures
        r@ == s@,
{
    let mut r: Vec<u8> = Vec::new();
    let mut i: usize = 0;
    while i < s.len()
        invariant
            i <= s@.len(),
            r@ =~= s@.subrange(0, i as int),
        decreases s@.len() - i,
    {
        r.push(s[i]);
        i = i + 1;
    }
    proof {
        assert(r@ =~= s@);
    }
    r
}

} // verus!

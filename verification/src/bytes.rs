//! Byte-string scanning helpers shared by the log-line parsers: substring
//! search, segment comparison, and decimal-number parsing, each with an exact
//! specification over the byte sequence.

use vstd::prelude::*;

verus! {

/// The first index at or after `from` where `b` occurs in `s`; `s.len()` when
/// `b` does not occur there.
pub open spec fn find_byte_at(s: Seq<u8>, b: u8, from: int) -> int
    decreases s.len() - from,
{
    if from < 0 || from >= s.len() {
        s.len() as int
    } else if s[from] == b {
        from
    } else {
        find_byte_at(s, b, from + 1)
    }
}

/// The first index at or after `from` where the two-byte pattern `": "`
/// starts in `s`; `s.len()` when it does not occur there.
pub open spec fn find_colon_space_at(s: Seq<u8>, from: int) -> int
    decreases s.len() - from,
{
    if from < 0 || from + 2 > s.len() {
        s.len() as int
    } else if s[from] == (':' as u8) && s[from + 1] == (' ' as u8) {
        from
    } else {
        find_colon_space_at(s, from + 1)
    }
}

/// The index just past the last occurrence of `b` strictly before `end`;
/// `0` when `b` does not occur there. This is where the trailing segment
/// delimited by `b` starts.
pub open spec fn segment_start(s: Seq<u8>, b: u8, end: int) -> int
    decreases end,
{
    if end <= 0 {
        0
    } else if s[end - 1] == b {
        end
    } else {
        segment_start(s, b, end - 1)
    }
}

/// A trailing segment starts no earlier than zero and no later than `end`.
pub proof fn lemma_segment_start_bounds(s: Seq<u8>, b: u8, end: int)
    ensures
        0 <= segment_start(s, b, end),
        end >= 0 ==> segment_start(s, b, end) <= end,
    decreases end,
{
    if end > 0 && s[end - 1] != b {
        lemma_segment_start_bounds(s, b, end - 1);
    }
}

/// Whether `b` is an ASCII decimal digit.
pub open spec fn is_digit(b: u8) -> bool {
    ('0' as u8) <= b <= ('9' as u8)
}

/// The numeric value of the digit `b`.
pub open spec fn digit_val(b: u8) -> int {
    b - ('0' as u8)
}

/// Whether every byte of `s` is a decimal digit.
pub open spec fn all_digits(s: Seq<u8>) -> bool {
    forall|i: int| 0 <= i < s.len() ==> is_digit(#[trigger] s[i])
}

/// The number the digit string `s` denotes, most significant digit first.
pub open spec fn digits_val(s: Seq<u8>) -> int
    decreases s.len(),
{
    if s.len() == 0 {
        0
    } else {
        digits_val(s.drop_last()) * 10 + digit_val(s.last())
    }
}

/// What `u32::from_str` yields on `s`: an optional leading `+`, then at least
/// one digit, denoting a value that fits in 32 bits.
pub open spec fn parse_u32(s: Seq<u8>) -> Option<u32> {
    let body = if s.len() > 0 && s[0] == ('+' as u8) {
        s.subrange(1, s.len() as int)
    } else {
        s
    };
    if body.len() > 0 && all_digits(body) && digits_val(body) <= u32::MAX {
        Some(digits_val(body) as u32)
    } else {
        None
    }
}

/// What `i32::from_str` yields on a short digit string: an optional sign,
/// then at least one digit. (Callers only pass strings too short to overflow.)
pub open spec fn parse_signed(s: Seq<u8>) -> Option<int> {
    if s.len() > 0 && (s[0] == ('+' as u8) || s[0] == ('-' as u8)) {
        let body = s.subrange(1, s.len() as int);
        if body.len() > 0 && all_digits(body) {
            Some(
                if s[0] == ('-' as u8) {
                    -digits_val(body)
                } else {
                    digits_val(body)
                },
            )
        } else {
            None
        }
    } else if s.len() > 0 && all_digits(s) {
        Some(digits_val(s))
    } else {
        None
    }
}

/// A digit string denotes a nonnegative number.
pub proof fn lemma_digits_val_nonneg(s: Seq<u8>)
    requires
        all_digits(s),
    ensures
        digits_val(s) >= 0,
    decreases s.len(),
{
    if s.len() > 0 {
        assert(all_digits(s.drop_last())) by {
            assert(forall|i: int|
                0 <= i < s.len() - 1 ==> s.drop_last()[i] == #[trigger] s[i]);
        }
        lemma_digits_val_nonneg(s.drop_last());
    }
}

/// A digit string denotes at least as much as any of its prefixes.
pub proof fn lemma_digits_val_prefix_le(s: Seq<u8>, k: int)
    requires
        all_digits(s),
        0 <= k <= s.len(),
    ensures
        digits_val(s.subrange(0, k)) <= digits_val(s),
    decreases s.len() - k,
{
    if k < s.len() {
        let p = s.subrange(0, k + 1);
        assert(p.drop_last() =~= s.subrange(0, k));
        assert(all_digits(p.drop_last()));
        lemma_digits_val_nonneg(p.drop_last());
        assert(digits_val(p) == digits_val(s.subrange(0, k)) * 10 + digit_val(s[k]));
        assert(digits_val(s.subrange(0, k)) <= digits_val(p));
        assert(s.subrange(0, s.len() as int) =~= s);
        lemma_digits_val_prefix_le(s, k + 1);
    } else {
        assert(s.subrange(0, k) =~= s);
    }
}

/// Whether the segment of `s` starting at `off` equals `tag`.
pub fn eq_at(s: &[u8], off: usize, tag: &[u8]) -> (r: bool)
    requires
        off + tag@.len() <= s@.len(),
    ensures
        r == (s@.subrange(off as int, off + tag@.len()) == tag@),
{
    let n = tag.len();
    let m = s.len();
    let mut i: usize = 0;
    while i < n
        invariant
            n == tag@.len(),
            m == s@.len(),
            off + n <= m,
            0 <= i <= n,
            forall|j: int| 0 <= j < i ==> s@[off + j] == #[trigger] tag@[j],
        decreases n - i,
    {
        if s[off + i] != tag[i] {
            assert(s@.subrange(off as int, off + tag@.len())[i as int] != tag@[i as int]);
            return false;
        }
        i = i + 1;
    }
    assert(s@.subrange(off as int, off + tag@.len()) =~= tag@);
    true
}

/// The first index at or after `from` where `b` occurs in `s`, or `s.len()`.
pub fn find_byte(s: &[u8], b: u8, from: usize) -> (r: usize)
    requires
        from <= s@.len(),
    ensures
        r == find_byte_at(s@, b, from as int),
        from <= r <= s@.len(),
        r < s@.len() ==> s@[r as int] == b,
{
    let mut i: usize = from;
    while i < s.len()
        invariant
            from <= i <= s@.len(),
            find_byte_at(s@, b, from as int) == find_byte_at(s@, b, i as int),
        decreases s@.len() - i,
    {
        if s[i] == b {
            return i;
        }
        i = i + 1;
    }
    s.len()
}

/// The first index at or after `from` where `": "` starts in `s`, or `s.len()`.
pub fn find_colon_space(s: &[u8], from: usize) -> (r: usize)
    requires
        from <= s@.len(),
    ensures
        r == find_colon_space_at(s@, from as int),
        from <= r <= s@.len(),
        r + 2 <= s@.len() || r == s@.len(),
        r + 2 <= s@.len() ==> s@[r as int] == (':' as u8) && s@[r + 1] == (' ' as u8),
{
    let m = s.len();
    let mut i: usize = from;
    while i < m && i + 1 < m
        invariant
            m == s@.len(),
            from <= i <= m,
            find_colon_space_at(s@, from as int) == find_colon_space_at(s@, i as int),
        decreases m - i,
    {
        if s[i] == (':' as u8) && s[i + 1] == (' ' as u8) {
            return i;
        }
        i = i + 1;
    }
    assert(find_colon_space_at(s@, i as int) == s@.len());
    s.len()
}

/// The start of the trailing segment of `s[..end]` delimited by `b`.
pub fn find_segment_start(s: &[u8], b: u8, end: usize) -> (r: usize)
    requires
        end <= s@.len(),
    ensures
        r == segment_start(s@, b, end as int),
        r <= end,
        r > 0 ==> s@[r - 1] == b,
{
    let mut i: usize = end;
    while i > 0
        invariant
            i <= end <= s@.len(),
            segment_start(s@, b, end as int) == segment_start(s@, b, i as int),
        decreases i,
    {
        if s[i - 1] == b {
            return i;
        }
        i = i - 1;
    }
    0
}

/// Copy the segment `s[i..j]` into an owned vector.
pub fn segment_to_vec(s: &[u8], i: usize, j: usize) -> (r: Vec<u8>)
    requires
        i <= j <= s@.len(),
    ensures
        r@ == s@.subrange(i as int, j as int),
{
    vstd::slice::slice_to_vec(&s[i..j])
}

/// What `u32::from_str` yields on the segment `s[i..j]`.
pub fn parse_u32_exec(s: &[u8], i: usize, j: usize) -> (r: Option<u32>)
    requires
        i <= j <= s@.len(),
    ensures
        r == parse_u32(s@.subrange(i as int, j as int)),
{
    let ghost seg = s@.subrange(i as int, j as int);
    let start: usize = if j > i && s[i] == ('+' as u8) {
        i + 1
    } else {
        i
    };
    let ghost body = s@.subrange(start as int, j as int);
    proof {
        if j > i && s@[i as int] == ('+' as u8) {
            assert(body =~= seg.subrange(1, seg.len() as int));
        } else {
            assert(body =~= seg);
        }
    }
    if start == j {
        return None;
    }
    let mut acc: u64 = 0;
    let mut k: usize = start;
    while k < j
        invariant
            i <= start <= k <= j <= s@.len(),
            seg == s@.subrange(i as int, j as int),
            body == s@.subrange(start as int, j as int),
            body.len() == j - start > 0,
            parse_u32(seg) == (if all_digits(body) && digits_val(body) <= u32::MAX {
                Some(digits_val(body) as u32)
            } else {
                None::<u32>
            }),
            all_digits(body.subrange(0, k - start)),
            acc == digits_val(body.subrange(0, k - start)),
            acc <= u32::MAX,
        decreases j - k,
    {
        let c = s[k];
        if c < ('0' as u8) || c > ('9' as u8) {
            assert(!is_digit(body[k - start]));
            return None;
        }
        let ghost pre = body.subrange(0, k - start);
        let ghost pre1 = body.subrange(0, k + 1 - start);
        proof {
            assert(pre1.drop_last() =~= pre);
            assert(pre1.last() == body[k - start] == s@[k as int]);
        }
        let next: u64 = acc * 10 + ((c - ('0' as u8)) as u64);
        if next > 0xffff_ffff {
            proof {
                if all_digits(body) {
                    lemma_digits_val_prefix_le(body, k + 1 - start);
                    assert(body.subrange(0, body.len() as int) =~= body);
                }
            }
            return None;
        }
        acc = next;
        k = k + 1;
    }
    assert(body.subrange(0, j - start) =~= body);
    Some(acc as u32)
}


/// The lexicographic ordering of two byte strings, byte by byte, a proper
/// prefix ordering before its extensions: how `str` and `[u8]` order.
pub open spec fn bytes_cmp(a: Seq<u8>, b: Seq<u8>) -> core::cmp::Ordering
    decreases a.len(),
{
    if a.len() == 0 && b.len() == 0 {
        core::cmp::Ordering::Equal
    } else if a.len() == 0 {
        core::cmp::Ordering::Less
    } else if b.len() == 0 {
        core::cmp::Ordering::Greater
    } else if a[0] < b[0] {
        core::cmp::Ordering::Less
    } else if a[0] > b[0] {
        core::cmp::Ordering::Greater
    } else {
        bytes_cmp(a.drop_first(), b.drop_first())
    }
}

/// Compare two byte strings lexicographically.
pub fn compare_bytes(a: &[u8], b: &[u8]) -> (r: core::cmp::Ordering)
    ensures
        r == bytes_cmp(a@, b@),
{
    proof {
        assert(a@.skip(0) =~= a@);
        assert(b@.skip(0) =~= b@);
    }
    let mut i: usize = 0;
    while i < a.len() && i < b.len()
        invariant
            i <= a@.len() && i <= b@.len(),
            bytes_cmp(a@, b@) == bytes_cmp(a@.skip(i as int), b@.skip(i as int)),
        decreases a@.len() - i,
    {
        proof {
            assert(a@.skip(i as int).drop_first() =~= a@.skip(i + 1));
            assert(b@.skip(i as int).drop_first() =~= b@.skip(i + 1));
        }
        if a[i] < b[i] {
            return core::cmp::Ordering::Less;
        }
        if a[i] > b[i] {
            return core::cmp::Ordering::Greater;
        }
        i = i + 1;
    }
    if a.len() == b.len() {
        core::cmp::Ordering::Equal
    } else if a.len() < b.len() {
        core::cmp::Ordering::Less
    } else {
        core::cmp::Ordering::Greater
    }
}

} // verus!

//! The process-list parser: finding a process id by title id in the text
//! dump the server sends.
//!
//! Each record of the dump holds the substrings `pid: 0x` followed by eight
//! hex digits, then `, pname:` followed by the process name (which holds no
//! comma), then `, tid: ` followed by sixteen hex digits of the title id.
//! [`find_pid`] scans for the leftmost record whose title id equals the
//! queried one — hex compared case-insensitively — and returns its pid.

use crate::receiver::spec_match_at;
use vstd::prelude::*;

verus! {

/// ASCII code of the comma that ends the pname field.
pub const COMMA: u8 = 44;

/// `b` is an ASCII hex digit, of either case.
pub open spec fn spec_is_hex_digit(b: u8) -> bool {
    (48 <= b <= 57) || (97 <= b <= 102) || (65 <= b <= 70)
}

/// Numeric value of an ASCII hex digit.
pub open spec fn spec_hex_digit_value(b: u8) -> int
    recommends
        spec_is_hex_digit(b),
{
    if 48 <= b <= 57 {
        b - 48
    } else if 97 <= b <= 102 {
        b - 87
    } else {
        b - 55
    }
}

/// Lowercase image of an ASCII byte.
pub open spec fn spec_to_lower(b: u8) -> u8 {
    if 65 <= b <= 90 {
        (b + 32) as u8
    } else {
        b
    }
}

/// Lowercase ASCII hex digit for a value below 16.
pub open spec fn spec_hex_char(d: int) -> u8 {
    if d < 10 {
        (48 + d) as u8
    } else {
        (87 + d) as u8
    }
}

/// Value of a string of hex digits, most significant first.
pub open spec fn spec_hex_value(s: Seq<u8>) -> int
    decreases s.len(),
{
    if s.len() == 0 {
        0
    } else {
        spec_hex_value(s.drop_last()) * 16 + spec_hex_digit_value(s.last())
    }
}

/// Every byte of `s` is a hex digit.
pub open spec fn spec_all_hex(s: Seq<u8>) -> bool {
    forall|i: int| 0 <= i < s.len() ==> spec_is_hex_digit(s[i])
}

/// `16 ^ n`.
pub open spec fn spec_pow16(n: nat) -> int
    decreases n,
{
    if n == 0 {
        1
    } else {
        16 * spec_pow16((n - 1) as nat)
    }
}

pub proof fn lemma_hex_value_bound(s: Seq<u8>)
    requires
        spec_all_hex(s),
    ensures
        0 <= spec_hex_value(s) < spec_pow16(s.len()),
    decreases s.len(),
{
    if s.len() > 0 {
        assert(spec_all_hex(s.drop_last()));
        lemma_hex_value_bound(s.drop_last());
    }
}

/// Hex digit `j` (from the most significant, `j = 0`) of a title id.
pub open spec fn spec_tid_digit(tid: u64, j: int) -> int {
    ((tid >> (((15 - j) * 4) as u64)) & 0xf) as int
}

/// The sixteen lowercase hex digits of a title id, most significant first.
pub open spec fn spec_tid_hex(tid: u64) -> Seq<u8> {
    Seq::new(16, |j: int| spec_hex_char(spec_tid_digit(tid, j)))
}

/// The literal `pid: 0x`.
pub open spec fn spec_lit_pid() -> Seq<u8> {
    seq![112u8, 105u8, 100u8, 58u8, 32u8, 48u8, 120u8]
}

/// The literal `, pname:`.
pub open spec fn spec_lit_pname() -> Seq<u8> {
    seq![44u8, 32u8, 112u8, 110u8, 97u8, 109u8, 101u8, 58u8]
}

/// The literal `, tid: `.
pub open spec fn spec_lit_tid() -> Seq<u8> {
    seq![44u8, 32u8, 116u8, 105u8, 100u8, 58u8, 32u8]
}

/// A record for title id `tid` stands at index `i` of `msg`, with a pname
/// field of `k` bytes: `pid: 0x`, eight hex digits, `, pname:`, `k` bytes
/// none of which is a comma, `, tid: `, and the sixteen hex digits of `tid`,
/// compared case-insensitively.
pub open spec fn spec_record_at_with(msg: Seq<u8>, tid: u64, i: int, k: int) -> bool {
    &&& 0 <= i
    &&& 0 <= k
    &&& i + 46 + k <= msg.len()
    &&& spec_match_at(msg, spec_lit_pid(), i)
    &&& spec_all_hex(msg.subrange(i + 7, i + 15))
    &&& spec_match_at(msg, spec_lit_pname(), i + 15)
    &&& (forall|j: int| i + 23 <= j < i + 23 + k ==> msg[j] != COMMA)
    &&& spec_match_at(msg, spec_lit_tid(), i + 23 + k)
    &&& (forall|j: int|
        0 <= j < 16 ==> spec_to_lower(msg[i + 30 + k + j]) == spec_tid_hex(tid)[j])
}

/// A record for `tid` stands at index `i` of `msg`.
pub open spec fn spec_record_at(msg: Seq<u8>, tid: u64, i: int) -> bool {
    exists|k: int| spec_record_at_with(msg, tid, i, k)
}

/// The pid named by the record at index `i`: the value of its eight hex
/// digits. Eight hex digits always fit a `u32`.
pub open spec fn spec_pid_at(msg: Seq<u8>, i: int) -> int {
    spec_hex_value(msg.subrange(i + 7, i + 15))
}

/// Whether `b` is an ASCII hex digit.
pub fn is_hex_digit(b: u8) -> (r: bool)
    ensures
        r == spec_is_hex_digit(b),
{
    (48 <= b && b <= 57) || (97 <= b && b <= 102) || (65 <= b && b <= 70)
}

/// Numeric value of an ASCII hex digit.
pub fn hex_digit_value(b: u8) -> (r: u8)
    requires
        spec_is_hex_digit(b),
    ensures
        r as int == spec_hex_digit_value(b),
        r < 16,
{
    if b >= 97 {
        b - 87
    } else if b >= 65 {
        b - 55
    } else {
        b - 48
    }
}

/// Lowercase image of an ASCII byte.
pub fn to_lower(b: u8) -> (r: u8)
    ensures
        r == spec_to_lower(b),
{
    if 65 <= b && b <= 90 {
        b + 32
    } else {
        b
    }
}

/// The sixteen lowercase hex digits of a title id, most significant first.
pub fn tid_to_hex(tid: u64) -> (r: Vec<u8>)
    ensures
        r@ == spec_tid_hex(tid),
        r@.len() == 16,
{
    let mut v: Vec<u8> = Vec::new();
    let mut j: usize = 0;
    while j < 16
        invariant
            j <= 16,
            v@.len() == j,
            forall|m: int| 0 <= m < j ==> v@[m] == spec_tid_hex(tid)[m],
        decreases 16 - j,
    {
        let shift: u64 = ((15 - j) * 4) as u64;
        let d: u64 = (tid >> shift) & 0xf;
        proof {
            assert((tid >> shift) & 0xf < 16) by (bit_vector);
        }
        let ch: u8 = if d < 10 {
            (48 + d) as u8
        } else {
            (87 + d) as u8
        };
        v.push(ch);
        j = j + 1;
    }
    proof {
        assert(v@ =~= spec_tid_hex(tid));
    }
    v
}

/// Parses the eight hex digits at `start` as a `u32`.
fn parse_hex_u32(msg: &[u8], start: usize) -> (r: u32)
    requires
        start + 8 <= msg@.len(),
        spec_all_hex(msg@.subrange(start as int, start + 8)),
    ensures
        r == spec_hex_value(msg@.subrange(start as int, start + 8)),
{
    let n = msg.len();
    let mut acc: u32 = 0;
    let mut j: usize = 0;
    while j < 8
        invariant
            j <= 8,
            n == msg@.len(),
            start + 8 <= msg@.len(),
            spec_all_hex(msg@.subrange(start as int, start + 8)),
            acc == spec_hex_value(msg@.subrange(start as int, start + j)),
        decreases 8 - j,
    {
        let ghost pre = msg@.subrange(start as int, start + j);
        let ghost cur = msg@.subrange(start as int, start + j + 1);
        proof {
            assert(spec_all_hex(pre)) by {
                assert(forall|m: int|
                    0 <= m < pre.len() ==> #[trigger] pre[m] == msg@.subrange(start as int, start + 8)[m]);
            }
            lemma_hex_value_bound(pre);
            lemma_pow16_7();
            lemma_pow16_increases(j as nat, 7);
            assert(msg@.subrange(start as int, start + 8)[j as int] == msg@[start + j]);
        }
        let d = hex_digit_value(msg[start + j]);
        proof {
            assert(cur.drop_last() =~= pre);
            assert(cur.last() == msg@[start + j]);
        }
        acc = acc * 16 + (d as u32);
        j = j + 1;
    }
    acc
}

proof fn lemma_pow16_7()
    ensures
        spec_pow16(7) == 0x10000000,
{
    assert(spec_pow16(0) == 1);
    assert(spec_pow16(1) == 16);
    assert(spec_pow16(2) == 0x100);
    assert(spec_pow16(3) == 0x1000);
    assert(spec_pow16(4) == 0x10000);
    assert(spec_pow16(5) == 0x100000);
    assert(spec_pow16(6) == 0x1000000);
}

pub proof fn lemma_pow16_increases(m: nat, n: nat)
    requires
        m <= n,
    ensures
        spec_pow16(m) <= spec_pow16(n),
    decreases n,
{
    if m < n {
        lemma_pow16_increases(m, (n - 1) as nat);
        lemma_pow16_positive((n - 1) as nat);
    }
}

pub proof fn lemma_pow16_positive(n: nat)
    ensures
        spec_pow16(n) >= 1,
    decreases n,
{
    if n > 0 {
        lemma_pow16_positive((n - 1) as nat);
    }
}

/// The literal `pid: 0x` as a vector.
fn lit_pid_bytes() -> (r: Vec<u8>)
    ensures
        r@ == spec_lit_pid(),
{
    let mut m: Vec<u8> = Vec::new();
    m.push(112u8);
    m.push(105u8);
    m.push(100u8);
    m.push(58u8);
    m.push(32u8);
    m.push(48u8);
    m.push(120u8);
    proof {
        assert(m@ =~= spec_lit_pid());
    }
    m
}

/// The literal `, pname:` as a vector.
fn lit_pname_bytes() -> (r: Vec<u8>)
    ensures
        r@ == spec_lit_pname(),
{
    let mut m: Vec<u8> = Vec::new();
    m.push(44u8);
    m.push(32u8);
    m.push(112u8);
    m.push(110u8);
    m.push(97u8);
    m.push(109u8);
    m.push(101u8);
    m.push(58u8);
    proof {
        assert(m@ =~= spec_lit_pname());
    }
    m
}

/// The literal `, tid: ` as a vector.
fn lit_tid_bytes() -> (r: Vec<u8>)
    ensures
        r@ == spec_lit_tid(),
{
    let mut m: Vec<u8> = Vec::new();
    m.push(44u8);
    m.push(32u8);
    m.push(116u8);
    m.push(105u8);
    m.push(100u8);
    m.push(58u8);
    m.push(32u8);
    proof {
        assert(m@ =~= spec_lit_tid());
    }
    m
}

/// Every record's pname field ends at the first comma after `, pname:`, so
/// a record at `i` leaves no choice of field length: if `c` is the first
/// comma at or after `i + 23`, the `, tid: ` literal stands exactly at `c`.
proof fn lemma_field_length_forced(msg: Seq<u8>, tid: u64, i: int, c: int)
    requires
        i + 23 <= c <= msg.len(),
        forall|j: int| i + 23 <= j < c ==> msg[j] != COMMA,
        c < msg.len() ==> msg[c] == COMMA,
    ensures
        forall|k: int| spec_record_at_with(msg, tid, i, k) ==> i + 23 + k == c,
{
    assert forall|k: int| spec_record_at_with(msg, tid, i, k) implies i + 23 + k == c by {
        assert(msg.subrange(i + 23 + k, i + 23 + k + 7)[0] == msg[i + 23 + k]);
        assert(msg[i + 23 + k] == COMMA);
        if i + 23 + k < c {
        } else if i + 23 + k > c {
            assert(c < msg.len());
        }
    }
}

/// Tries to recognize a record for the queried title id at index `i`;
/// `tid_hex` must hold the sixteen lowercase hex digits of the id.
fn try_record_at(msg: &[u8], tid_hex: &[u8], i: usize, Ghost(tid): Ghost<u64>) -> (r: Option<
    u32,
>)
    requires
        i < msg@.len(),
        tid_hex@ == spec_tid_hex(tid),
    ensures
        r is Some <==> spec_record_at(msg@, tid, i as int),
        r matches Some(p) ==> p == spec_pid_at(msg@, i as int),
{
    let n = msg.len();
    if n - i < 46 {
        proof {
            assert forall|k: int| !spec_record_at_with(msg@, tid, i as int, k) by {}
        }
        return None;
    }
    let lit_pid = lit_pid_bytes();
    if !crate::receiver::matches_at(msg, lit_pid.as_slice(), i) {
        return None;
    }
    let mut j: usize = 0;
    while j < 8
        invariant
            j <= 8,
            n == msg@.len(),
            i + 46 <= msg@.len(),
            forall|m: int| 0 <= m < j ==> spec_is_hex_digit(#[trigger] msg@[i + 7 + m]),
        decreases 8 - j,
    {
        if !is_hex_digit(msg[i + 7 + j]) {
            proof {
                assert forall|k: int| !spec_record_at_with(msg@, tid, i as int, k) by {
                    if spec_record_at_with(msg@, tid, i as int, k) {
                        assert(msg@.subrange(i + 7, i + 15)[j as int] == msg@[i + 7 + j]);
                    }
                }
            }
            return None;
        }
        j = j + 1;
    }
    let lit_pname = lit_pname_bytes();
    if !crate::receiver::matches_at(msg, lit_pname.as_slice(), i + 15) {
        return None;
    }
    // The pname field runs to the first comma after its opening literal.
    let mut c: usize = i + 23;
    while c < n && msg[c] != COMMA
        invariant
            i + 23 <= c <= n,
            n == msg@.len(),
            forall|j2: int| i + 23 <= j2 < c ==> msg@[j2] != COMMA,
        decreases n - c,
    {
        c = c + 1;
    }
    proof {
        lemma_field_length_forced(msg@, tid, i as int, c as int);
    }
    if n - c < 23 {
        // No room for `, tid: ` and sixteen digits at the only possible spot.
        proof {
            assert forall|k: int| !spec_record_at_with(msg@, tid, i as int, k) by {}
        }
        return None;
    }
    let lit_tid = lit_tid_bytes();
    if !crate::receiver::matches_at(msg, lit_tid.as_slice(), c) {
        return None;
    }
    let mut j: usize = 0;
    while j < 16
        invariant
            j <= 16,
            n == msg@.len(),
            i + 23 <= c,
            c + 23 <= msg@.len(),
            forall|j2: int| i + 23 <= j2 < c ==> msg@[j2] != COMMA,
            c < msg@.len() ==> msg@[c as int] == COMMA,
            tid_hex@ == spec_tid_hex(tid),
            forall|m: int| 0 <= m < j ==> spec_to_lower(#[trigger] msg@[c + 7 + m]) == spec_tid_hex(tid)[m],
        decreases 16 - j,
    {
        if to_lower(msg[c + 7 + j]) != tid_hex[j] {
            proof {
                lemma_field_length_forced(msg@, tid, i as int, c as int);
                let ghost k0 = c - (i + 23);
                assert forall|k: int| !spec_record_at_with(msg@, tid, i as int, k) by {
                    if spec_record_at_with(msg@, tid, i as int, k) {
                        assert(k == k0);
                    }
                }
            }
            return None;
        }
        j = j + 1;
    }
    // Everything matched: the record stands at `i` with field length
    // `c - (i + 23)`.
    proof {
        let ghost k0 = c - (i + 23) as int;
        assert(spec_all_hex(msg@.subrange(i + 7, i + 15))) by {
            assert(forall|m: int|
                0 <= m < 8 ==> #[trigger] msg@.subrange(i + 7, i + 15)[m] == msg@[i + 7 + m]);
        }
        assert(spec_record_at_with(msg@, tid, i as int, k0));
    }
    let pid = parse_hex_u32(msg, i + 7);
    proof {
        lemma_hex_value_bound(msg@.subrange(i + 7, i + 15));
    }
    Some(pid)
}

/// Finds the process id for title id `tid` in the process-list text `msg`:
/// the pid of the leftmost record whose title id matches, or `None` when no
/// record does.
pub fn find_pid(msg: &[u8], tid: u64) -> (r: Option<u32>)
    ensures
        r is Some <==> exists|i: int| spec_record_at(msg@, tid, i),
        r matches Some(p) ==> exists|i: int|
            #[trigger] spec_record_at(msg@, tid, i) && p == spec_pid_at(msg@, i) && (forall|
                i2: int,
            | 0 <= i2 < i ==> !spec_record_at(msg@, tid, i2)),
{
    let tid_hex = tid_to_hex(tid);
    let n = msg.len();
    let mut i: usize = 0;
    while i < n
        invariant
            i <= n,
            n == msg@.len(),
            tid_hex@ == spec_tid_hex(tid),
            forall|i2: int| 0 <= i2 < i ==> !spec_record_at(msg@, tid, i2),
        decreases n - i,
    {
        match try_record_at(msg, tid_hex.as_slice(), i, Ghost(tid)) {
            Some(p) => {
                return Some(p);
            },
            None => {},
        }
        i = i + 1;
    }
    proof {
        assert forall|i2: int| !spec_record_at(msg@, tid, i2) by {
            if spec_record_at(msg@, tid, i2) {
                let k = choose|k: int| spec_record_at_with(msg@, tid, i2, k);
                assert(0 <= i2 < msg@.len());
            }
        }
    }
    None
}

} // verus!

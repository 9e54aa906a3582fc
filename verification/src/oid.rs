//! The object identifier: a fixed 20-byte content hash with a hex codec and
//! an abbreviation-aware comparison.

use core::cmp::Ordering;
use vstd::prelude::*;
use vstd::slice::slice_index_get;

use crate::errors::GitError;

verus! {

/// Number of raw bytes in an object identifier.
pub const GIT_OID_RAWSZ: usize = 20;

/// Number of characters in a fully spelled-out hex identifier.
pub const GIT_OID_HEXSZ: usize = 40;

/// Whether a byte is an ASCII hex digit, in either case.
pub open spec fn is_hex_digit(c: u8) -> bool {
    (0x30 <= c && c <= 0x39)  // '0'..='9'
    || (0x61 <= c && c <= 0x66)  // 'a'..='f'
    || (0x41 <= c && c <= 0x46)  // 'A'..='F'
}

/// The value of an ASCII hex digit; -1 for any other byte.
pub open spec fn hex_val(c: u8) -> int {
    if 0x30 <= c && c <= 0x39 {
        c - 0x30
    } else if 0x61 <= c && c <= 0x66 {
        c - 0x61 + 10
    } else if 0x41 <= c && c <= 0x46 {
        c - 0x41 + 10
    } else {
        -1
    }
}

/// Whether every byte of `s` is a hex digit.
pub open spec fn all_hex(s: Seq<u8>) -> bool {
    forall|k: int| 0 <= k < s.len() ==> is_hex_digit(s[k])
}

/// The lowercase ASCII hex character for a nibble value.
pub open spec fn hex_char(nib: int) -> u8 {
    if nib < 10 {
        (0x30 + nib) as u8  // '0'..='9'
    } else {
        (0x61 + nib - 10) as u8  // 'a'..='f'
    }
}

/// The identifier byte at index `j` that parsing the hex string `s` yields.
/// Digits are consumed two per byte, high nibble first; nibbles that lie
/// beyond the end of the string are zero.
pub open spec fn oid_byte_of_hex(s: Seq<u8>, j: int) -> u8
    recommends
        all_hex(s),
{
    let hi: int = if 2 * j < s.len() {
        hex_val(s[2 * j])
    } else {
        0
    };
    let lo: int = if 2 * j + 1 < s.len() {
        hex_val(s[2 * j + 1])
    } else {
        0
    };
    (hi * 16 + lo) as u8
}

/// The 20 identifier bytes that parsing the hex string `s` yields.
pub open spec fn oid_of_hex(s: Seq<u8>) -> Seq<u8>
    recommends
        all_hex(s),
        s.len() <= 40,
{
    Seq::new(20, |j: int| oid_byte_of_hex(s, j))
}

/// One step of comparing identifier bytes against a hex string, from byte
/// index `i` on. The string may abbreviate the identifier: once it is
/// exhausted the comparison stops at `Equal`, so a prefix compares equal to
/// every identifier it abbreviates. A non-hex byte in the string yields
/// `Less` unconditionally. An odd trailing digit compares only the high
/// nibble of the final byte pair; the low nibble is never examined.
pub open spec fn cmp_hex_from(id: Seq<u8>, s: Seq<u8>, i: int) -> Ordering
    decreases 20 - i,
{
    if i >= 20 || 2 * i >= s.len() {
        Ordering::Equal
    } else if !is_hex_digit(s[2 * i]) {
        Ordering::Less
    } else if 2 * i + 1 >= s.len() {
        // the odd trailing digit: only the high nibble takes part
        if id[i] as int / 16 < hex_val(s[2 * i]) {
            Ordering::Less
        } else if id[i] as int / 16 > hex_val(s[2 * i]) {
            Ordering::Greater
        } else {
            cmp_hex_from(id, s, i + 1)
        }
    } else if !is_hex_digit(s[2 * i + 1]) {
        Ordering::Less
    } else {
        let strval = hex_val(s[2 * i]) * 16 + hex_val(s[2 * i + 1]);
        if id[i] < strval {
            Ordering::Less
        } else if id[i] > strval {
            Ordering::Greater
        } else {
            cmp_hex_from(id, s, i + 1)
        }
    }
}

/// How identifier bytes order against a possibly abbreviated hex string.
pub open spec fn cmp_hex(id: Seq<u8>, s: Seq<u8>) -> Ordering {
    cmp_hex_from(id, s, 0)
}

/// Whether the identifier agrees with every nibble the hex string spells
/// out: whole bytes for complete digit pairs, and the high nibble alone
/// under an odd trailing digit.
pub open spec fn matches_prefix(id: Seq<u8>, s: Seq<u8>) -> bool {
    &&& forall|j: int| 0 <= j && 2 * j + 1 < s.len() ==> id[j] == oid_byte_of_hex(s, j)
    &&& s.len() % 2 == 1 ==> id[(s.len() - 1) as int / 2] as int / 16 == hex_val(
        s[s.len() - 1],
    )
}

/// The `n` bytes that formatting identifier bytes `id` to `n` hex characters
/// writes: lowercase digits two per byte, high nibble first; when `n` is odd
/// the final character is the high nibble alone; characters beyond the 40th
/// are written as zero bytes, not hex digits.
pub open spec fn formatted_hex(id: Seq<u8>, n: int) -> Seq<u8>
    recommends
        id.len() == 20,
        n >= 0,
{
    Seq::new(
        n as nat,
        |k: int|
            if k >= 40 {
                0u8
            } else if k % 2 == 0 {
                hex_char(id[k / 2] as int / 16)
            } else {
                hex_char(id[k / 2] as int % 16)
            },
    )
}

/// The lowercase ASCII hex character for a nibble value.
pub fn tohex(nib: u8) -> (c: u8)
    requires
        nib < 16,
    ensures
        c == hex_char(nib as int),
{
    if nib < 10 {
        0x30 + nib
    } else {
        0x61 + (nib - 10)
    }
}

/// The lowercase form of an ASCII hex digit; other bytes are unchanged.
pub open spec fn lower_hex_char(c: u8) -> u8 {
    if 0x41 <= c && c <= 0x46 {
        (c + 32) as u8
    } else {
        c
    }
}

proof fn lemma_cmp_hex_prefix_from(id: Seq<u8>, s: Seq<u8>, i: int)
    requires
        id.len() == 20,
        s.len() <= 40,
        all_hex(s),
        matches_prefix(id, s),
        0 <= i,
    ensures
        cmp_hex_from(id, s, i) == Ordering::Equal,
    decreases 20 - i,
{
    if i >= 20 || 2 * i >= s.len() {
    } else {
        assert(is_hex_digit(s[2 * i]));
        if 2 * i + 1 >= s.len() {
            assert(s.len() == 2 * i + 1);
            assert(id[i] as int / 16 == hex_val(s[2 * i]));
        } else {
            assert(id[i] == oid_byte_of_hex(s, i));
        }
        lemma_cmp_hex_prefix_from(id, s, i + 1);
    }
}

/// Prefix-match semantics of the comparison: a hex string, each of whose
/// spelled-out nibbles agrees with the identifier, compares `Equal`,
/// whatever the identifier's remaining bytes hold.
pub proof fn lemma_cmp_hex_prefix(id: Seq<u8>, s: Seq<u8>)
    requires
        id.len() == 20,
        s.len() <= 40,
        all_hex(s),
        matches_prefix(id, s),
    ensures
        cmp_hex(id, s) == Ordering::Equal,
{
    lemma_cmp_hex_prefix_from(id, s, 0);
}

proof fn lemma_cmp_hex_equal_from(id: Seq<u8>, s: Seq<u8>, i: int)
    requires
        id.len() == 20,
        s.len() <= 40,
        all_hex(s),
        0 <= i,
        cmp_hex_from(id, s, i) == Ordering::Equal,
    ensures
        forall|j: int| i <= j < 20 && 2 * j + 1 < s.len() ==> id[j] == oid_byte_of_hex(s, j),
        s.len() % 2 == 1 && 2 * i < s.len() ==> id[(s.len() - 1) as int / 2] as int / 16
            == hex_val(s[s.len() - 1]),
    decreases 20 - i,
{
    if i >= 20 || 2 * i >= s.len() {
    } else {
        assert(is_hex_digit(s[2 * i]));
        if 2 * i + 1 >= s.len() {
            assert(s.len() == 2 * i + 1);
            assert(id[i] as int / 16 == hex_val(s[2 * i]));
        } else {
            assert(id[i] == oid_byte_of_hex(s, i));
        }
        lemma_cmp_hex_equal_from(id, s, i + 1);
    }
}

/// The comparison's `Equal` answer is exact: for a well-formed hex string
/// it holds precisely when the identifier agrees with every nibble the
/// string spells out — all forty of them, for a full-length string, so a
/// full-length comparison is equality with the parsed identifier.
pub proof fn lemma_cmp_hex_equal_iff(id: Seq<u8>, s: Seq<u8>)
    requires
        id.len() == 20,
        s.len() <= 40,
        all_hex(s),
    ensures
        cmp_hex(id, s) == Ordering::Equal <==> matches_prefix(id, s),
        s.len() == 40 ==> (cmp_hex(id, s) == Ordering::Equal <==> id == oid_of_hex(s)),
{
    if cmp_hex(id, s) == Ordering::Equal {
        lemma_cmp_hex_equal_from(id, s, 0);
    }
    if matches_prefix(id, s) {
        lemma_cmp_hex_prefix(id, s);
    }
    if s.len() == 40 {
        if matches_prefix(id, s) {
            assert(id =~= oid_of_hex(s));
        }
        if id == oid_of_hex(s) {
            assert forall|j: int| 0 <= j && 2 * j + 1 < s.len() implies id[j] == oid_byte_of_hex(
                s,
                j,
            ) by {
                assert(id[j] == oid_of_hex(s)[j]);
            }
        }
    }
}

/// A worked instance of the prefix law: the two-character abbreviation "de"
/// compares `Equal` to any identifier whose first byte is 0xde, regardless
/// of the remaining bytes.
pub proof fn lemma_prefix_de_matches(oid: Oid)
    requires
        oid.bytes()[0] == 0xde,
    ensures
        cmp_hex(oid.bytes(), seq![0x64u8, 0x65u8]) == Ordering::Equal,
{
    let s = seq![0x64u8, 0x65u8];
    oid.lemma_bytes_len();
    assert(s[0] == 0x64 && s[1] == 0x65);
    assert(all_hex(s)) by {
        assert(forall|k: int| 0 <= k < 2 ==> is_hex_digit(s[k]));
    }
    assert(oid_byte_of_hex(s, 0) == 0xde);
    assert(matches_prefix(oid.bytes(), s)) by {
        assert forall|j: int| 0 <= j && 2 * j + 1 < s.len() implies oid.bytes()[j]
            == oid_byte_of_hex(s, j) by {
            assert(j == 0);
        }
    }
    lemma_cmp_hex_prefix(oid.bytes(), s);
}

/// Round trip of the codec: formatting the identifier parsed from 40 hex
/// digits reproduces the input with its letters lowercased; on canonical
/// (lowercase) input, parse followed by format is the identity.
pub proof fn lemma_format_of_parse(s: Seq<u8>)
    requires
        s.len() == 40,
        all_hex(s),
    ensures
        formatted_hex(oid_of_hex(s), 40) == s.map_values(|c: u8| lower_hex_char(c)),
{
    let id = oid_of_hex(s);
    let lowered = s.map_values(|c: u8| lower_hex_char(c));
    assert forall|k: int| 0 <= k < 40 implies formatted_hex(id, 40)[k] == lowered[k] by {
        let j = k / 2;
        let hi = hex_val(s[2 * j]);
        let lo = hex_val(s[2 * j + 1]);
        assert(is_hex_digit(s[2 * j]) && is_hex_digit(s[2 * j + 1]));
        assert(0 <= hi < 16 && 0 <= lo < 16);
        assert(id[j] == hi * 16 + lo);
        assert((hi * 16 + lo) / 16 == hi && (hi * 16 + lo) % 16 == lo) by (nonlinear_arith)
            requires
                0 <= hi < 16 && 0 <= lo < 16,
        ;
        assert(hex_char(hex_val(s[k])) == lower_hex_char(s[k]));
    }
    assert(formatted_hex(oid_of_hex(s), 40) =~= lowered);
}

/// Looks up the value of one hex digit; negative for a byte that is not a
/// hex digit.
pub fn fromhex(h: u8) -> (v: i32)
    ensures
        v == hex_val(h),
        v >= 0 <==> is_hex_digit(h),
        v < 16,
{
    if 0x30 <= h && h <= 0x39 {
        (h - 0x30) as i32
    } else if 0x61 <= h && h <= 0x66 {
        (h - 0x61) as i32 + 10
    } else if 0x41 <= h && h <= 0x46 {
        (h - 0x41) as i32 + 10
    } else {
        -1
    }
}

/// A fixed-width binary content identifier naming a stored object: 20 raw
/// bytes of a content hash. An immutable value with no backing allocation.
#[derive(Clone, Copy, Debug, PartialEq, Eq)]
pub struct Oid {
    id: [u8; 20],
}

impl Oid {
    /// The identifier's raw bytes.
    pub closed spec fn bytes(&self) -> Seq<u8> {
        self.id@
    }

    /// An identifier always holds exactly 20 bytes.
    pub proof fn lemma_bytes_len(&self)
        ensures
            self.bytes().len() == 20,
    {
    }

    /// Trusted copy of exactly 20 raw bytes, used when the caller already
    /// holds a verified binary hash. No validation.
    pub fn from_raw(raw: &[u8; 20]) -> (oid: Oid)
        ensures
            oid.bytes() == raw@,
    {
        Oid { id: *raw }
    }

    /// Parses a hex string of 1 to 40 digits into `out`, high nibble first.
    /// An odd-length input leaves the low nibble of its final byte zero; case
    /// is accepted either way. Empty input, input longer than 40 digits, and
    /// any non-hex byte are rejected as `InvalidFormat`; on the length errors
    /// `out` is untouched, while a non-hex byte leaves in `out` exactly the
    /// digits parsed before it (over a zeroed identifier).
    pub fn from_slice(out: &mut Oid, input: &[u8]) -> (r: Result<(), GitError>)
        ensures
            match r {
                Ok(()) => {
                    &&& 1 <= input@.len() <= 40
                    &&& all_hex(input@)
                    &&& final(out).bytes() == oid_of_hex(input@)
                },
                Err(e) => {
                    &&& e == GitError::InvalidFormat
                    &&& !(1 <= input@.len() <= 40 && all_hex(input@))
                    &&& (input@.len() == 0 || input@.len() > 40) ==> *final(out) == *old(out)
                    &&& (1 <= input@.len() <= 40) ==> exists|k: int|
                        {
                            &&& 0 <= k < input@.len()
                            &&& !is_hex_digit(input@[k])
                            &&& all_hex(input@.take(k))
                            &&& final(out).bytes() == oid_of_hex(input@.take(k))
                        }
                },
            },
    {
        let n = input.len();
        if n == 0 {
            return Err(GitError::InvalidFormat);  // too short
        }
        if n > GIT_OID_HEXSZ {
            return Err(GitError::InvalidFormat);  // too long
        }
        out.id = [0u8; 20];
        assert(out.bytes() =~= oid_of_hex(input@.take(0)));
        let mut p: usize = 0;
        while p < n
            invariant
                n == input@.len(),
                1 <= n <= 40,
                0 <= p <= n,
                all_hex(input@.take(p as int)),
                out.bytes() == oid_of_hex(input@.take(p as int)),
            decreases n - p,
        {
            let c = *slice_index_get(input, p);
            let v = fromhex(c);
            if v < 0 {
                assert(!is_hex_digit(input@[p as int]));
                return Err(GitError::InvalidFormat);  // contains invalid characters
            }
            // Apply the digit to the high or the low nibble in turn.
            let idx = p / 2;
            let cur = out.id[idx];
            if p % 2 == 0 {
                out.id[idx] = (v as u8) * 16;
            } else {
                out.id[idx] = cur + (v as u8);
            }
            proof {
                let s1 = input@.take(p + 1 as int);
                assert(s1[p as int] == input@[p as int]);
                assert forall|j: int| 0 <= j < 20 implies out.bytes()[j] == oid_byte_of_hex(
                    s1,
                    j,
                ) by {
                    let s0 = input@.take(p as int);
                    if j != p / 2 {
                        assert(oid_byte_of_hex(s1, j) == oid_byte_of_hex(s0, j));
                    }
                }
                assert(out.bytes() =~= oid_of_hex(s1));
            }
            p = p + 1;
        }
        proof {
            assert(input@.take(n as int) =~= input@);
        }
        Ok(())
    }

    /// Compares the identifier's raw bytes against a hex string that may be
    /// shorter than 40 characters (an abbreviation) and may end in an odd
    /// digit, which is compared against the high nibble of its byte pair
    /// alone. The comparison stops at `Equal` once the string is exhausted,
    /// so an abbreviation compares equal to any identifier it is a prefix
    /// of. A malformed hex digit met mid-string reports `Less` rather than a
    /// format error, so a malformed string never compares `Greater`.
    pub fn cmp_slice(&self, s: &[u8]) -> (ord: Ordering)
        ensures
            ord == cmp_hex(self.bytes(), s@),
    {
        let slen = s.len();
        let mut i: usize = 0;
        while i < GIT_OID_RAWSZ
            invariant
                0 <= i <= 20,
                slen == s@.len(),
                cmp_hex(self.bytes(), s@) == cmp_hex_from(self.bytes(), s@, i as int),
            decreases 20 - i,
        {
            if 2 * i >= slen {
                return Ordering::Equal;
            }
            let c1 = *slice_index_get(s, 2 * i);
            let v1 = fromhex(c1);
            if v1 < 0 {
                return Ordering::Less;
            }
            let a = self.id[i];
            if 2 * i + 1 >= slen {
                // the odd trailing digit: only the high nibble takes part
                let hi = a / 16;
                if hi < v1 as u8 {
                    return Ordering::Less;
                }
                if hi > v1 as u8 {
                    return Ordering::Greater;
                }
                proof {
                    assert(cmp_hex_from(self.bytes(), s@, i + 1 as int) == Ordering::Equal);
                }
                return Ordering::Equal;
            }
            let c2 = *slice_index_get(s, 2 * i + 1);
            let v2 = fromhex(c2);
            if v2 < 0 {
                return Ordering::Less;
            }
            let strval: u8 = (v1 as u8) * 16 + (v2 as u8);
            if a != strval {
                if a < strval {
                    return Ordering::Less;
                } else {
                    return Ordering::Greater;
                }
            }
            i = i + 1;
        }
        Ordering::Equal
    }

    /// Writes exactly `n` hex characters into the front of the
    /// caller-provided storage `pstr`. If `n` exceeds 40, the characters
    /// beyond the 40th are written as zero bytes; if `n` is odd, the final
    /// character is the high nibble only of byte `n / 2`. Bytes of `pstr`
    /// beyond the first `n` are untouched.
    pub fn nfmt(&self, pstr: &mut Vec<u8>, n: usize)
        requires
            n <= old(pstr).len(),
        ensures
            final(pstr)@.len() == old(pstr)@.len(),
            final(pstr)@.subrange(0, n as int) == formatted_hex(self.bytes(), n as int),
            final(pstr)@.skip(n as int) == old(pstr)@.skip(n as int),
    {
        let mut n = n;
        let ghost n0 = n as int;
        let ghost p0 = pstr@;
        if n > GIT_OID_HEXSZ {
            // Characters past the full hex expansion become zero bytes.
            let mut k: usize = GIT_OID_HEXSZ;
            while k < n
                invariant
                    40 <= k <= n <= pstr@.len(),
                    n == n0,
                    pstr@.len() == p0.len(),
                    forall|j: int| 40 <= j < k ==> pstr@[j] == 0u8,
                    forall|j: int| 0 <= j < 40 ==> pstr@[j] == p0[j],
                    forall|j: int| n0 <= j < p0.len() ==> pstr@[j] == p0[j],
                decreases n - k,
            {
                pstr[k] = 0u8;
                k = k + 1;
            }
            n = GIT_OID_HEXSZ;
        }
        let mut k: usize = 0;
        while k < n
            invariant
                0 <= k <= n <= 40,
                n == (if n0 > 40 {
                    40
                } else {
                    n0
                }),
                n <= pstr@.len() == p0.len(),
                n0 <= p0.len(),
                forall|j: int| 0 <= j < k ==> pstr@[j] == formatted_hex(self.bytes(), n0)[j],
                forall|j: int| 40 <= j < n0 ==> pstr@[j] == 0u8,
                forall|j: int| n as int <= j < 40 && j < p0.len() ==> pstr@[j] == p0[j],
                forall|j: int| n0 <= j < p0.len() ==> pstr@[j] == p0[j],
            decreases n - k,
        {
            let b = self.id[k / 2];
            if k % 2 == 0 {
                pstr[k] = tohex(b / 16);
            } else {
                pstr[k] = tohex(b % 16);
            }
            k = k + 1;
        }
        proof {
            assert(pstr@.subrange(0, n0) =~= formatted_hex(self.bytes(), n0));
            assert(pstr@.skip(n0) =~= p0.skip(n0));
        }
    }

    /// Parses an identifier out of a structured header line: `buffer` must
    /// begin with the exact byte sequence `header`, followed by exactly 40
    /// hex characters, followed by a newline. On success returns the number
    /// of bytes a cursor should advance, `header.len() + 41`, and fills
    /// `out`; any shortfall, prefix mismatch, missing newline or malformed
    /// digit is `InvalidFormat`.
    pub fn parse_header(out: &mut Oid, buffer: &[u8], header: &[u8]) -> (r: Result<
        usize,
        GitError,
    >)
        ensures
            match r {
                Ok(consumed) => {
                    let hlen = header@.len() as int;
                    &&& buffer@.len() >= hlen + 41
                    &&& buffer@.subrange(0, hlen) == header@
                    &&& buffer@[hlen + 40] == 0x0au8
                    &&& all_hex(buffer@.subrange(hlen, hlen + 40))
                    &&& final(out).bytes() == oid_of_hex(buffer@.subrange(hlen, hlen + 40))
                    &&& consumed == hlen + 41
                },
                Err(e) => {
                    let hlen = header@.len() as int;
                    &&& e == GitError::InvalidFormat
                    &&& !{
                        &&& buffer@.len() >= hlen + 41
                        &&& buffer@.subrange(0, hlen) == header@
                        &&& buffer@[hlen + 40] == 0x0au8
                        &&& all_hex(buffer@.subrange(hlen, hlen + 40))
                    }
                    // only a malformed digit among the 40 leaves a partial
                    // parse behind; any earlier failure touches nothing
                    &&& !(buffer@.len() >= hlen + 41 && buffer@.subrange(0, hlen) == header@
                        && buffer@[hlen + 40] == 0x0au8) ==> *final(out) == *old(out)
                },
            },
    {
        let hlen = header.len();
        let blen = buffer.len();
        if blen < GIT_OID_HEXSZ + 1 || hlen > blen - (GIT_OID_HEXSZ + 1) {
            return Err(GitError::InvalidFormat);
        }
        let mut j: usize = 0;
        while j < hlen
            invariant
                0 <= j <= hlen,
                hlen == header@.len(),
                blen == buffer@.len(),
                hlen + 41 <= blen,
                forall|k: int| 0 <= k < j ==> buffer@[k] == header@[k],
            decreases hlen - j,
        {
            if *slice_index_get(buffer, j) != *slice_index_get(header, j) {
                proof {
                    assert(buffer@.subrange(0, hlen as int)[j as int] != header@[j as int]);
                }
                return Err(GitError::InvalidFormat);
            }
            j = j + 1;
        }
        proof {
            assert(buffer@.subrange(0, hlen as int) =~= header@);
        }
        if *slice_index_get(buffer, hlen + GIT_OID_HEXSZ) != 0x0au8 {
            return Err(GitError::InvalidFormat);
        }
        let hex = vstd::slice::slice_subrange(buffer, hlen, hlen + GIT_OID_HEXSZ);
        match Oid::from_slice(out, hex) {
            Ok(()) => Ok(hlen + (GIT_OID_HEXSZ + 1)),
            Err(e) => Err(e),
        }
    }

    /// True iff all 20 bytes are zero; the all-zero identifier represents an
    /// absent or unset object.
    pub fn iszero(&self) -> (z: bool)
        ensures
            z <==> (forall|k: int| 0 <= k < 20 ==> self.bytes()[k] == 0),
    {
        let mut i: usize = 0;
        while i < GIT_OID_RAWSZ
            invariant
                0 <= i <= 20,
                forall|k: int| 0 <= k < i ==> self.bytes()[k] == 0,
            decreases 20 - i,
        {
            if self.id[i] != 0 {
                assert(self.bytes()[i as int] != 0);
                return false;
            }
            i = i + 1;
        }
        true
    }
}

impl PartialEq<[u8]> for Oid {
    fn eq(&self, other: &[u8]) -> (r: bool) {
        match self.cmp_slice(other) {
            Ordering::Equal => true,
            _ => false,
        }
    }
}

impl vstd::std_specs::cmp::PartialEqSpecImpl<[u8]> for Oid {
    open spec fn obeys_eq_spec() -> bool {
        true
    }

    open spec fn eq_spec(&self, other: &[u8]) -> bool {
        cmp_hex(self.bytes(), other@) == Ordering::Equal
    }
}

impl PartialOrd<[u8]> for Oid {
    fn partial_cmp(&self, other: &[u8]) -> (r: Option<Ordering>) {
        Some(self.cmp_slice(other))
    }
}

impl vstd::std_specs::cmp::PartialOrdSpecImpl<[u8]> for Oid {
    open spec fn obeys_partial_cmp_spec() -> bool {
        true
    }

    open spec fn partial_cmp_spec(&self, other: &[u8]) -> Option<Ordering> {
        Some(cmp_hex(self.bytes(), other@))
    }
}

} // verus!

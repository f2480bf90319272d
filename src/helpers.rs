use vstd::prelude::*;

verus! {

/// The two octets of a 16-bit value, most significant first.
pub open spec fn be16(x: int) -> Seq<u8> {
    seq![(x / 256) as u8, (x % 256) as u8]
}

/// The `n` octets of `x` (taken modulo 256^n), most significant first.
pub open spec fn be_bytes(x: nat, n: nat) -> Seq<u8>
    decreases n,
{
    if n == 0 {
        Seq::empty()
    } else {
        be_bytes(x / 256, (n - 1) as nat).push((x % 256) as u8)
    }
}

/// Bytes with the 16-bit value `c` written big-endian at `at`.
pub open spec fn with_word(s: Seq<u8>, at: int, c: nat) -> Seq<u8> {
    s.update(at, (c / 256) as u8).update(at + 1, (c % 256) as u8)
}

/// The big-endian 16-bit word made of two octets.
pub open spec fn word(hi: u8, lo: u8) -> nat {
    hi as nat * 256 + lo as nat
}

/// The `i`-th big-endian 16-bit word of `s`.
pub open spec fn word_at(s: Seq<u8>, i: int) -> nat {
    word(s[2 * i], s[2 * i + 1])
}

/// Whether the word at index `i` takes part in a sum that skips word `skip`.
/// Word 0 is never skipped.
pub open spec fn counted(i: int, skip: int) -> bool {
    !(i == skip && i != 0)
}

/// The sum of the first `n` big-endian words of `s`, leaving out word `skip`.
pub open spec fn words_sum(s: Seq<u8>, skip: int, n: int) -> nat
    decreases n,
{
    if n <= 0 {
        0
    } else {
        words_sum(s, skip, n - 1) + if counted(n - 1, skip) {
            word_at(s, n - 1)
        } else {
            0
        }
    }
}

/// The sum of `s` read as big-endian words, leaving out word `skip`; an odd
/// trailing octet counts as the high octet of a last word.
pub open spec fn be_words_sum(s: Seq<u8>, skip: int) -> nat {
    words_sum(s, skip, (s.len() / 2) as int) + if s.len() % 2 == 1 {
        s[s.len() - 1] as nat * 256
    } else {
        0
    }
}

/// A sum reduced to 16 bits with end-around carry: what folding the carries
/// back in until none is left gives.
pub open spec fn ones_fold(x: nat) -> nat {
    if x == 0 {
        0
    } else {
        ((x - 1) as int % 65535 + 1) as nat
    }
}

/// The ones complement of a folded sum.
pub open spec fn complement_of(sum: nat) -> nat {
    (0xffff - ones_fold(sum)) as nat
}

/// The Internet checksum of `s` with word `skip` left out of the sum.
pub open spec fn internet_checksum(s: Seq<u8>, skip: int) -> nat {
    complement_of(be_words_sum(s, skip))
}

/// A folded sum fits 16 bits, leaves a sum that already fits unchanged, and
/// is zero only for a zero sum.
pub proof fn lemma_ones_fold_range(x: nat)
    ensures
        ones_fold(x) <= 0xffff,
        x <= 0xffff ==> ones_fold(x) == x,
        x > 0 ==> ones_fold(x) > 0,
{
}

/// Two positive sums that agree modulo 65535 fold to the same value.
pub proof fn lemma_ones_fold_shift(x: nat, k: nat)
    requires
        x > 0,
    ensures
        ones_fold(x + 65535 * k) == ones_fold(x),
{
    vstd::arithmetic::div_mod::lemma_mod_multiples_vanish(k as int, x - 1, 65535);
    assert((x + 65535 * k - 1) as int == 65535 * (k as int) + (x - 1));
}

/// Adding to a folded sum folds like adding to the sum itself.
pub proof fn lemma_ones_fold_add(a: nat, b: nat)
    ensures
        ones_fold(ones_fold(a) + b) == ones_fold(a + b),
{
    if a > 0 {
        let f = ones_fold(a);
        let q = ((a - 1) as int / 65535) as nat;
        vstd::arithmetic::div_mod::lemma_fundamental_div_mod((a - 1) as int, 65535);
        assert(a == f + 65535 * q);
        assert(a + b == (f + b) + 65535 * q);
        lemma_ones_fold_shift(f + b, q);
    }
}

/// Sums that fold alike still fold alike after the same addition.
pub proof fn lemma_ones_fold_same_add(a: nat, b: nat, w: nat)
    requires
        ones_fold(a) == ones_fold(b),
    ensures
        ones_fold(a + w) == ones_fold(b + w),
{
    lemma_ones_fold_add(a, w);
    lemma_ones_fold_add(b, w);
}

/// One carry fold step keeps the folded value.
pub proof fn lemma_fold_step(x: nat)
    requires
        x >= 0x10000,
    ensures
        ones_fold(x / 0x10000 + x % 0x10000) == ones_fold(x),
        x / 0x10000 + x % 0x10000 < x,
{
    let q = x / 0x10000;
    let r = x % 0x10000;
    vstd::arithmetic::div_mod::lemma_fundamental_div_mod(x as int, 0x10000);
    assert(q >= 1);
    assert(x == (q + r) + 65535 * q);
    lemma_ones_fold_shift(q + r, q);
}

/// Each word is at most 0xffff.
pub proof fn lemma_words_sum_bound(s: Seq<u8>, skip: int, n: int)
    requires
        0 <= n <= s.len() / 2,
    ensures
        words_sum(s, skip, n) <= 0xffff * n,
    decreases n,
{
    if n > 0 {
        lemma_words_sum_bound(s, skip, n - 1);
    }
}

/// Writing a word into `s` changes the sum of its first `n` words by the
/// difference, where that word is among them and counted.
pub proof fn lemma_words_sum_with_word(s: Seq<u8>, k: int, c: nat, skip: int, n: int)
    requires
        0 <= k,
        2 * k + 1 < s.len(),
        c <= 0xffff,
        0 <= n <= s.len() / 2,
    ensures
        words_sum(with_word(s, 2 * k, c), skip, n) + (if k < n && counted(k, skip) {
            word_at(s, k)
        } else {
            0
        }) == words_sum(s, skip, n) + (if k < n && counted(k, skip) {
            c
        } else {
            0
        }),
    decreases n,
{
    if n > 0 {
        lemma_words_sum_with_word(s, k, c, skip, n - 1);
        let t = with_word(s, 2 * k, c);
        if n - 1 == k {
            assert(word_at(t, k) == c);
        } else {
            assert(word_at(t, n - 1) == word_at(s, n - 1));
        }
    }
}

/// The word sum of `s` with word `k` written to `c`: the sum that skips word
/// `k`, plus `c`; an odd trailing byte is untouched.
pub proof fn lemma_be_words_sum_with_word(s: Seq<u8>, k: int, c: nat)
    requires
        1 <= k,
        2 * k + 1 < s.len(),
        c <= 0xffff,
    ensures
        be_words_sum(with_word(s, 2 * k, c), 0) == be_words_sum(s, k) + c,
        be_words_sum(with_word(s, 2 * k, c), k) == be_words_sum(s, k),
{
    let n = (s.len() / 2) as int;
    let t = with_word(s, 2 * k, c);
    lemma_words_sum_with_word(s, k, c, 0, n);
    lemma_words_sum_with_word(s, k, c, k, n);
    lemma_words_sum_skip(s, k, n);
    if s.len() % 2 == 1 {
        assert(t[s.len() - 1] == s[s.len() - 1]);
    }
}

/// Leaving word `k` out of a sum of `n` words takes exactly that word away.
pub proof fn lemma_words_sum_skip(s: Seq<u8>, k: int, n: int)
    requires
        1 <= k,
        0 <= n <= s.len() / 2,
    ensures
        words_sum(s, 0, n) == words_sum(s, k, n) + if k < n {
            word_at(s, k)
        } else {
            0
        },
    decreases n,
{
    if n > 0 {
        lemma_words_sum_skip(s, k, n - 1);
    }
}

/// The checksum law. For a buffer `b` whose word `k` is its checksum field:
/// the checksum with the field zeroed (or holding anything: it is skipped) is
/// the same, whether the zeroed field is skipped or summed; and once the
/// checksum is written into the field, the sum of the whole buffer folds to
/// 0xffff, so its own checksum is zero.
pub proof fn lemma_checksum_law(b: Seq<u8>, k: int)
    requires
        1 <= k,
        2 * k + 1 < b.len(),
    ensures
        internet_checksum(with_word(b, 2 * k, 0), k) == internet_checksum(b, k),
        internet_checksum(with_word(b, 2 * k, 0), 0) == internet_checksum(b, k),
        ones_fold(be_words_sum(with_word(b, 2 * k, internet_checksum(b, k)), 0)) == 0xffff,
        internet_checksum(with_word(b, 2 * k, internet_checksum(b, k)), 0) == 0,
{
    let sum = be_words_sum(b, k);
    let c = internet_checksum(b, k);
    lemma_ones_fold_range(sum);
    lemma_be_words_sum_with_word(b, k, 0);
    lemma_be_words_sum_with_word(b, k, c);
    lemma_ones_fold_add(sum, c);
    assert(ones_fold(sum) + c == 0xffff);
}

/// Converts a number to an array of its octets, most significant first.
pub trait AsBeBytes: Sized {
    type Output;

    /// The octets of the value, most significant first.
    spec fn be_octets(self) -> Seq<u8>;

    /// The octets held by an output value.
    spec fn output_octets(out: Self::Output) -> Seq<u8>;

    fn split_to_bytes(self) -> (r: Self::Output)
        ensures
            Self::output_octets(r) == self.be_octets(),
    ;
}

impl AsBeBytes for u8 {
    type Output = u8;

    open spec fn be_octets(self) -> Seq<u8> {
        seq![self]
    }

    open spec fn output_octets(out: u8) -> Seq<u8> {
        seq![out]
    }

    fn split_to_bytes(self) -> (r: u8) {
        self
    }
}

impl AsBeBytes for u16 {
    type Output = [u8; 2];

    open spec fn be_octets(self) -> Seq<u8> {
        be16(self as int)
    }

    open spec fn output_octets(out: [u8; 2]) -> Seq<u8> {
        out@
    }

    fn split_to_bytes(self) -> (r: [u8; 2]) {
        let r = [(self / 256) as u8, (self % 256) as u8];
        assert(r@ =~= be16(self as int));
        r
    }
}

impl AsBeBytes for u32 {
    type Output = [u8; 4];

    open spec fn be_octets(self) -> Seq<u8> {
        be_bytes(self as nat, 4)
    }

    open spec fn output_octets(out: [u8; 4]) -> Seq<u8> {
        out@
    }

    fn split_to_bytes(self) -> (r: [u8; 4]) {
        let b3 = (self % 256) as u8;
        let x1 = self / 256;
        let b2 = (x1 % 256) as u8;
        let x2 = x1 / 256;
        let b1 = (x2 % 256) as u8;
        let x3 = x2 / 256;
        let b0 = (x3 % 256) as u8;
        let r = [b0, b1, b2, b3];
        proof {
            reveal_with_fuel(be_bytes, 5);
            assert(r@ =~= be_bytes(self as nat, 4));
        }
        r
    }
}

impl AsBeBytes for u64 {
    type Output = [u8; 8];

    open spec fn be_octets(self) -> Seq<u8> {
        be_bytes(self as nat, 8)
    }

    open spec fn output_octets(out: [u8; 8]) -> Seq<u8> {
        out@
    }

    fn split_to_bytes(self) -> (r: [u8; 8]) {
        let b7 = (self % 256) as u8;
        let x1 = self / 256;
        let b6 = (x1 % 256) as u8;
        let x2 = x1 / 256;
        let b5 = (x2 % 256) as u8;
        let x3 = x2 / 256;
        let b4 = (x3 % 256) as u8;
        let x4 = x3 / 256;
        let b3 = (x4 % 256) as u8;
        let x5 = x4 / 256;
        let b2 = (x5 % 256) as u8;
        let x6 = x5 / 256;
        let b1 = (x6 % 256) as u8;
        let x7 = x6 / 256;
        let b0 = (x7 % 256) as u8;
        let r = [b0, b1, b2, b3, b4, b5, b6, b7];
        proof {
            reveal_with_fuel(be_bytes, 9);
            assert(r@ =~= be_bytes(self as nat, 8));
        }
        r
    }
}

/// Reduces a sum to 16 bits by folding carries back in.
pub(crate) fn fold16(cs: u32) -> (r: u32)
    ensures
        r <= 0xffff,
        r as nat == ones_fold(cs as nat),
{
    let mut cs = cs;
    let ghost orig = cs as nat;
    while cs >> 16 != 0
        invariant
            ones_fold(cs as nat) == ones_fold(orig),
        decreases cs,
    {
        let hi = cs >> 16;
        let lo = cs & 0xFFFF;
        assert(hi == cs / 0x10000 && lo == cs % 0x10000 && cs >= 0x10000) by (bit_vector)
            requires
                cs >> 16 != 0,
                hi == cs >> 16,
                lo == cs & 0xFFFF,
        ;
        proof {
            lemma_fold_step(cs as nat);
        }
        cs = hi + lo;
    }
    assert(cs < 0x10000) by (bit_vector)
        requires
            cs >> 16 == 0,
    ;
    proof {
        lemma_ones_fold_range(cs as nat);
    }
    cs
}

/// Reduces a sum to 16 bits by folding carries back in, then returns its ones
/// complement.
pub fn finalize_checksum(cs: u32) -> (r: u16)
    ensures
        r as nat == complement_of(cs as nat),
{
    let folded = fold16(cs);
    (0xFFFFu32 - folded) as u16
}

/// Adds a word to a sum kept folded to 16 bits.
fn add_folded(acc: u32, w: u32) -> (r: u32)
    requires
        acc <= 0xffff,
        w <= 0xffff,
    ensures
        r <= 0xffff,
        ones_fold(r as nat) == ones_fold(acc as nat + w as nat),
{
    let s = acc + w;
    if s > 0xffff {
        proof {
            lemma_ones_fold_shift((s - 0xffff) as nat, 1);
        }
        s - 0xffff
    } else {
        s
    }
}

/// Folds the big-endian words of `data`, leaving out word `skipword` (unless it
/// is word 0), onto a folded starting sum.
pub(crate) fn fold_be_words(data: &[u8], skipword: usize, start: u32) -> (r: u32)
    requires
        start <= 0xffff,
    ensures
        r <= 0xffff,
        ones_fold(r as nat) == ones_fold(start as nat + be_words_sum(data@, skipword as int)),
{
    let len = data.len();
    let n = len / 2;
    let mut acc: u32 = start;
    let mut i: usize = 0;
    while i < n
        invariant
            len == data@.len(),
            n == data@.len() / 2,
            i <= n,
            acc <= 0xffff,
            ones_fold(acc as nat) == ones_fold(start as nat + words_sum(data@, skipword as int, i as int)),
        decreases n - i,
    {
        assert(2 * i + 1 < data@.len());
        if !(i == skipword && i != 0) {
            let w = data[2 * i] as u32 * 256 + data[2 * i + 1] as u32;
            let next = add_folded(acc, w);
            proof {
                lemma_ones_fold_same_add(acc as nat, start as nat + words_sum(data@, skipword as int, i as int), w as nat);
            }
            acc = next;
        }
        i += 1;
    }
    if len % 2 == 1 {
        let w = (data[len - 1] as u32) * 256;
        let next = add_folded(acc, w);
        proof {
            lemma_ones_fold_same_add(acc as nat, start as nat + words_sum(data@, skipword as int, n as int), w as nat);
        }
        acc = next;
    }
    acc
}

/// Calculates the Internet checksum of `data`. The two bytes starting at
/// `skipword * 2` are left out of the sum (unless `skipword` is 0): they are
/// taken to be the checksum field, which counts as zero.
pub fn checksum(data: &[u8], skipword: usize) -> (r: u16)
    ensures
        r as nat == internet_checksum(data@, skipword as int),
{
    let folded = fold_be_words(data, skipword, 0);
    let r = finalize_checksum(folded);
    proof {
        lemma_ones_fold_range(folded as nat);
        assert(ones_fold(folded as nat) == folded as nat);
    }
    r
}

/// Returns the sum of the data as big-endian 16-bit words, leaving out word
/// `skipword` (unless it is word 0). An odd trailing byte counts as the high
/// byte of a last word.
pub fn sum_be_words(d: &[u8], skipword: usize) -> (r: u32)
    requires
        d@.len() <= 0x20000,
    ensures
        r as nat == be_words_sum(d@, skipword as int),
{
    let len = d.len();
    let n = len / 2;
    let mut sum: u32 = 0;
    let mut i: usize = 0;
    while i < n
        invariant
            len == d@.len(),
            n == d@.len() / 2,
            n <= 0x10000,
            i <= n,
            sum as nat == words_sum(d@, skipword as int, i as int),
        decreases n - i,
    {
        proof {
            lemma_words_sum_bound(d@, skipword as int, i as int);
            assert(0xffff * i <= 0xffff * 0xffff) by (nonlinear_arith)
                requires
                    i < 0x10000,
            ;
        }
        assert(2 * i + 1 < d@.len());
        if !(i == skipword && i != 0) {
            sum = sum + (d[2 * i] as u32 * 256 + d[2 * i + 1] as u32);
        }
        i += 1;
    }
    if len & 1 != 0 {
        assert(len % 2 == 1) by (bit_vector)
            requires
                len & 1 != 0,
        ;
        proof {
            lemma_words_sum_bound(d@, skipword as int, n as int);
            assert(0xffff * n <= 0xffff * 0x10000) by (nonlinear_arith)
                requires
                    n <= 0x10000,
            ;
        }
        sum = sum + (d[len - 1] as u32) * 256;
    } else {
        assert(len % 2 == 0) by (bit_vector)
            requires
                len & 1 == 0,
        ;
    }
    sum
}

/// The ways in which raw data can fail to parse.
#[derive(Debug, Clone, Copy, PartialEq, Eq, Structural)]
pub enum ParseError {
    InvalidCharacter,
    InvalidLength,
    InvalidFormat,
    NotYetImplemented,
}

impl ParseError {
    /// A description of the error.
    pub fn get_msg(&self) -> (r: &'static str)
        ensures
            r@ == self.msg(),
    {
        match self {
            ParseError::InvalidCharacter => "invalid character encountered",
            ParseError::InvalidLength => "invalid length for the protocol format",
            ParseError::InvalidFormat => "invalid format of data for the protocol",
            ParseError::NotYetImplemented => "the implementation for parsing this type of packet has not yet been made",
        }
    }

    pub open spec fn msg(&self) -> Seq<char> {
        match self {
            ParseError::InvalidCharacter => "invalid character encountered"@,
            ParseError::InvalidLength => "invalid length for the protocol format"@,
            ParseError::InvalidFormat => "invalid format of data for the protocol"@,
            ParseError::NotYetImplemented => "the implementation for parsing this type of packet has not yet been made"@,
        }
    }
}

} // verus!

//! Base-83 integer codec: a bidirectional mapping between non-negative
//! integers and fixed-length strings over an 83-character alphabet, with the
//! most significant digit first.

use vstd::prelude::*;
use vstd::arithmetic::div_mod::lemma_fundamental_div_mod;
use vstd::arithmetic::div_mod::lemma_div_denominator;
use vstd::string::StrSliceExecFns;
use vstd::string::StringExecFns;

verus! {

/// The 83-character alphabet of the hash format: digits, upper- and
/// lower-case letters, and a fixed set of punctuation symbols. Its exact
/// content and order are part of the wire format.
pub open spec fn alphabet() -> Seq<char> {
    "0123456789ABCDEFGHIJKLMNOPQRSTUVWXYZabcdefghijklmnopqrstuvwxyz#$%*+,-.:;=?@[]^_{|}~"@
}

fn alphabet_str() -> (s: &'static str)
    ensures
        s@ == alphabet(),
        s@.len() == 83,
{
    let s = "0123456789ABCDEFGHIJKLMNOPQRSTUVWXYZabcdefghijklmnopqrstuvwxyz#$%*+,-.:;=?@[]^_{|}~";
    proof {
        reveal_strlit(
            "0123456789ABCDEFGHIJKLMNOPQRSTUVWXYZabcdefghijklmnopqrstuvwxyz#$%*+,-.:;=?@[]^_{|}~",
        );
    }
    s
}

/// The character belongs to the base-83 alphabet.
pub open spec fn is_b83_digit(c: char) -> bool {
    alphabet().contains(c)
}

/// Every character of the string belongs to the base-83 alphabet.
pub open spec fn all_b83_digits(s: Seq<char>) -> bool {
    forall|i: int| 0 <= i < s.len() ==> is_b83_digit(#[trigger] s[i])
}

/// The digit value of an alphabet character: its index in the alphabet.
pub open spec fn digit_of(c: char) -> int {
    alphabet().index_of(c)
}

/// The alphabet has 83 pairwise distinct characters.
pub proof fn lemma_alphabet_distinct()
    ensures
        alphabet().len() == 83,
        forall|i: int, j: int|
            0 <= i < j < alphabet().len() ==> alphabet()[i] != alphabet()[j],
{
    reveal_strlit(
        "0123456789ABCDEFGHIJKLMNOPQRSTUVWXYZabcdefghijklmnopqrstuvwxyz#$%*+,-.:;=?@[]^_{|}~",
    );
}

/// Alphabet characters decode to their own index.
pub proof fn lemma_digit_of_index(k: int)
    requires
        0 <= k < 83,
    ensures
        is_b83_digit(alphabet()[k]),
        digit_of(alphabet()[k]) == k,
{
    lemma_alphabet_distinct();
    assert(is_b83_digit(alphabet()[k]));
    let i = digit_of(alphabet()[k]);
    assert(0 <= i < 83 && alphabet()[i] == alphabet()[k]);
}

/// An alphabet character has a digit value in [0, 83) and maps back to itself.
pub proof fn lemma_digit_of_member(c: char)
    requires
        is_b83_digit(c),
    ensures
        0 <= digit_of(c) < 83,
        alphabet()[digit_of(c)] == c,
{
    lemma_alphabet_distinct();
    let i = digit_of(c);
    assert(0 <= i < 83 && alphabet()[i] == c);
}

/// The integer value of a base-83 numeral, most significant digit first.
pub open spec fn base83_val(s: Seq<char>) -> int
    decreases s.len(),
{
    if s.len() == 0 {
        0
    } else {
        base83_val(s.drop_last()) * 83 + digit_of(s.last())
    }
}

/// 83 raised to the given power.
pub open spec fn pow83(n: nat) -> nat
    decreases n,
{
    if n == 0 {
        1
    } else {
        83 * pow83((n - 1) as nat)
    }
}

/// The base-83 numeral of `n` with exactly `len` digits, most significant
/// first; high digits beyond `len` are discarded.
pub open spec fn enc83(n: nat, len: nat) -> Seq<char>
    decreases len,
{
    if len == 0 {
        Seq::empty()
    } else {
        enc83(n / 83, (len - 1) as nat).push(alphabet()[(n % 83) as int])
    }
}

pub proof fn lemma_pow83_pos(n: nat)
    ensures
        pow83(n) >= 1,
    decreases n,
{
    if n > 0 {
        lemma_pow83_pos((n - 1) as nat);
    }
}

pub proof fn lemma_base83_val_nonneg(s: Seq<char>)
    requires
        all_b83_digits(s),
    ensures
        base83_val(s) >= 0,
    decreases s.len(),
{
    if s.len() > 0 {
        assert(all_b83_digits(s.drop_last()));
        lemma_base83_val_nonneg(s.drop_last());
        lemma_digit_of_member(s.last());
    }
}

/// A numeral of `len` valid digits has a value below `83^len`.
pub proof fn lemma_base83_val_bound(s: Seq<char>)
    requires
        all_b83_digits(s),
    ensures
        0 <= base83_val(s) < pow83(s.len() as nat),
    decreases s.len(),
{
    if s.len() == 0 {
    } else {
        assert(all_b83_digits(s.drop_last()));
        lemma_base83_val_bound(s.drop_last());
        lemma_digit_of_member(s.last());
        assert(base83_val(s.drop_last()) * 83 <= (pow83((s.len() - 1) as nat) - 1) * 83)
            by (nonlinear_arith)
            requires
                base83_val(s.drop_last()) <= pow83((s.len() - 1) as nat) - 1,
        ;
    }
}

proof fn lemma_base83_val_take_le(s: Seq<char>, i: int)
    requires
        all_b83_digits(s),
        0 <= i <= s.len(),
    ensures
        base83_val(s.take(i)) <= base83_val(s),
        base83_val(s.take(i)) >= 0,
    decreases s.len() - i,
{
    assert(all_b83_digits(s.take(i)));
    lemma_base83_val_nonneg(s.take(i));
    if i < s.len() {
        lemma_base83_val_take_le(s, i + 1);
        assert(s.take(i + 1).drop_last() =~= s.take(i));
        assert(s.take(i + 1).last() == s[i]);
        lemma_digit_of_member(s[i]);
    } else {
        assert(s.take(i) =~= s);
    }
}

pub proof fn lemma_enc83_len(n: nat, len: nat)
    ensures
        enc83(n, len).len() == len,
    decreases len,
{
    if len > 0 {
        lemma_enc83_len(n / 83, (len - 1) as nat);
    }
}

/// Each character of the numeral is the alphabet character of the matching
/// base-83 digit of `n`.
proof fn lemma_enc83_index(n: nat, len: nat, i: int)
    requires
        0 <= i < len,
    ensures
        enc83(n, len)[i] == alphabet()[((n / pow83((len - 1 - i) as nat)) % 83) as int],
    decreases len,
{
    lemma_enc83_len(n / 83, (len - 1) as nat);
    if i == len - 1 {
        vstd::arithmetic::div_mod::lemma_div_basics(n as int);
        assert(pow83(0) == 1);
        assert(n / pow83(0) == n);
    } else {
        lemma_enc83_index(n / 83, (len - 1) as nat, i);
        lemma_pow83_pos((len - 2 - i) as nat);
        lemma_div_denominator(n as int, 83, pow83((len - 2 - i) as nat) as int);
        assert(83 * pow83((len - 2 - i) as nat) == pow83((len - 1 - i) as nat));
        assert((n / 83) / pow83((len - 2 - i) as nat) == n / pow83((len - 1 - i) as nat));
    }
}

/// Encoding then decoding recovers the integer: for every `n < 83^len`, the
/// `len`-digit base-83 numeral of `n` is a valid numeral whose value is `n`.
pub proof fn lemma_base83_round_trip(n: nat, len: nat)
    requires
        n < pow83(len),
    ensures
        enc83(n, len).len() == len,
        all_b83_digits(enc83(n, len)),
        base83_val(enc83(n, len)) == n,
    decreases len,
{
    lemma_enc83_len(n, len);
    if len == 0 {
        assert(enc83(n, len) =~= Seq::<char>::empty());
    } else {
        let inner = enc83(n / 83, (len - 1) as nat);
        lemma_fundamental_div_mod(n as int, 83);
        assert(n == 83 * (n as int / 83) + n as int % 83);
        assert(n / 83 < pow83((len - 1) as nat)) by {
            if n / 83 >= pow83((len - 1) as nat) {
                assert(n >= 83 * pow83((len - 1) as nat));
            }
        }
        lemma_base83_round_trip(n / 83, (len - 1) as nat);
        lemma_digit_of_index((n % 83) as int);
        let whole = inner.push(alphabet()[(n % 83) as int]);
        assert(whole.drop_last() =~= inner);
        assert(whole.last() == alphabet()[(n % 83) as int]);
        assert(forall|i: int| 0 <= i < whole.len() ==> is_b83_digit(#[trigger] whole[i])) by {
            assert(forall|i: int|
                0 <= i < whole.len() - 1 ==> whole[i] == inner[i] && is_b83_digit(
                    #[trigger] whole[i],
                ));
        }
        assert(base83_val(whole) == base83_val(inner) * 83 + digit_of(whole.last()));
    }
}

/// Looks up the digit value of an alphabet character by scanning the alphabet.
fn digit_value(c: char) -> (d: usize)
    requires
        is_b83_digit(c),
    ensures
        d == digit_of(c),
        d < 83,
{
    let a = alphabet_str();
    proof {
        lemma_alphabet_distinct();
        lemma_digit_of_member(c);
    }
    let mut i: usize = 0;
    while i < 83
        invariant
            i <= 83,
            a@ == alphabet(),
            a@.len() == 83,
            is_b83_digit(c),
            forall|j: int| 0 <= j < i ==> alphabet()[j] != c,
        decreases 83 - i,
    {
        if a.get_char(i) == c {
            proof {
                lemma_alphabet_distinct();
                lemma_digit_of_member(c);
            }
            return i;
        }
        i += 1;
    }
    proof {
        lemma_digit_of_member(c);
        assert(false);
    }
    0
}

/// Interprets the whole string as a base-83 numeral, most significant digit
/// first.
pub fn decode83(string: &str) -> (r: usize)
    requires
        all_b83_digits(string@),
        base83_val(string@) <= usize::MAX,
    ensures
        r == base83_val(string@),
{
    let len = string.unicode_len();
    let mut result: usize = 0;
    let mut pos: usize = 0;
    while pos < len
        invariant
            pos <= len,
            len == string@.len(),
            all_b83_digits(string@),
            base83_val(string@) <= usize::MAX,
            result == base83_val(string@.take(pos as int)),
        decreases len - pos,
    {
        let c = string.get_char(pos);
        let d = digit_value(c);
        proof {
            assert(string@.take(pos + 1).drop_last() =~= string@.take(pos as int));
            assert(string@.take(pos + 1).last() == string@[pos as int]);
            lemma_base83_val_take_le(string@, pos + 1);
        }
        result = result * 83 + d;
        pos += 1;
    }
    proof {
        assert(string@.take(len as int) =~= string@);
    }
    result
}

/// Relies on String::push: appends exactly the given character to the end of
/// the string.
#[verifier::external_body]
fn push_char(s: &mut String, c: char)
    ensures
        final(s)@ == old(s)@.push(c),
{
    s.push(c);
}

fn alphabet_char(i: usize) -> (c: char)
    requires
        i < 83,
    ensures
        c == alphabet()[i as int],
{
    let a = alphabet_str();
    a.get_char(i)
}

/// Emits exactly `length` characters: the base-83 numeral of `number`, most
/// significant digit first, zero-padded on the left.
pub fn encode83(number: usize, length: u32) -> (r: String)
    requires
        number < pow83(length as nat),
    ensures
        r@ == enc83(number as nat, length as nat),
        r@.len() == length,
        all_b83_digits(r@),
        base83_val(r@) == number,
{
    let mut digits: Vec<usize> = Vec::new();
    let mut rem = number;
    let mut t: u32 = 0;
    proof {
        vstd::arithmetic::div_mod::lemma_div_basics(number as int);
        assert(number as nat / pow83(0) == number);
    }
    while t < length
        invariant
            t <= length,
            digits@.len() == t,
            rem == number as nat / pow83(t as nat),
            forall|idx: int|
                0 <= idx < t ==> digits@[idx] == (number as nat / pow83(idx as nat)) % 83,
        decreases length - t,
    {
        digits.push(rem % 83);
        proof {
            lemma_pow83_pos(t as nat);
            lemma_div_denominator(number as int, pow83(t as nat) as int, 83);
            assert(pow83(t as nat) * 83 == 83 * pow83(t as nat));
            assert((number as nat / pow83(t as nat)) / 83 == number as nat / pow83(
                (t + 1) as nat,
            ));
        }
        rem = rem / 83;
        t += 1;
    }
    let mut result = String::new();
    let mut k: u32 = 0;
    proof {
        lemma_enc83_len(number as nat, length as nat);
    }
    while k < length
        invariant
            k <= length,
            digits@.len() == length,
            forall|idx: int|
                0 <= idx < length ==> digits@[idx] == (number as nat / pow83(idx as nat)) % 83,
            enc83(number as nat, length as nat).len() == length,
            result@.len() == k,
            forall|i: int| 0 <= i < k ==> result@[i] == enc83(number as nat, length as nat)[i],
        decreases length - k,
    {
        let pos = (length - 1 - k) as usize;
        let idx = digits[pos];
        let c = alphabet_char(idx);
        push_char(&mut result, c);
        proof {
            lemma_enc83_index(number as nat, length as nat, k as int);
        }
        k += 1;
    }
    proof {
        assert(result@ =~= enc83(number as nat, length as nat));
        lemma_base83_round_trip(number as nat, length as nat);
    }
    result
}

} // verus!

//! Composite storage keys: the decimal write time in seconds, an underscore,
//! the offer id, as in `1700000000_aB3k`.
//!
//! A key is written from a time and an id, and read back by cutting it at its
//! first underscore. A key that cannot be read is not an error: whether its
//! time denotes none or it has no underscore to be cut at, it is given the
//! greatest time there is, so that a listing shows it first.

use vstd::prelude::*;
use vstd::string::*;

verus! {

/// `String::push` appends the character to the end of the string and leaves
/// the rest as it was.
pub assume_specification[ String::push ](s: &mut String, ch: char)
    ensures
        final(s)@ == old(s)@.push(ch),
;

/// The two halves of a storage key, as mathematics sees them.
pub ghost struct KeyPartsView {
    pub epoch: u64,
    pub id: Seq<char>,
}

/// The two halves of a storage key: when the record was written, and the id
/// of the offer.
#[derive(Debug, Clone, PartialEq, Eq)]
pub struct KeyParts {
    pub epoch: u64,
    pub id: String,
}

impl View for KeyParts {
    type V = KeyPartsView;

    open spec fn view(&self) -> KeyPartsView {
        KeyPartsView { epoch: self.epoch, id: self.id@ }
    }
}

/// Whether `c` is one of the ten ASCII digits.
pub open spec fn is_digit(c: char) -> bool {
    '0' <= c && c <= '9'
}

/// The character that stands for the digit `d`.
pub open spec fn digit_char(d: nat) -> char
    recommends
        d < 10,
{
    (48 + d) as char
}

/// The digit that the character `c` stands for.
pub open spec fn digit_value(c: char) -> nat
    recommends
        is_digit(c),
{
    (c as nat - 48) as nat
}

/// The decimal numeral of `n`, without leading zeros.
pub open spec fn decimal(n: nat) -> Seq<char>
    decreases n,
{
    if n < 10 {
        seq![digit_char(n)]
    } else {
        decimal(n / 10).push(digit_char(n % 10))
    }
}

/// Whether `s` holds nothing but ASCII digits.
pub open spec fn all_digits(s: Seq<char>) -> bool {
    forall|i: int| 0 <= i < s.len() ==> is_digit(#[trigger] s[i])
}

/// The number that a run of digits denotes; leading zeros count for nothing.
pub open spec fn numeral_value(s: Seq<char>) -> nat
    decreases s.len(),
{
    if s.len() == 0 {
        0
    } else {
        10 * numeral_value(s.drop_last()) + digit_value(s.last())
    }
}

/// A numeral without the plus sign that may stand in front of it.
pub open spec fn unsigned_part(s: Seq<char>) -> Seq<char> {
    if s.len() > 0 && s[0] == '+' {
        s.drop_first()
    } else {
        s
    }
}

/// The time that a key's first half denotes: an optional plus sign, then one
/// or more decimal digits whose value fits in 64 bits. Anything else, the
/// empty text included, denotes no time.
pub open spec fn epoch_of(s: Seq<char>) -> Option<u64> {
    let digits = unsigned_part(s);
    if digits.len() > 0 && all_digits(digits) && numeral_value(digits) <= u64::MAX {
        Some(numeral_value(digits) as u64)
    } else {
        None
    }
}

/// The time under which a key's first half is ranked: what it denotes, or the
/// greatest time there is where it denotes none.
pub open spec fn epoch_or_latest(s: Seq<char>) -> u64 {
    match epoch_of(s) {
        Some(epoch) => epoch,
        None => u64::MAX,
    }
}

/// How many characters stand before the first underscore of `key`; the whole
/// length where it has none.
pub open spec fn prefix_len(key: Seq<char>) -> nat
    decreases key.len(),
{
    if key.len() == 0 || key[0] == '_' {
        0
    } else {
        1 + prefix_len(key.drop_first())
    }
}

/// The id given to a key that has no underscore.
pub open spec fn unsplit_id() -> Seq<char> {
    seq!['f', 'a', 'i', 'l']
}

/// The key for a record written at `epoch` for the offer `id`.
pub open spec fn composite_key(epoch: u64, id: Seq<char>) -> Seq<char> {
    decimal(epoch as nat) + seq!['_'] + id
}

/// What a key is read as. It is cut at its first underscore: what stands
/// before is the time, what stands behind is the id, further underscores
/// included. A key without an underscore is read as the greatest time there
/// is and the id `fail`.
pub open spec fn decode(key: Seq<char>) -> KeyPartsView {
    let p = prefix_len(key) as int;
    if p < key.len() {
        KeyPartsView { epoch: epoch_or_latest(key.take(p)), id: key.skip(p + 1) }
    } else {
        KeyPartsView { epoch: u64::MAX, id: unsplit_id() }
    }
}

/// Whether a key can be read: it has an underscore, and what stands before
/// its first underscore denotes a time.
pub open spec fn readable(key: Seq<char>) -> bool {
    prefix_len(key) < key.len() && epoch_of(key.take(prefix_len(key) as int)) is Some
}

/// The key that the two halves make.
pub open spec fn encode(parts: KeyPartsView) -> Seq<char> {
    composite_key(parts.epoch, parts.id)
}

/// A place with no underscore before it, and with an underscore at it or
/// the end of the key, is where the first half of the key ends.
proof fn lemma_prefix_len(key: Seq<char>, p: int)
    requires
        0 <= p <= key.len(),
        forall|j: int| 0 <= j < p ==> key[j] != '_',
        p < key.len() ==> key[p] == '_',
    ensures
        prefix_len(key) == p,
    decreases p,
{
    if p > 0 {
        let rest = key.drop_first();
        assert forall|j: int| 0 <= j < p - 1 implies rest[j] != '_' by {
            assert(rest[j] == key[j + 1]);
        }
        lemma_prefix_len(rest, p - 1);
    }
}

proof fn lemma_decimal_digits(n: nat)
    ensures
        decimal(n).len() > 0,
        all_digits(decimal(n)),
        numeral_value(decimal(n)) == n,
        !decimal(n).contains('_'),
    decreases n,
{
    let d = decimal(n);
    if n < 10 {
        assert(numeral_value(d) == 10 * numeral_value(d.drop_last()) + digit_value(d.last()));
    } else {
        lemma_decimal_digits(n / 10);
        assert(d.drop_last() =~= decimal(n / 10));
    }
    assert forall|i: int| 0 <= i < d.len() implies d[i] != '_' by {
        assert(is_digit(d[i]));
    }
}

proof fn lemma_numeral_value_grows(s: Seq<char>, k: int)
    requires
        0 <= k <= s.len(),
    ensures
        numeral_value(s.take(k)) <= numeral_value(s),
    decreases s.len() - k,
{
    if k < s.len() {
        lemma_numeral_value_grows(s, k + 1);
        assert(s.take(k + 1).drop_last() =~= s.take(k));
    } else {
        assert(s.take(k) =~= s);
    }
}

/// A key that cannot be read, for want of an underscore or of a time before
/// it, is read as written at the greatest time there is; and a key that was
/// written from a time and an id can be read.
pub proof fn law_unreadable_key_is_latest(key: Seq<char>, epoch: u64, id: Seq<char>)
    ensures
        !readable(key) ==> decode(key).epoch == u64::MAX,
        readable(composite_key(epoch, id)),
{
    let numeral = decimal(epoch as nat);
    let written = composite_key(epoch, id);
    let p = numeral.len() as int;
    lemma_decimal_digits(epoch as nat);
    assert forall|j: int| 0 <= j < p implies written[j] != '_' by {
        assert(numeral.contains(written[j]));
    }
    lemma_prefix_len(written, p);
    assert(written.take(p) =~= numeral);
}

/// A key that was written from a time and an id is read back as that time and
/// that id, whatever the id holds: the numeral has no underscore of its own,
/// so the cut falls behind it.
pub proof fn law_decode_composite_key(epoch: u64, id: Seq<char>)
    ensures
        decode(composite_key(epoch, id)) == (KeyPartsView { epoch, id }),
        encode(decode(composite_key(epoch, id))) == composite_key(epoch, id),
{
    let numeral = decimal(epoch as nat);
    let key = composite_key(epoch, id);
    let p = numeral.len() as int;
    lemma_decimal_digits(epoch as nat);
    assert forall|j: int| 0 <= j < p implies key[j] != '_' by {
        assert(numeral.contains(key[j]));
    }
    lemma_prefix_len(key, p);
    assert(key.take(p) =~= numeral);
    assert(key.skip(p + 1) =~= id);
}

fn push_decimal(out: &mut String, n: u64)
    ensures
        final(out)@ == old(out)@ + decimal(n as nat),
    decreases n,
{
    if n >= 10 {
        push_decimal(out, n / 10);
    }
    let d: u8 = (n % 10) as u8;
    let c: char = (48u8 + d) as char;
    out.push(c);
}

/// Writes the key for a record written at `epoch` for the offer `id`.
pub fn encode_key(epoch: u64, id: &str) -> (key: String)
    ensures
        key@ == composite_key(epoch, id@),
{
    let mut key = String::new();
    push_decimal(&mut key, epoch);
    key.push('_');
    key.append(id);
    key
}

/// Reads the time that `text` denotes, if it denotes one.
pub fn parse_epoch(text: &str) -> (epoch: Option<u64>)
    ensures
        epoch == epoch_of(text@),
{
    broadcast use vstd::string::group_string_axioms;

    let len: usize = text.unicode_len();
    let ghost digits = unsigned_part(text@);
    let ghost sign: int = text@.len() - digits.len();
    let mut i: usize = 0;
    let mut start: usize = 0;
    let mut acc: u64 = 0;
    for c in it: text.chars()
        invariant
            it.seq() == text@,
            len == text@.len(),
            digits == unsigned_part(text@),
            sign == text@.len() - digits.len(),
            0 <= sign <= 1,
            i == it.index(),
            i == 0 ==> start == 0,
            i > 0 ==> start == sign,
            start <= i,
            all_digits(digits.take(i - start)),
            acc == numeral_value(digits.take(i - start)),
    {
        if i == 0 && c == '+' {
            start = 1;
        } else {
            let ghost k: int = i - sign;
            proof {
                assert(digits[k] == c);
                assert(digits.take(k + 1).drop_last() =~= digits.take(k));
            }
            if !(c >= '0' && c <= '9') {
                return None;
            }
            let d: u64 = (c as u8 - 48u8) as u64;
            proof {
                lemma_numeral_value_grows(digits, k + 1);
            }
            let tens = match acc.checked_mul(10) {
                Some(tens) => tens,
                None => {
                    return None;
                },
            };
            acc = match tens.checked_add(d) {
                Some(sum) => sum,
                None => {
                    return None;
                },
            };
            proof {
                assert forall|j: int| 0 <= j < k + 1 implies is_digit(
                    #[trigger] digits.take(k + 1)[j],
                ) by {
                    if j < k {
                        assert(digits.take(k + 1)[j] == digits.take(k)[j]);
                    }
                }
            }
        }
        i = i + 1;
    }
    proof {
        assert(digits.take(i - start) =~= digits);
    }
    if i == start {
        None
    } else {
        Some(acc)
    }
}

/// Finds the first underscore of `key`.
fn find_underscore(key: &str) -> (at: Option<usize>)
    ensures
        match at {
            Some(p) => p == prefix_len(key@) && p < key@.len(),
            None => prefix_len(key@) == key@.len(),
        },
{
    broadcast use vstd::string::group_string_axioms;

    let len: usize = key.unicode_len();
    let mut i: usize = 0;
    for c in it: key.chars()
        invariant
            it.seq() == key@,
            len == key@.len(),
            i == it.index(),
            forall|j: int| 0 <= j < i ==> key@[j] != '_',
    {
        if c == '_' {
            proof {
                lemma_prefix_len(key@, i as int);
            }
            return Some(i);
        }
        i = i + 1;
    }
    proof {
        lemma_prefix_len(key@, len as int);
    }
    None
}

/// Reads a key as a time and an id.
pub fn decode_key(key: &str) -> (parts: KeyParts)
    ensures
        parts@ == decode(key@),
{
    let len: usize = key.unicode_len();
    match find_underscore(key) {
        Some(p) => {
            let epoch = match parse_epoch(key.substring_char(0, p)) {
                Some(epoch) => epoch,
                None => u64::MAX,
            };
            let id = key.substring_char(p + 1, len).to_owned();
            KeyParts { epoch, id }
        },
        None => {
            let id = "fail".to_owned();
            proof {
                reveal_strlit("fail");
                assert(id@ =~= unsplit_id());
            }
            KeyParts { epoch: u64::MAX, id }
        },
    }
}

} // verus!

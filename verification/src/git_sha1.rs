//! The Git object envelope: `<kind> <decimal size>\0<raw text>`.
//!
//! Hashing the envelope with SHA-1 gives the Git identity of the object, so
//! the layout is fixed to the byte.

use vstd::prelude::*;
use vstd::slice::slice_subrange;
use vstd::string::StringSliceAdditionalSpecFns;

verus! {

/// Why a byte string is not a Git object envelope.
#[derive(Clone, Copy, Debug, PartialEq, Eq, Structural)]
pub enum GitSha1Error {
    /// No space ends the kind.
    NoSpaceSeparator,
    /// No NUL byte ends the size.
    NoNulSeparator,
    /// The size is not a decimal number that fits a `usize`.
    InvalidSize,
    /// The size differs from the length of the raw text.
    WrongSize,
}

impl GitSha1Error {
    /// The message that belongs to the error.
    pub fn message(&self) -> (text: &'static str)
        ensures
            text@ == match *self {
                GitSha1Error::NoSpaceSeparator => "invalid git object - no space separator"@,
                GitSha1Error::NoNulSeparator => "invalid git object - no NUL separator"@,
                GitSha1Error::InvalidSize => "invalid git object - invalid size"@,
                GitSha1Error::WrongSize => "invalid git object - wrong size"@,
            },
    {
        match self {
            GitSha1Error::NoSpaceSeparator => "invalid git object - no space separator",
            GitSha1Error::NoNulSeparator => "invalid git object - no NUL separator",
            GitSha1Error::InvalidSize => "invalid git object - invalid size",
            GitSha1Error::WrongSize => "invalid git object - wrong size",
        }
    }
}

/// The ASCII digit of a number below ten.
pub open spec fn digit_byte(d: nat) -> u8 {
    (48 + d) as u8
}

/// The decimal digits of `n`, most significant first, without leading zeros.
pub open spec fn decimal_digits(n: nat) -> Seq<u8>
    decreases n,
{
    if n < 10 {
        seq![digit_byte(n)]
    } else {
        decimal_digits(n / 10).push(digit_byte(n % 10))
    }
}

/// The decimal digits of `n`, least significant first.
pub open spec fn decimal_digits_reversed(n: nat) -> Seq<u8>
    decreases n,
{
    if n < 10 {
        seq![digit_byte(n)]
    } else {
        seq![digit_byte(n % 10)] + decimal_digits_reversed(n / 10)
    }
}

/// Every byte of `s` is an ASCII digit.
pub open spec fn is_digits(s: Seq<u8>) -> bool {
    forall|i: int| 0 <= i < s.len() ==> 48 <= #[trigger] s[i] <= 57
}

/// The number that the digits `s` write in base ten.
pub open spec fn decimal_value(s: Seq<u8>) -> nat
    decreases s.len(),
{
    if s.len() == 0 {
        0
    } else {
        decimal_value(s.drop_last()) * 10 + (s.last() - 48) as nat
    }
}

/// The size field without the plus sign that may lead it.
pub open spec fn unsigned_part(s: Seq<u8>) -> Seq<u8> {
    if s.len() > 0 && s[0] == 43 {
        s.subrange(1, s.len() as int)
    } else {
        s
    }
}

/// The number that a size field stands for: an optional `+`, then one or more
/// digits whose value fits a `usize`.
pub open spec fn parsed_size(s: Seq<u8>) -> Option<nat> {
    let d = unsigned_part(s);
    if d.len() > 0 && is_digits(d) && decimal_value(d) <= usize::MAX {
        Some(decimal_value(d))
    } else {
        None
    }
}

/// `i` is the place of the first `sep` in `s`.
pub open spec fn is_first(s: Seq<u8>, sep: u8, i: int) -> bool {
    &&& 0 <= i < s.len()
    &&& s[i] == sep
    &&& forall|j: int| 0 <= j < i ==> s[j] != sep
}

/// What stands before and after the first `sep` in `s`.
pub open spec fn split_at_first(s: Seq<u8>, sep: u8) -> Option<(Seq<u8>, Seq<u8>)> {
    if s.contains(sep) {
        let i = choose|i: int| is_first(s, sep, i);
        Some((s.subrange(0, i), s.subrange(i + 1, s.len() as int)))
    } else {
        None
    }
}

/// The envelope of `raw_text` as an object of the given kind.
pub open spec fn serialized(raw_text: Seq<u8>, kind: Seq<u8>) -> Seq<u8> {
    kind + seq![32u8] + decimal_digits(raw_text.len()) + seq![0u8] + raw_text
}

/// The raw text and the kind that an envelope holds, in this order.
pub open spec fn deserialized(s: Seq<u8>) -> Result<(Seq<u8>, Seq<u8>), GitSha1Error> {
    match split_at_first(s, 32) {
        None => Err(GitSha1Error::NoSpaceSeparator),
        Some((kind, rest)) => match split_at_first(rest, 0) {
            None => Err(GitSha1Error::NoNulSeparator),
            Some((size, raw_text)) => match parsed_size(size) {
                None => Err(GitSha1Error::InvalidSize),
                Some(n) => if n == raw_text.len() {
                    Ok((raw_text, kind))
                } else {
                    Err(GitSha1Error::WrongSize)
                },
            },
        },
    }
}

/// The first place of `sep` decides the split.
pub proof fn lemma_split_at_first(s: Seq<u8>, sep: u8, i: int)
    requires
        is_first(s, sep, i),
    ensures
        split_at_first(s, sep) == Some((s.subrange(0, i), s.subrange(i + 1, s.len() as int))),
{
    assert(s.contains(sep));
    let k = choose|k: int| is_first(s, sep, k);
    assert(is_first(s, sep, k));
    assert(k == i) by {
        if k < i {
            assert(s[k] != sep);
        }
        if i < k {
            assert(s[i] != sep);
        }
    }
}

/// Splits `data` at the first `sep`; the separator itself is dropped.
pub fn split_once(data: &[u8], sep: u8) -> (parts: Option<(&[u8], &[u8])>)
    ensures
        match parts {
            None => !data@.contains(sep),
            Some((head, tail)) => {
                &&& is_first(data@, sep, head@.len() as int)
                &&& head@ == data@.subrange(0, head@.len() as int)
                &&& tail@ == data@.subrange(head@.len() as int + 1, data@.len() as int)
            },
        },
        parts.is_some() ==> split_at_first(data@, sep) == Some(
            (parts.unwrap().0@, parts.unwrap().1@),
        ),
        parts.is_none() ==> split_at_first(data@, sep).is_none(),
{
    let mut i: usize = 0;
    while i < data.len()
        invariant
            i <= data@.len(),
            forall|j: int| 0 <= j < i ==> data@[j] != sep,
        decreases data@.len() - i,
    {
        if data[i] == sep {
            let head = slice_subrange(data, 0, i);
            let tail = slice_subrange(data, i + 1, data.len());
            proof {
                lemma_split_at_first(data@, sep, i as int);
            }
            return Some((head, tail));
        }
        i += 1;
    }
    None
}

/// A number's digits read the same from either end, reversed.
pub proof fn lemma_decimal_digits_reversed(n: nat)
    ensures
        decimal_digits(n) =~= decimal_digits_reversed(n).reverse(),
        decimal_digits(n).len() == decimal_digits_reversed(n).len(),
        decimal_digits(n).len() >= 1,
    decreases n,
{
    if n >= 10 {
        lemma_decimal_digits_reversed(n / 10);
        let low = decimal_digits_reversed(n / 10);
        let all = decimal_digits_reversed(n);
        assert(all =~= seq![digit_byte(n % 10)] + low);
        assert forall|i: int| 0 <= i < all.len() implies decimal_digits(n)[i] == all.reverse()[i] by {
            if i < low.len() {
                assert(low.reverse()[i] == low[low.len() - 1 - i]);
                assert(all[all.len() - 1 - i] == low[low.len() - 1 - i]);
            }
        }
    }
}

/// The digits of `n` are digits, and they write `n`.
pub proof fn lemma_decimal_digits_value(n: nat)
    ensures
        is_digits(decimal_digits(n)),
        decimal_digits(n).len() >= 1,
        decimal_value(decimal_digits(n)) == n,
    decreases n,
{
    let d = decimal_digits(n);
    if n < 10 {
        assert(d.drop_last() =~= Seq::<u8>::empty());
        assert(decimal_value(d.drop_last()) == 0);
    } else {
        lemma_decimal_digits_value(n / 10);
        assert(d.drop_last() =~= decimal_digits(n / 10));
    }
}

/// The digits written so far never stand for more than all of them.
pub proof fn lemma_decimal_value_prefix(s: Seq<u8>, k: int)
    requires
        0 <= k <= s.len(),
    ensures
        decimal_value(s.subrange(0, k)) <= decimal_value(s),
    decreases s.len(),
{
    if k == s.len() {
        assert(s.subrange(0, k) =~= s);
    } else {
        assert(s.subrange(0, k) =~= s.drop_last().subrange(0, k));
        lemma_decimal_value_prefix(s.drop_last(), k);
    }
}

/// Reads a size field as `usize::from_str` reads its text.
fn parse_size(s: &[u8]) -> (size: Option<usize>)
    ensures
        match size {
            Some(n) => parsed_size(s@) == Some(n as nat),
            None => parsed_size(s@).is_none(),
        },
{
    let start: usize = if s.len() > 0 && s[0] == 43 {
        1
    } else {
        0
    };
    if start == s.len() {
        return None;
    }
    let ghost d = unsigned_part(s@);
    assert(d =~= s@.subrange(start as int, s@.len() as int));
    let mut value: usize = 0;
    let mut i: usize = start;
    assert(d.subrange(0, 0) =~= Seq::<u8>::empty());
    while i < s.len()
        invariant
            start <= i <= s@.len(),
            d == s@.subrange(start as int, s@.len() as int),
            d == unsigned_part(s@),
            is_digits(d.subrange(0, i - start)),
            value == decimal_value(d.subrange(0, i - start)),
        decreases s@.len() - i,
    {
        let b: u8 = s[i];
        if b < 48 || b > 57 {
            assert(d[i - start] == b);
            return None;
        }
        let digit: usize = (b - 48) as usize;
        let ghost next = d.subrange(0, i + 1 - start);
        proof {
            assert(next.drop_last() =~= d.subrange(0, i - start));
            assert(next.last() == b);
            assert(decimal_value(next) == value * 10 + digit);
            lemma_decimal_value_prefix(d, i + 1 - start);
        }
        if value > (usize::MAX - digit) / 10 {
            return None;
        }
        value = value * 10 + digit;
        i += 1;
    }
    assert(d.subrange(0, i - start) =~= d);
    Some(value)
}

/// Appends the decimal digits of `n` to `out`.
fn push_decimal(out: &mut Vec<u8>, n: usize)
    ensures
        final(out)@ == old(out)@ + decimal_digits(n as nat),
{
    let mut rev: Vec<u8> = Vec::new();
    rev.push(48 + (n % 10) as u8);
    let mut m: usize = n / 10;
    while m > 0
        invariant
            rev@.len() >= 1,
            decimal_digits_reversed(n as nat) == if m == 0 {
                rev@
            } else {
                rev@ + decimal_digits_reversed(m as nat)
            },
        decreases m,
    {
        let ghost before = rev@;
        rev.push(48 + (m % 10) as u8);
        proof {
            let low = decimal_digits_reversed(m as nat);
            if m >= 10 {
                assert(before + low =~= rev@ + decimal_digits_reversed((m / 10) as nat));
            } else {
                assert(before + low =~= rev@);
            }
        }
        m = m / 10;
    }
    let ghost start = out@;
    let mut i: usize = rev.len();
    while i > 0
        invariant
            i <= rev@.len(),
            out@ == start + Seq::new((rev@.len() - i) as nat, |j: int| rev@[rev@.len() - 1 - j]),
        decreases i,
    {
        i -= 1;
        out.push(rev[i]);
        assert(out@ =~= start + Seq::new(
            (rev@.len() - i) as nat,
            |j: int| rev@[rev@.len() - 1 - j],
        ));
    }
    proof {
        lemma_decimal_digits_reversed(n as nat);
        assert(out@ =~= start + rev@.reverse());
    }
}

/// Appends `bytes` to `out`.
fn push_bytes(out: &mut Vec<u8>, bytes: &[u8])
    ensures
        final(out)@ == old(out)@ + bytes@,
{
    let ghost start = out@;
    let mut i: usize = 0;
    while i < bytes.len()
        invariant
            i <= bytes@.len(),
            out@ == start + bytes@.subrange(0, i as int),
        decreases bytes@.len() - i,
    {
        out.push(bytes[i]);
        assert(out@ =~= start + bytes@.subrange(0, i + 1));
        i += 1;
    }
    assert(bytes@.subrange(0, i as int) =~= bytes@);
}

/// Wraps `raw_text` in the Git envelope, so that the SHA-1 of the returned
/// bytes is the Git identity of the object.
///
/// `kind` is `commit`, `tree` or `blob`.
pub fn git_sha1_serialize(raw_text: &[u8], kind: &str) -> (result: Vec<u8>)
    ensures
        result@ == serialized(raw_text@, kind.spec_bytes()),
{
    let mut result: Vec<u8> = Vec::new();
    git_sha1_serialize_write(raw_text, kind, &mut result);
    assert(Seq::<u8>::empty() + serialized(raw_text@, kind.spec_bytes()) =~= serialized(
        raw_text@,
        kind.spec_bytes(),
    ));
    result
}

/// Appends the Git envelope of `raw_text` to `out`, without building it apart.
pub fn git_sha1_serialize_write(raw_text: &[u8], kind: &str, out: &mut Vec<u8>)
    ensures
        final(out)@ == old(out)@ + serialized(raw_text@, kind.spec_bytes()),
{
    let size: usize = raw_text.len();
    push_bytes(out, kind.as_bytes());
    out.push(32);
    push_decimal(out, size);
    out.push(0);
    push_bytes(out, raw_text);
    assert(out@ =~= old(out)@ + serialized(raw_text@, kind.spec_bytes()));
}

/// Takes an envelope apart: returns the raw text and the kind, in this order.
///
/// The size must be the length of the raw text. It is read as Rust reads an
/// unsigned number: a leading `+` and leading zeros are let through.
pub fn git_sha1_deserialize<'a>(serialized: &'a [u8]) -> (result: Result<
    (&'a [u8], &'a [u8]),
    GitSha1Error,
>)
    ensures
        match result {
            Ok((raw_text, kind)) => deserialized(serialized@) == Ok::<
                (Seq<u8>, Seq<u8>),
                GitSha1Error,
            >((raw_text@, kind@)),
            Err(e) => deserialized(serialized@) == Err::<(Seq<u8>, Seq<u8>), GitSha1Error>(e),
        },
{
    let (kind, rest) = match split_once(serialized, 32) {
        Some(parts) => parts,
        None => {
            return Err(GitSha1Error::NoSpaceSeparator);
        },
    };
    let (size_str, raw_text) = match split_once(rest, 0) {
        Some(parts) => parts,
        None => {
            return Err(GitSha1Error::NoNulSeparator);
        },
    };
    let size: usize = match parse_size(size_str) {
        Some(size) => size,
        None => {
            return Err(GitSha1Error::InvalidSize);
        },
    };
    if size != raw_text.len() {
        return Err(GitSha1Error::WrongSize);
    }
    Ok((raw_text, kind))
}

/// Taking apart what `git_sha1_serialize` built gives back the raw text and
/// the kind, whenever the kind holds no space.
pub proof fn lemma_deserialize_serialized(raw_text: Seq<u8>, kind: Seq<u8>)
    requires
        !kind.contains(32),
        raw_text.len() <= usize::MAX,
    ensures
        deserialized(serialized(raw_text, kind)) == Ok::<(Seq<u8>, Seq<u8>), GitSha1Error>(
            (raw_text, kind),
        ),
{
    let digits = decimal_digits(raw_text.len());
    let whole = serialized(raw_text, kind);
    let rest = digits + seq![0u8] + raw_text;
    lemma_decimal_digits_value(raw_text.len());
    assert(is_first(whole, 32, kind.len() as int)) by {
        assert forall|j: int| 0 <= j < kind.len() implies whole[j] != 32 by {
            assert(whole[j] == kind[j]);
            assert(kind.contains(kind[j]));
        }
    }
    lemma_split_at_first(whole, 32, kind.len() as int);
    assert(whole.subrange(0, kind.len() as int) =~= kind);
    assert(whole.subrange(kind.len() as int + 1, whole.len() as int) =~= rest);
    assert(is_first(rest, 0, digits.len() as int)) by {
        assert forall|j: int| 0 <= j < digits.len() implies rest[j] != 0 by {
            assert(rest[j] == digits[j]);
        }
    }
    lemma_split_at_first(rest, 0, digits.len() as int);
    assert(rest.subrange(0, digits.len() as int) =~= digits);
    assert(rest.subrange(digits.len() as int + 1, rest.len() as int) =~= raw_text);
    assert(unsigned_part(digits) == digits) by {
        assert(48 <= digits[0] <= 57);
    }
}

} // verus!

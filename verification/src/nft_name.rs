use vstd::prelude::*;
use crate::error::NftVoterError;

verus! {

broadcast use vstd::string::group_string_axioms;

/// An ASCII decimal digit, `'0'` to `'9'`.
pub open spec fn is_ascii_digit(c: char) -> bool {
    '0' <= c && c <= '9'
}

/// The number that an ASCII digit stands for.
pub open spec fn digit_value(c: char) -> int {
    c as int - '0' as int
}

/// The number that a string of ASCII digits spells in base ten, most
/// significant digit first (leading zeros allowed).
pub open spec fn decimal_value(digits: Seq<char>) -> int
    decreases digits.len(),
{
    if digits.len() == 0 {
        0
    } else {
        decimal_value(digits.drop_last()) * 10 + digit_value(digits.last())
    }
}

/// `name[start..end]` is the first run of ASCII digits in `name`, and a
/// character that is not a digit follows it.
pub open spec fn is_index_run(name: Seq<char>, start: int, end: int) -> bool {
    &&& 0 <= start < end < name.len()
    &&& forall|k: int| 0 <= k < start ==> !is_ascii_digit(#[trigger] name[k])
    &&& forall|k: int| start <= k < end ==> is_ascii_digit(#[trigger] name[k])
    &&& !is_ascii_digit(name[end])
}

/// The NFT index that a name carries: the first run of digits in it, read in
/// base ten. The name is refused when it holds no digit, when nothing but
/// digits follows its first digit, or when the number does not fit in a `u64`.
pub open spec fn nft_index_of(name: Seq<char>) -> Result<u64, NftVoterError> {
    if exists|start: int, end: int| is_index_run(name, start, end) {
        let (start, end) = choose|start: int, end: int| is_index_run(name, start, end);
        let value = decimal_value(name.subrange(start, end));
        if value <= u64::MAX {
            Ok(value as u64)
        } else {
            Err(NftVoterError::InvalidMetadataName)
        }
    } else {
        Err(NftVoterError::InvalidMetadataName)
    }
}

/// A name has at most one first digit run.
proof fn lemma_index_run_unique(name: Seq<char>, s1: int, e1: int, s2: int, e2: int)
    requires
        is_index_run(name, s1, e1),
        is_index_run(name, s2, e2),
    ensures
        s1 == s2,
        e1 == e2,
{
    if s1 < s2 {
        assert(is_ascii_digit(name[s1]));
    }
    if s2 < s1 {
        assert(is_ascii_digit(name[s2]));
    }
    if e1 < e2 {
        assert(is_ascii_digit(name[e1]));
    }
    if e2 < e1 {
        assert(is_ascii_digit(name[e2]));
    }
}

/// The value of a digit run is at least that of any of its prefixes.
proof fn lemma_decimal_prefix_le(name: Seq<char>, start: int, mid: int, end: int)
    requires
        0 <= start <= mid <= end <= name.len(),
        forall|k: int| start <= k < end ==> is_ascii_digit(#[trigger] name[k]),
    ensures
        0 <= decimal_value(name.subrange(start, mid)) <= decimal_value(name.subrange(start, end)),
    decreases end - start,
{
    if end > start {
        assert(name.subrange(start, end).drop_last() =~= name.subrange(start, end - 1));
        assert(is_ascii_digit(name[end - 1]));
        if mid < end {
            lemma_decimal_prefix_le(name, start, mid, end - 1);
        } else {
            lemma_decimal_prefix_le(name, start, mid - 1, end - 1);
        }
    }
}

/// Reads the NFT index out of an NFT's name, as `nft_index_of` says.
pub fn index_from_name(name: &str) -> (index: Result<u64, NftVoterError>)
    ensures
        index == nft_index_of(name@),
{
    let ghost s = name@;
    let mut in_run = false;
    let ghost mut start: int = 0;
    let mut value: u64 = 0;
    for c in iter: name.chars()
        invariant
            iter.seq() == s,
            s == name@,
            0 <= start <= iter.index() <= s.len(),
            !in_run ==> forall|k: int| 0 <= k < iter.index() ==> !is_ascii_digit(#[trigger] s[k]),
            in_run ==> start < iter.index(),
            in_run ==> forall|k: int| 0 <= k < start ==> !is_ascii_digit(#[trigger] s[k]),
            in_run ==> forall|k: int| start <= k < iter.index() ==> is_ascii_digit(#[trigger] s[k]),
            in_run ==> value == decimal_value(s.subrange(start, iter.index() as int)),
    {
        let ghost k = iter.index();
        assert(c == s[k]);
        let digit = '0' <= c && c <= '9';
        if digit {
            let d = (c as u32 - '0' as u32) as u64;
            if !in_run {
                proof {
                    start = k;
                }
                in_run = true;
                value = 0;
                assert(s.subrange(start, k) =~= Seq::<char>::empty());
            }
            assert(s.subrange(start, k + 1).drop_last() =~= s.subrange(start, k));
            assert(s.subrange(start, k + 1).last() == c);
            assert(d == digit_value(c));
            assert(value == decimal_value(s.subrange(start, k)));
            assert(decimal_value(s.subrange(start, k + 1)) == value * 10 + d);
            match value.checked_mul(10) {
                Some(v10) => match v10.checked_add(d) {
                    Some(v) => {
                        value = v;
                    },
                    None => {
                        proof {
                            lemma_overflow_refused(s, start, k + 1);
                        }
                        return Err(NftVoterError::InvalidMetadataName);
                    },
                },
                None => {
                    proof {
                        lemma_overflow_refused(s, start, k + 1);
                    }
                    return Err(NftVoterError::InvalidMetadataName);
                },
            }
        } else if in_run {
            proof {
                assert(is_index_run(s, start, k));
                let (a, b) = choose|a: int, b: int| is_index_run(s, a, b);
                lemma_index_run_unique(s, start, k, a, b);
            }
            return Ok(value);
        }
    }
    proof {
        if exists|a: int, b: int| is_index_run(s, a, b) {
            let (a, b) = choose|a: int, b: int| is_index_run(s, a, b);
            assert(is_ascii_digit(s[a]));
            if in_run {
                assert(a == start) by {
                    if a < start {
                        assert(!is_ascii_digit(s[a]));
                    }
                    if start < a {
                        assert(is_ascii_digit(s[start]));
                    }
                }
                assert(is_ascii_digit(s[b]));
            }
        }
    }
    Err(NftVoterError::InvalidMetadataName)
}

/// Once the digits read so far from the first digit run of `name` spell a
/// number past `u64::MAX`, the name is refused, whatever follows.
proof fn lemma_overflow_refused(name: Seq<char>, start: int, upto: int)
    requires
        0 <= start < upto <= name.len(),
        forall|k: int| 0 <= k < start ==> !is_ascii_digit(#[trigger] name[k]),
        forall|k: int| start <= k < upto ==> is_ascii_digit(#[trigger] name[k]),
        decimal_value(name.subrange(start, upto)) > u64::MAX,
    ensures
        nft_index_of(name) == Err::<u64, NftVoterError>(NftVoterError::InvalidMetadataName),
{
    if exists|a: int, b: int| is_index_run(name, a, b) {
        let (a, b) = choose|a: int, b: int| is_index_run(name, a, b);
        assert(is_ascii_digit(name[a]));
        assert(a == start) by {
            if a < start {
                assert(!is_ascii_digit(name[a]));
            }
            if start < a {
                assert(is_ascii_digit(name[start]));
            }
        }
        if b < upto {
            assert(is_ascii_digit(name[b]));
        }
        lemma_decimal_prefix_le(name, start, upto, b);
    }
}

/// Reads the NFT index out of a name given as a `String`.
pub fn index_from_nft_literal_name(full_nft_name: String) -> (index: Result<u64, NftVoterError>)
    ensures
        index == nft_index_of(full_nft_name@),
{
    index_from_name(full_nft_name.as_str())
}

/// A name made of characters that are not digits, then digits, then a
/// character that is not a digit and anything after it, carries the number
/// that the digits spell, where it fits in a `u64`.
pub proof fn lemma_index_of_name_with_number(prefix: Seq<char>, digits: Seq<char>, suffix: Seq<char>)
    requires
        forall|k: int| 0 <= k < prefix.len() ==> !is_ascii_digit(#[trigger] prefix[k]),
        digits.len() > 0,
        forall|k: int| 0 <= k < digits.len() ==> is_ascii_digit(#[trigger] digits[k]),
        suffix.len() > 0,
        !is_ascii_digit(suffix[0]),
        decimal_value(digits) <= u64::MAX,
    ensures
        nft_index_of(prefix + digits + suffix) == Ok::<u64, NftVoterError>(
            decimal_value(digits) as u64,
        ),
{
    let name = prefix + digits + suffix;
    let start = prefix.len() as int;
    let end = start + digits.len();
    assert forall|k: int| 0 <= k < start implies !is_ascii_digit(#[trigger] name[k]) by {
        assert(name[k] == prefix[k]);
    }
    assert forall|k: int| start <= k < end implies is_ascii_digit(#[trigger] name[k]) by {
        assert(name[k] == digits[k - start]);
    }
    assert(name[end] == suffix[0]);
    assert(is_index_run(name, start, end));
    let (a, b) = choose|a: int, b: int| is_index_run(name, a, b);
    lemma_index_run_unique(name, start, end, a, b);
    assert(name.subrange(start, end) =~= digits);
}

/// A name whose digits run to its very end carries no index: a character that
/// is not a digit must follow the number.
pub proof fn lemma_trailing_number_refused(prefix: Seq<char>, digits: Seq<char>)
    requires
        forall|k: int| 0 <= k < prefix.len() ==> !is_ascii_digit(#[trigger] prefix[k]),
        forall|k: int| 0 <= k < digits.len() ==> is_ascii_digit(#[trigger] digits[k]),
    ensures
        nft_index_of(prefix + digits) == Err::<u64, NftVoterError>(
            NftVoterError::InvalidMetadataName,
        ),
{
    let name = prefix + digits;
    if exists|a: int, b: int| is_index_run(name, a, b) {
        let (a, b) = choose|a: int, b: int| is_index_run(name, a, b);
        if b < prefix.len() {
            assert(name[a] == prefix[a]);
        } else {
            assert(name[b] == digits[b - prefix.len()]);
        }
    }
}

/// What the index reading needs of an NFT's token metadata: its name, as the
/// metadata account stores it (padded with NUL characters to its fixed size).
#[derive(Debug)]
pub struct NftMetadata {
    pub name: String,
}

/// Reads the NFT index out of the name in an NFT's metadata.
pub fn index_from_nft_name(metadata: &NftMetadata) -> (index: Result<u64, NftVoterError>)
    ensures
        index == nft_index_of(metadata.name@),
{
    index_from_name(metadata.name.as_str())
}

} // verus!

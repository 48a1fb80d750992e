use vstd::prelude::*;
use vstd::string::StringSliceAdditionalSpecFns;
use vstd::utf8::encode_utf8;

verus! {

/// Whether every byte of `b` is an ASCII decimal digit.
pub open spec fn all_digits(b: Seq<u8>) -> bool {
    forall|i: int| 0 <= i < b.len() ==> 48 <= #[trigger] b[i] <= 57
}

/// The number that a string of decimal digits denotes.
pub open spec fn digits_value(b: Seq<u8>) -> int
    decreases b.len(),
{
    if b.len() == 0 {
        0
    } else {
        digits_value(b.drop_last()) * 10 + (b.last() - 48)
    }
}

/// The digits of a sample bound: the text without one leading `+`, if any.
pub open spec fn bound_digits(b: Seq<u8>) -> Seq<u8> {
    if b.len() > 0 && b[0] == 43 {
        b.drop_first()
    } else {
        b
    }
}

/// Whether `b` is the text of a sample bound: an optional `+` and at least
/// one decimal digit, denoting a number that fits in a `u64`.
pub open spec fn is_bound_text(b: Seq<u8>) -> bool {
    let d = bound_digits(b);
    d.len() > 0 && all_digits(d) && digits_value(d) <= u64::MAX
}

/// The parsed command line: which subreddit to read, and the sample bound.
#[derive(Clone, Debug, PartialEq, Eq)]
pub struct Arguments {
    pub subreddit: String,
    pub bound: u64,
}

/// Why the command line was refused.
#[derive(Clone, Copy, Debug, PartialEq, Eq, Structural)]
pub enum ArgumentError {
    /// Not exactly two arguments followed the program name.
    WrongCount,
    /// The sample bound is not a non-negative integer that fits in a `u64`.
    BadBound,
}

proof fn lemma_digits_value_grows(b: Seq<u8>, i: int)
    requires
        all_digits(b),
        0 <= i <= b.len(),
    ensures
        digits_value(b.take(i)) <= digits_value(b),
        0 <= digits_value(b.take(i)),
    decreases b.len() - i,
{
    if i < b.len() {
        lemma_digits_value_grows(b, i + 1);
        assert(b.take(i + 1).drop_last() =~= b.take(i));
        lemma_digits_value_nonneg(b.take(i));
    } else {
        assert(b.take(i) =~= b);
        lemma_digits_value_nonneg(b);
    }
}

proof fn lemma_digits_value_nonneg(b: Seq<u8>)
    requires
        all_digits(b),
    ensures
        0 <= digits_value(b),
    decreases b.len(),
{
    if b.len() > 0 {
        lemma_digits_value_nonneg(b.drop_last());
    }
}

/// Parses a sample bound: an optional `+` followed by decimal digits.
pub fn parse_bound(text: &str) -> (r: Option<u64>)
    ensures
        r.is_some() == is_bound_text(text.spec_bytes()),
        r matches Some(n) ==> n as int == digits_value(bound_digits(text.spec_bytes())),
{
    let bytes = text.as_bytes();
    let ghost d = bound_digits(bytes@);
    let start: usize = if bytes.len() > 0 && bytes[0] == 43u8 { 1 } else { 0 };
    assert(d =~= bytes@.subrange(start as int, bytes@.len() as int));
    if start == bytes.len() {
        return None;
    }
    let mut value: u64 = 0;
    let mut i: usize = start;
    while i < bytes.len()
        invariant
            start <= i <= bytes@.len(),
            d == bytes@.subrange(start as int, bytes@.len() as int),
            d == bound_digits(bytes@),
            bytes@ == text.spec_bytes(),
            all_digits(d.take(i - start)),
            value as int == digits_value(d.take(i - start)),
        decreases bytes@.len() - i,
    {
        let c = bytes[i];
        let k = i - start;
        assert(d.take(k + 1).drop_last() =~= d.take(k as int));
        if c < 48u8 || c > 57u8 {
            assert(!all_digits(d)) by {
                assert(d[k as int] == c);
            }
            assert(!is_bound_text(bytes@));
            return None;
        }
        assert(all_digits(d.take(k + 1)));
        assert(d.take(k + 1).last() == c);
        assert(digits_value(d.take(k + 1)) == value * 10 + (c - 48));
        let next = value.checked_mul(10);
        if next.is_none() {
            proof {
                lemma_digits_value_nonneg(d.take(k as int));
            }
            assert(!is_bound_text(bytes@)) by {
                if all_digits(d) {
                    lemma_digits_value_grows(d, k + 1);
                }
            }
            return None;
        }
        let step = next.unwrap().checked_add((c - 48u8) as u64);
        if step.is_none() {
            assert(!is_bound_text(bytes@)) by {
                if all_digits(d) {
                    lemma_digits_value_grows(d, k + 1);
                }
            }
            return None;
        }
        value = step.unwrap();
        i = i + 1;
    }
    assert(d.take(i - start) =~= d);
    Some(value)
}

/// Checks the command line (program name first): exactly a subreddit and a
/// sample bound must follow the program name.
pub fn parse_arguments(args: &Vec<String>) -> (r: Result<Arguments, ArgumentError>)
    ensures
        (r == Err::<Arguments, ArgumentError>(ArgumentError::WrongCount)) == (args@.len() != 3),
        (r == Err::<Arguments, ArgumentError>(ArgumentError::BadBound)) == (args@.len() == 3
            && !is_bound_text(encode_utf8(args@[2]@))),
        r matches Ok(a) ==> a.subreddit@ == args@[1]@ && a.bound as int == digits_value(
            bound_digits(encode_utf8(args@[2]@)),
        ),
{
    if args.len() != 3 {
        return Err(ArgumentError::WrongCount);
    }
    match parse_bound(args[2].as_str()) {
        None => Err(ArgumentError::BadBound),
        Some(bound) => Ok(Arguments { subreddit: args[1].clone(), bound }),
    }
}

} // verus!

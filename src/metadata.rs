//! Rules on the star rating kept in an image's XMP metadata.

use vstd::prelude::*;
use crate::error::{AppError, is_write_error};
use crate::navigation::opt_view;
use vstd::utf8::{encode_scalar, encode_utf8, has_width_1_encoding, leading_byte_width_1};
use vstd::string::StringSliceAdditionalSpecFns;

verus! {

/// The highest rating.
pub const MAX_RATING: u8 = 5;

/// The byte of '+'.
pub const PLUS: u8 = 43;

/// The byte of '0'.
pub const ZERO: u8 = 48;

/// The decimal digit character of `d`.
pub open spec fn digit_char(d: nat) -> char {
    if d == 0 {
        '0'
    } else if d == 1 {
        '1'
    } else if d == 2 {
        '2'
    } else if d == 3 {
        '3'
    } else if d == 4 {
        '4'
    } else if d == 5 {
        '5'
    } else if d == 6 {
        '6'
    } else if d == 7 {
        '7'
    } else if d == 8 {
        '8'
    } else {
        '9'
    }
}

/// The decimal notation of `n`, without leading zeros.
pub open spec fn decimal(n: nat) -> Seq<char>
    decreases n,
{
    if n < 10 {
        seq![digit_char(n)]
    } else {
        decimal(n / 10).push(digit_char(n % 10))
    }
}

fn digit_text(d: u64) -> (r: &'static str)
    requires
        d < 10,
    ensures
        r@ == seq![digit_char(d as nat)],
{
    proof {
        reveal_strlit("0");
        reveal_strlit("1");
        reveal_strlit("2");
        reveal_strlit("3");
        reveal_strlit("4");
        reveal_strlit("5");
        reveal_strlit("6");
        reveal_strlit("7");
        reveal_strlit("8");
        reveal_strlit("9");
    }
    if d == 0 {
        "0"
    } else if d == 1 {
        "1"
    } else if d == 2 {
        "2"
    } else if d == 3 {
        "3"
    } else if d == 4 {
        "4"
    } else if d == 5 {
        "5"
    } else if d == 6 {
        "6"
    } else if d == 7 {
        "7"
    } else if d == 8 {
        "8"
    } else {
        "9"
    }
}

/// The decimal notation of `n`.
pub fn decimal_text(n: u64) -> (r: String)
    ensures
        r@ == decimal(n as nat),
    decreases n,
{
    if n < 10 {
        String::from_str(digit_text(n))
    } else {
        let mut s = decimal_text(n / 10);
        s.append(digit_text(n % 10));
        s
    }
}

/// Digits in groups of three from the right, separated by commas.
pub open spec fn grouped(d: Seq<char>) -> Seq<char>
    decreases d.len(),
{
    if d.len() <= 3 {
        d
    } else {
        grouped(d.subrange(0, d.len() - 3)) + seq![','] + d.subrange(d.len() - 3, d.len() as int)
    }
}

/// The three decimal digits of `m` (below 1000), with leading zeros.
pub open spec fn three_digits(m: nat) -> Seq<char> {
    seq![digit_char(m / 100), digit_char((m / 10) % 10), digit_char(m % 10)]
}

proof fn lemma_decimal_len(n: nat)
    ensures
        decimal(n).len() >= 1,
        n >= 10 ==> decimal(n).len() >= 2,
    decreases n,
{
    if n >= 10 {
        lemma_decimal_len(n / 10);
    }
}

proof fn lemma_decimal_split_thousands(n: nat)
    requires
        n >= 1000,
    ensures
        decimal(n) == decimal(n / 1000) + three_digits(n % 1000),
        decimal(n).len() > 3,
{
    let a = n / 10;
    let b = n / 100;
    let c = n / 1000;
    assert(a / 10 == b);
    assert(b / 10 == c);
    assert(a >= 100 && b >= 10);
    assert((n % 1000) / 100 == b % 10);
    assert(((n % 1000) / 10) % 10 == a % 10);
    assert((n % 1000) % 10 == n % 10);
    lemma_decimal_len(c);
    assert(decimal(n) == decimal(a).push(digit_char(n % 10)));
    assert(decimal(a) == decimal(b).push(digit_char(a % 10)));
    assert(decimal(b) == decimal(c).push(digit_char(b % 10)));
    assert(decimal(n) =~= decimal(n / 1000) + three_digits(n % 1000));
}

fn grouped_decimal(n: u64) -> (r: String)
    ensures
        r@ == grouped(decimal(n as nat)),
    decreases n,
{
    if n < 1000 {
        proof {
            reveal_with_fuel(decimal, 3);
            if n >= 100 {
                assert(decimal(n as nat).len() == 3);
            } else if n >= 10 {
                assert(decimal(n as nat).len() == 2);
            }
        }
        return decimal_text(n);
    }
    let mut s = grouped_decimal(n / 1000);
    let m = n % 1000;
    s.append(",");
    s.append(digit_text(m / 100));
    s.append(digit_text((m / 10) % 10));
    s.append(digit_text(m % 10));
    proof {
        reveal_strlit(",");
        lemma_decimal_split_thousands(n as nat);
        let d = decimal(n as nat);
        assert(d.subrange(0, d.len() - 3) =~= decimal(n as nat / 1000));
        assert(d.subrange(d.len() - 3, d.len() as int) =~= three_digits(m as nat));
        assert(s@ =~= grouped(d));
    }
    s
}

/// A file size for display: the byte count with thousands separators, then
/// " bytes".
pub fn format_file_size(size: u64) -> (r: String)
    ensures
        r@ == grouped(decimal(size as nat)) + " bytes"@,
{
    grouped_decimal(size).concat(" bytes")
}

/// The message of a rating that is out of range.
pub open spec fn out_of_range_message(rating: u8) -> Seq<char> {
    "Rating must be 0-5, got "@ + decimal(rating as nat)
}

/// Checks that `rating` is at most 5; a larger one is a write error.
pub fn validate_rating(rating: u8) -> (r: Result<(), AppError>)
    ensures
        rating <= MAX_RATING ==> r is Ok,
        rating > MAX_RATING ==> is_write_error(r, out_of_range_message(rating)),
{
    if rating > MAX_RATING {
        let m = String::from_str("Rating must be 0-5, got ").concat(decimal_text(rating as u64).as_str());
        Err(AppError::XmpWrite(m))
    } else {
        Ok(())
    }
}

pub open spec fn is_digit(c: u8) -> bool {
    ZERO <= c <= ZERO + 9
}

/// The value of a string of decimal digits.
pub open spec fn digits_value(d: Seq<u8>) -> nat
    decreases d.len(),
{
    if d.len() == 0 {
        0
    } else {
        digits_value(d.drop_last()) * 10 + (d.last() - ZERO) as nat
    }
}

/// The digits of a number's text: what follows a leading '+', if there is one.
pub open spec fn unsigned_digits(b: Seq<u8>) -> Seq<u8> {
    if b.len() > 0 && b[0] == PLUS {
        b.drop_first()
    } else {
        b
    }
}

/// The rating that a metadata value states: the value read as an unsigned
/// decimal number (an optional '+', then one or more digits), when that number
/// is at most 5.
pub open spec fn rating_of_text(b: Seq<u8>) -> Option<u8> {
    let d = unsigned_digits(b);
    if d.len() > 0 && (forall|i: int| 0 <= i < d.len() ==> is_digit(d[i])) && digits_value(d)
        <= MAX_RATING {
        Some(digits_value(d) as u8)
    } else {
        None
    }
}

/// Reads a rating from the text of a metadata property.
pub fn rating_from_text(value: &str) -> (r: Option<u8>)
    ensures
        r == rating_of_text(value.spec_bytes()),
{
    let b = value.as_bytes();
    let n = b.len();
    let start: usize = if n > 0 && b[0] == PLUS {
        1
    } else {
        0
    };
    let ghost d = unsigned_digits(b@);
    assert(d =~= b@.subrange(start as int, n as int));
    if start == n {
        return None;
    }
    let mut acc: u64 = 0;
    let mut i: usize = start;
    while i < n
        invariant
            start <= i <= n == b@.len(),
            b@ == value.spec_bytes(),
            d == unsigned_digits(b@),
            d == b@.subrange(start as int, n as int),
            forall|k: int| 0 <= k < i - start ==> is_digit(d[k]),
            acc == if digits_value(d.subrange(0, i - start)) < 6 {
                digits_value(d.subrange(0, i - start))
            } else {
                6
            },
        decreases n - i,
    {
        let c = b[i];
        if c < ZERO || c > ZERO + 9 {
            assert(!is_digit(d[i - start]));
            return None;
        }
        let ghost prev = d.subrange(0, i - start);
        let ghost next = d.subrange(0, i - start + 1);
        assert(next.drop_last() =~= prev);
        let v = acc * 10 + (c - ZERO) as u64;
        proof {
            if digits_value(prev) >= 6 {
                assert(digits_value(prev) * 10 >= 60) by (nonlinear_arith)
                    requires
                        digits_value(prev) >= 6,
                ;
            }
        }
        acc = if v < 6 {
            v
        } else {
            6
        };
        i = i + 1;
    }
    assert(d.subrange(0, n - start) =~= d);
    if acc <= 5 {
        Some(acc as u8)
    } else {
        None
    }
}

/// The namespace of the basic XMP properties.
pub const XMP_NAMESPACE: &'static str = "http://ns.adobe.com/xap/1.0/";

/// The XMP property that holds the rating.
pub const RATING_PROPERTY: &'static str = "Rating";

/// The value of property `name` of `namespace` in the XMP packet `rdf`, when the
/// packet parses and holds that property; named for the basic XMP namespace and
/// the unprefixed rating property only.
pub uninterp spec fn xmp_property_text(rdf: Seq<char>, namespace: Seq<char>, name: Seq<char>) -> Option<
    Seq<char>,
>;

/// Relies on xmp_toolkit's XmpMeta::from_str_with_options (default options) and
/// XmpMeta::property: parses the packet and reads one property's value. The
/// namespace is the toolkit's built-in XMP namespace and the name carries no
/// prefix, so the outcome does not depend on namespaces registered earlier in
/// the process.
#[verifier::external_body]
fn xmp_property(rdf: &str, namespace: &str, name: &str) -> (r: Option<String>)
    requires
        namespace@ == XMP_NAMESPACE@,
        name@ == RATING_PROPERTY@,
    ensures
        opt_view(r) == xmp_property_text(rdf@, namespace@, name@),
{
    match xmp_toolkit::XmpMeta::from_str_with_options(rdf, Default::default()) {
        Ok(meta) => match meta.property(namespace, name) {
            Some(v) => Some(v.value),
            None => None,
        },
        Err(_) => None,
    }
}

/// The rating that an XMP packet states, if it states a valid one (0 to 5).
pub fn parse_xmp_rating_from_rdf(xmp_rdf: &str) -> (r: Option<u8>)
    ensures
        r == match xmp_property_text(xmp_rdf@, XMP_NAMESPACE@, RATING_PROPERTY@) {
            Some(v) => rating_of_text(encode_utf8(v)),
            None => None,
        },
{
    match xmp_property(xmp_rdf, XMP_NAMESPACE, RATING_PROPERTY) {
        Some(v) => rating_from_text(v.as_str()),
        None => None,
    }
}

proof fn lemma_ascii_encoding(u: u32)
    requires
        u <= 0x7f,
    ensures
        (u & 0x7f) as u8 == u as u8,
{
    assert((u & 0x7f) == u) by (bit_vector)
        requires
            u <= 0x7f,
    ;
}

/// A rating written as its decimal text reads back as the same rating: for
/// every rating from 0 to 5, `rating_from_text` of that text gives it again.
pub proof fn lemma_rating_text_round_trip(rating: u8)
    requires
        rating <= MAX_RATING,
    ensures
        rating_of_text(encode_utf8(decimal(rating as nat))) == Some(rating),
{
    let c = digit_char(rating as nat);
    assert(c as u32 == 48 + rating);
    assert(decimal(rating as nat) == seq![c]);
    lemma_ascii_encoding(c as u32);
    let b = encode_utf8(seq![c]);
    assert(seq![c].drop_first() =~= Seq::<char>::empty());
    assert(encode_utf8(Seq::<char>::empty()) == Seq::<u8>::empty());
    assert(has_width_1_encoding(c as u32));
    assert(encode_scalar(c as u32) == seq![leading_byte_width_1(c as u32)]);
    assert(b == encode_scalar(c as u32) + encode_utf8(seq![c].drop_first()));
    assert(b =~= seq![(48 + rating) as u8]);
    assert(unsigned_digits(b) == b);
    assert(b.drop_last() =~= Seq::<u8>::empty());
    assert(digits_value(Seq::<u8>::empty()) == 0);
    assert(digits_value(b) == digits_value(b.drop_last()) * 10 + (b.last() - ZERO) as nat);
    assert(digits_value(b) == rating);
}

} // verus!

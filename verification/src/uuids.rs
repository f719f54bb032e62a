//! UUIDs as text.

use vstd::prelude::*;

verus! {

/// The lower-case hexadecimal digit of `d`.
pub open spec fn hex_digit(d: nat) -> char {
    if d < 10 {
        ('0' as int + d) as char
    } else {
        ('a' as int + d - 10) as char
    }
}

/// Digit `k` of the 32 hexadecimal digits of `value`, the most significant first.
pub open spec fn hex_digit_of(value: u128, k: nat) -> char
    recommends
        k < 32,
{
    hex_digit(((value >> ((4 * (31 - k)) as u128)) & 0xf) as nat)
}

/// The hyphenated text of a UUID: its digits in groups of 8, 4, 4, 4 and 12.
pub open spec fn hyphenated(value: u128) -> Seq<char> {
    Seq::new(
        36,
        |i: int|
            if i < 8 {
                hex_digit_of(value, i as nat)
            } else if i == 8 || i == 13 || i == 18 || i == 23 {
                '-'
            } else if i < 13 {
                hex_digit_of(value, (i - 1) as nat)
            } else if i < 18 {
                hex_digit_of(value, (i - 2) as nat)
            } else if i < 23 {
                hex_digit_of(value, (i - 3) as nat)
            } else {
                hex_digit_of(value, (i - 4) as nat)
            },
    )
}

/// Two values whose hexadecimal digits agree agree above their last `4 * n` bits.
proof fn digits_tell_values_apart(a: u128, b: u128, n: nat)
    requires
        n < 32,
        forall|k: nat| k < 32 ==> #[trigger] hex_digit_of(a, k) == hex_digit_of(b, k),
    ensures
        a >> ((4 * n) as u128) == b >> ((4 * n) as u128),
    decreases 31 - n,
{
    let s = (4 * n) as u128;
    let k = (31 - n) as nat;
    assert(hex_digit_of(a, k) == hex_digit_of(b, k));
    assert((a >> s) & 0xf < 16 && (b >> s) & 0xf < 16) by (bit_vector);
    assert((a >> s) & 0xf == (b >> s) & 0xf);
    if n == 31 {
        assert(a >> 124u128 == (a >> 124u128) & 0xf) by (bit_vector);
        assert(b >> 124u128 == (b >> 124u128) & 0xf) by (bit_vector);
    } else {
        digits_tell_values_apart(a, b, n + 1);
        let t = (4 * (n + 1)) as u128;
        assert(a >> s == b >> s) by (bit_vector)
            requires
                s <= 120,
                t == s + 4,
                (a >> s) & 0xf == (b >> s) & 0xf,
                a >> t == b >> t,
        ;
    }
}

/// Different UUIDs have different texts.
pub proof fn texts_tell_uuids_apart(a: u128, b: u128)
    requires
        hyphenated(a) == hyphenated(b),
    ensures
        a == b,
{
    let (x, y) = (hyphenated(a), hyphenated(b));
    assert forall|k: nat| k < 32 implies #[trigger] hex_digit_of(a, k) == hex_digit_of(b, k) by {
        let at = k as int;
        let i = if at < 8 {
            at
        } else if at < 12 {
            at + 1
        } else if at < 16 {
            at + 2
        } else if at < 20 {
            at + 3
        } else {
            at + 4
        };
        assert(x[i] == y[i]);
    }
    digits_tell_values_apart(a, b, 0);
    assert(a >> 0u128 == a && b >> 0u128 == b) by (bit_vector);
}

/// What `uuid::Uuid::parse_str` makes of a text: the UUID's value, or the text of its
/// error.
pub uninterp spec fn parsed_uuid(text: Seq<char>) -> Result<u128, Seq<char>>;

/// The view of a result whose error is a text.
pub open spec fn result_view<T>(r: Result<T, String>) -> Result<T, Seq<char>> {
    match r {
        Ok(value) => Ok(value),
        Err(e) => Err(e@),
    }
}

/// Renders a UUID with the `Display` of `uuid::Uuid`, which writes the hyphenated form
/// in lower case.
#[verifier::external_body]
pub(crate) fn uuid_text(value: u128) -> (text: String)
    ensures
        text@ == hyphenated(value),
{
    uuid::Uuid::from_u128(value).to_string()
}

/// Parses a UUID with `uuid::Uuid::parse_str`. The result is a function of the text
/// alone, and the hyphenated lower-case form of a UUID gives that UUID back. Which
/// other texts are accepted (other groupings, a `urn:uuid:` prefix, braces, upper
/// case), and how an error reads, is left to that function.
#[verifier::external_body]
pub(crate) fn parse_uuid_text(text: &str) -> (r: Result<u128, String>)
    ensures
        result_view(r) == parsed_uuid(text@),
        forall|value: u128| text@ == #[trigger] hyphenated(value) ==> r is Ok && r->Ok_0 == value,
{
    match uuid::Uuid::parse_str(text) {
        Ok(uuid) => Ok(uuid.as_u128()),
        Err(e) => Err(e.to_string()),
    }
}

/// The UUID that a text names, if it names one.
pub open spec fn named_uuid(text: Seq<char>) -> Option<u128> {
    match parsed_uuid(text) {
        Ok(value) => Some(value),
        Err(_) => None,
    }
}

/// Reads a UUID that another party wrote, and drops one that it cannot read.
pub fn read_uuid(text: &str) -> (r: Option<u128>)
    ensures
        r == named_uuid(text@),
        forall|value: u128| text@ == #[trigger] hyphenated(value) ==> r == Some(value),
{
    match parse_uuid_text(text) {
        Ok(value) => Some(value),
        Err(_) => None,
    }
}

/// The digits of a UUID's text are its value's, the most significant first: a value that is
/// moved up by one digit has the same digits one place further ahead, and the last digit is
/// the value's rest by sixteen.
pub proof fn digits_stand_in_the_order_of_their_weight(value: u128, k: nat)
    requires
        k < 31,
    ensures
        hex_digit_of(value << 4, k) == hex_digit_of(value, k + 1),
        hex_digit_of(value, 31) == hex_digit((value % 16) as nat),
{
    let s = (4 * (31 - k)) as u128;
    let t = (4 * (31 - (k + 1))) as u128;
    assert(((value << 4) >> s) & 0xf == (value >> t) & 0xf) by (bit_vector)
        requires
            4 <= s <= 124,
            t == s - 4,
    ;
    assert((value >> 0) & 0xf == value % 16) by (bit_vector);
}

/// A UUID's text is thirty-six characters, of which the ninth, fourteenth, nineteenth and
/// twenty-fourth are hyphens; without them the digits stand one behind the other.
pub proof fn a_uuid_is_written_in_five_groups(value: u128, k: int)
    requires
        0 <= k < 32,
    ensures
        ({
            let text = hyphenated(value);
            let at = if k < 8 {
                k
            } else if k < 12 {
                k + 1
            } else if k < 16 {
                k + 2
            } else if k < 20 {
                k + 3
            } else {
                k + 4
            };
            &&& text.len() == 36
            &&& text[8] == '-' && text[13] == '-' && text[18] == '-' && text[23] == '-'
            &&& text[at] == hex_digit_of(value, k as nat)
        }),
        hex_digit(0) == '0' && hex_digit(9) == '9' && hex_digit(10) == 'a' && hex_digit(15) == 'f',
{
}

/// A text names a UUID exactly if it can be read as one, and then the one that it is read as.
pub proof fn a_text_names_what_it_is_read_as(text: Seq<char>, value: u128)
    ensures
        named_uuid(text) == Some(value) <==> parsed_uuid(text) == Ok::<u128, Seq<char>>(value),
        named_uuid(text) is None <==> parsed_uuid(text) is Err,
{
}

} // verus!

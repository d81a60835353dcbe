//! Room codes, the colour palette and the device class of a user agent.

use vstd::prelude::*;
use crate::text::{
    all_digits, chars_of, contains, decimal_digits, is_digit, lemma_decimal_digits_form, occurs,
    string_of, zero_padded, zero_padded_chars,
};

verus! {

/// A room code is six decimal digits.
pub open spec fn is_room_code(s: Seq<char>) -> bool {
    s.len() == 6 && all_digits(s)
}

/// Whether `code` has the form of a room code.
pub fn validate_room_code(code: &str) -> (r: bool)
    ensures
        r == is_room_code(code@),
{
    let v = chars_of(code);
    if v.len() != 6 {
        return false;
    }
    let mut i: usize = 0;
    while i < 6
        invariant
            i <= 6,
            v@.len() == 6,
            v@ == code@,
            forall|j: int| 0 <= j < i ==> is_digit(#[trigger] v@[j]),
        decreases 6 - i,
    {
        let c = v[i];
        if !(c >= '0' && c <= '9') {
            assert(!is_digit(v@[i as int]));
            return false;
        }
        i += 1;
    }
    true
}

/// `rand::Rng::gen_range` on `rand::thread_rng()` with the range `0..bound`:
/// the number drawn lies in the range. The call panics on an empty range,
/// which `bound > 0` leaves out.
#[verifier::external_body]
pub(crate) fn random_below(bound: u32) -> (r: u32)
    requires
        bound > 0,
    ensures
        r < bound,
{
    rand::Rng::gen_range(&mut rand::thread_rng(), 0..bound)
}

/// A number below a million has six decimal digits at most.
proof fn lemma_six_digits(n: nat)
    requires
        n < 1_000_000,
    ensures
        decimal_digits(n).len() <= 6,
{
    reveal_with_fuel(decimal_digits, 7);
}

/// The room code that stands for `n`: its decimal digits, filled to six with zeros.
pub fn room_code_of(n: u32) -> (r: String)
    ensures
        r@ == zero_padded(n as nat, 6),
        n < 1_000_000 ==> is_room_code(r@),
{
    let v = zero_padded_chars(n as u64, 6);
    proof {
        lemma_decimal_digits_form(n as nat);
        if n < 1_000_000 {
            lemma_six_digits(n as nat);
        }
    }
    string_of(&v)
}

/// A room code drawn at random.
pub fn generate_room_code() -> (r: String)
    ensures
        is_room_code(r@),
{
    room_code_of(random_below(1_000_000))
}

/// The colours that a new user may get.
pub open spec fn palette() -> Seq<Seq<char>> {
    seq![
        "#ef4444"@,
        "#f97316"@,
        "#f59e0b"@,
        "#84cc16"@,
        "#10b981"@,
        "#06b6d4"@,
        "#3b82f6"@,
        "#6366f1"@,
        "#8b5cf6"@,
        "#d946ef"@,
    ]
}

/// The colour at position `i` of the palette.
pub fn palette_color(i: u32) -> (r: String)
    requires
        i < 10,
    ensures
        r@ == palette()[i as int],
{
    let s = if i == 0 {
        "#ef4444"
    } else if i == 1 {
        "#f97316"
    } else if i == 2 {
        "#f59e0b"
    } else if i == 3 {
        "#84cc16"
    } else if i == 4 {
        "#10b981"
    } else if i == 5 {
        "#06b6d4"
    } else if i == 6 {
        "#3b82f6"
    } else if i == 7 {
        "#6366f1"
    } else if i == 8 {
        "#8b5cf6"
    } else {
        "#d946ef"
    };
    s.to_string()
}

/// A colour of the palette, drawn at random.
pub fn get_random_color() -> (r: String)
    ensures
        palette().contains(r@),
{
    let i = random_below(10);
    palette_color(i)
}

/// What `str::to_lowercase` makes of a string.
pub uninterp spec fn lowercase(s: Seq<char>) -> Seq<char>;

/// `str::to_lowercase`: the lowercase form of `s` by the Unicode rules. The
/// result is a function of the characters of `s` alone, and `lowercase` is
/// its name.
#[verifier::external_body]
pub(crate) fn to_lowercase(s: &str) -> (r: String)
    ensures
        r@ == lowercase(s@),
{
    s.to_lowercase()
}

/// The device class of a user agent that is already in lowercase. There
/// are two classes. A phone and a tablet are both `mobile`: a user agent
/// that names `mobile`, `android`, `iphone`, `tablet` or `ipad` is of that
/// class. Every other user agent is `desktop`.
pub open spec fn device_class(ua: Seq<char>) -> Seq<char> {
    if occurs(ua, "mobile"@) || occurs(ua, "android"@) || occurs(ua, "iphone"@) || occurs(
        ua,
        "tablet"@,
    ) || occurs(ua, "ipad"@) {
        "mobile"@
    } else {
        "desktop"@
    }
}

/// The device class of a user agent that is already in lowercase.
pub fn classify_device(ua: &str) -> (r: String)
    ensures
        r@ == device_class(ua@),
        r@ == "mobile"@ || r@ == "desktop"@,
{
    if contains(ua, "mobile") || contains(ua, "android") || contains(ua, "iphone") || contains(
        ua,
        "tablet",
    ) || contains(ua, "ipad") {
        "mobile".to_string()
    } else {
        "desktop".to_string()
    }
}

/// The device class of a user agent, whatever its case: `mobile` or `desktop`.
pub fn get_device_type(user_agent: &str) -> (r: String)
    ensures
        r@ == device_class(lowercase(user_agent@)),
        r@ == "mobile"@ || r@ == "desktop"@,
{
    let lowered = to_lowercase(user_agent);
    classify_device(lowered.as_str())
}

} // verus!

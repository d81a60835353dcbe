//! The `Range` header of a download: reading it and fitting it to a file.

use vstd::prelude::*;
use crate::text::{
    all_digits, chars_of, decimal_digits, decimal_value, is_digit, lemma_decimal_digits_form,
    lemma_decimal_round_trip, matches_at, occurs_at, parse_u64, parsed_u64, starts_with,
};

verus! {

/// The position of the first `sep` in `s` at or behind `from`, or the
/// length of `s` where there is none.
pub open spec fn field_end(s: Seq<char>, from: int, sep: char) -> int
    decreases s.len() - from,
{
    if from >= s.len() {
        s.len() as int
    } else if s[from] == sep {
        from
    } else {
        field_end(s, from + 1, sep)
    }
}

/// The position behind every repetition of `p` that `s` has at `from`.
pub open spec fn after_prefixes(s: Seq<char>, p: Seq<char>, from: int) -> int
    decreases s.len() - from,
{
    if p.len() > 0 && occurs_at(s, p, from) {
        after_prefixes(s, p, from + p.len())
    } else {
        from
    }
}

/// The two bounds that a `Range` header names. A header that begins with
/// `bytes=` is read behind that word, as fields with `-` between them: the
/// first field is the first bound and the second field the last, each where
/// it is a decimal number. Any other header names nothing.
pub open spec fn range_bounds(header: Seq<char>) -> (Option<u64>, Option<u64>) {
    if occurs_at(header, "bytes="@, 0) {
        let a = after_prefixes(header, "bytes="@, 0);
        let b = field_end(header, a, '-');
        if b < header.len() {
            let c = field_end(header, b + 1, '-');
            (parsed_u64(header.subrange(a, b)), parsed_u64(header.subrange(b + 1, c)))
        } else {
            (parsed_u64(header.subrange(a, b)), None)
        }
    } else {
        (None, None)
    }
}

/// The bytes of a file that a download delivers, first and last included,
/// and whether a `Range` header asked for them.
#[derive(Clone, Copy, PartialEq, Eq, Debug, Structural)]
pub struct ByteRange {
    pub start: u64,
    pub end: u64,
    pub partial: bool,
}

/// The range that a request with the bounds `bounds` gets of a file of
/// `size` bytes. Without bounds it is the whole file; a bound that is named
/// takes the place of the first or the last byte; the last byte is cut to
/// the file's end. There is no range where the first byte lies behind the
/// last one or behind the file's end.
pub open spec fn fitted_range(bounds: (Option<u64>, Option<u64>), size: u64) -> Option<ByteRange> {
    let start: int = match bounds.0 {
        Some(a) => a as int,
        None => 0,
    };
    let end: int = match bounds.1 {
        Some(b) => b as int,
        None => size - 1,
    };
    if start > end || start >= size {
        None
    } else {
        Some(
            ByteRange {
                start: start as u64,
                end: (if end >= size {
                    size - 1
                } else {
                    end
                }) as u64,
                partial: bounds.0 is Some || bounds.1 is Some,
            },
        )
    }
}

/// The range that a request gets of a file of `size` bytes: that of the
/// bounds of its `Range` header, or the whole file where it has no header.
pub open spec fn requested_range(header: Option<Seq<char>>, size: u64) -> Option<ByteRange> {
    match header {
        Some(h) => fitted_range(range_bounds(h), size),
        None => fitted_range((None, None), size),
    }
}

fn scan_field(v: &Vec<char>, from: usize, sep: char) -> (end: usize)
    requires
        from <= v@.len(),
    ensures
        from <= end <= v@.len(),
        end == field_end(v@, from as int, sep),
{
    let mut i: usize = from;
    while i < v.len() && v[i] != sep
        invariant
            from <= i <= v@.len(),
            field_end(v@, from as int, sep) == field_end(v@, i as int, sep),
        decreases v@.len() - i,
    {
        i += 1;
    }
    i
}

fn skip_prefixes(v: &Vec<char>, p: &Vec<char>) -> (end: usize)
    ensures
        end <= v@.len(),
        end == after_prefixes(v@, p@, 0),
{
    let mut i: usize = 0;
    if p.len() == 0 {
        return 0;
    }
    while p.len() <= v.len() - i && matches_at(v, p, i)
        invariant
            i <= v@.len(),
            p@.len() > 0,
            after_prefixes(v@, p@, 0) == after_prefixes(v@, p@, i as int),
        decreases v@.len() - i,
    {
        i += p.len();
    }
    i
}

/// The two bounds that a `Range` header names.
pub fn read_range_bounds(header: &str) -> (r: (Option<u64>, Option<u64>))
    ensures
        r == range_bounds(header@),
{
    let v = chars_of(header);
    let word = chars_of("bytes=");
    if !starts_with(&v, &word) {
        return (None, None);
    }
    let a = skip_prefixes(&v, &word);
    let b = scan_field(&v, a, '-');
    let first = parse_u64(&v, a, b);
    if b < v.len() {
        let c = scan_field(&v, b + 1, '-');
        (first, parse_u64(&v, b + 1, c))
    } else {
        (first, None)
    }
}

/// The range that a request with the bounds `bounds` gets of a file of `size` bytes.
pub fn fit_range(bounds: (Option<u64>, Option<u64>), size: u64) -> (r: Option<ByteRange>)
    ensures
        r == fitted_range(bounds, size),
{
    if size == 0 {
        return None;
    }
    let start: u64 = match bounds.0 {
        Some(a) => a,
        None => 0,
    };
    let end: u64 = match bounds.1 {
        Some(b) => b,
        None => size - 1,
    };
    if start > end || start >= size {
        return None;
    }
    let end = if end >= size {
        size - 1
    } else {
        end
    };
    Some(ByteRange { start, end, partial: bounds.0.is_some() || bounds.1.is_some() })
}

/// The range that a request gets of a file of `size` bytes; `None` where
/// the request cannot be met.
pub fn parse_range(header: Option<&str>, size: u64) -> (r: Option<ByteRange>)
    ensures
        r == requested_range(
            match header {
                Some(h) => Some(h@),
                None => None,
            },
            size,
        ),
        r matches Some(range) ==> range.start <= range.end < size,
{
    match header {
        Some(h) => fit_range(read_range_bounds(h), size),
        None => fit_range((None, None), size),
    }
}

/// A field ends at the first separator behind its start, or at the end of
/// the text where there is none.
pub proof fn lemma_field_end(s: Seq<char>, from: int, end: int, sep: char)
    requires
        0 <= from <= end <= s.len(),
        forall|j: int| from <= j < end ==> s[j] != sep,
        end == s.len() || s[end] == sep,
    ensures
        field_end(s, from, sep) == end,
    decreases end - from,
{
    if from < end {
        lemma_field_end(s, from + 1, end, sep);
    }
}

/// The decimal digits of a number are read back as that number.
pub proof fn lemma_parse_decimal(n: u64)
    ensures
        parsed_u64(decimal_digits(n as nat)) == Some(n),
        forall|j: int|
            0 <= j < decimal_digits(n as nat).len() ==> is_digit(
                #[trigger] decimal_digits(n as nat)[j],
            ),
        decimal_digits(n as nat).len() >= 1,
{
    lemma_decimal_digits_form(n as nat);
    lemma_decimal_round_trip(n as nat);
    assert(is_digit(decimal_digits(n as nat)[0]));
}

/// A header made of the word `bytes=`, a first field, a `-` and a second
/// field names what the two fields denote. The fields hold no `-`, and the
/// first one does not begin with a `b`.
pub proof fn lemma_range_header_reads(x: Seq<char>, y: Seq<char>)
    requires
        forall|j: int| 0 <= j < x.len() ==> x[j] != '-',
        forall|j: int| 0 <= j < y.len() ==> y[j] != '-',
        x.len() == 0 || x[0] != 'b',
    ensures
        range_bounds("bytes="@ + x + "-"@ + y) == (parsed_u64(x), parsed_u64(y)),
{
    reveal_strlit("bytes=");
    reveal_strlit("-");
    let word = "bytes="@;
    let h = word + x + "-"@ + y;
    let b: int = 6 + x.len() as int;
    assert(h.subrange(0, 6) =~= word);
    assert(occurs_at(h, word, 0));
    assert(h[6] != 'b');
    assert(!occurs_at(h, word, 6)) by {
        if 12 <= h.len() {
            assert(h.subrange(6, 12)[0] == h[6]);
            assert(word[0] == 'b');
        }
    }
    assert(after_prefixes(h, word, 6) == 6);
    assert(after_prefixes(h, word, 0) == 6);
    assert(h[b] == '-');
    assert forall|j: int| 6 <= j < b implies h[j] != '-' by {
        assert(h[j] == x[j - 6]);
    }
    lemma_field_end(h, 6, b, '-');
    assert forall|j: int| b + 1 <= j < h.len() implies h[j] != '-' by {
        assert(h[j] == y[j - b - 1]);
    }
    lemma_field_end(h, b + 1, h.len() as int, '-');
    assert(h.subrange(6, b) =~= x);
    assert(h.subrange(b + 1, h.len() as int) =~= y);
}

/// A request without a `Range` header gets the whole of a file that is not
/// empty, and the range does not count as asked for.
pub proof fn lemma_whole_file(size: u64)
    requires
        size > 0,
    ensures
        requested_range(None, size) == Some(
            ByteRange { start: 0, end: (size - 1) as u64, partial: false },
        ),
{
}

/// A request for `bytes=a-b` with `a <= b` and `b` inside the file gets
/// exactly the bytes from `a` to `b`, as a range that was asked for.
pub proof fn lemma_range_inside_file(a: u64, b: u64, size: u64)
    requires
        a <= b < size,
    ensures
        requested_range(
            Some("bytes="@ + decimal_digits(a as nat) + "-"@ + decimal_digits(b as nat)),
            size,
        ) == Some(ByteRange { start: a, end: b, partial: true }),
{
    lemma_parse_decimal(a);
    lemma_parse_decimal(b);
    lemma_range_header_reads(decimal_digits(a as nat), decimal_digits(b as nat));
}

/// A request for `bytes=a-` gets the file from `a` to its end where `a`
/// lies inside the file, and cannot be met where `a` is the file's size or
/// more. So `bytes=0-` gets the whole of a file that is not empty, as a
/// range that was asked for.
pub proof fn lemma_open_range(a: u64, size: u64)
    ensures
        requested_range(Some("bytes="@ + decimal_digits(a as nat) + "-"@), size) == if a < size {
            Some(ByteRange { start: a, end: (size - 1) as u64, partial: true })
        } else {
            None
        },
        "bytes=0-"@ == "bytes="@ + decimal_digits(0) + "-"@,
{
    lemma_parse_decimal(a);
    lemma_range_header_reads(decimal_digits(a as nat), Seq::empty());
    assert("bytes="@ + decimal_digits(a as nat) + "-"@ + Seq::<char>::empty() =~= "bytes="@
        + decimal_digits(a as nat) + "-"@);
    reveal_strlit("bytes=0-");
    reveal_strlit("bytes=");
    reveal_strlit("-");
    assert("bytes=0-"@ =~= "bytes="@ + decimal_digits(0) + "-"@);
}

/// The header `bytes=-` names no bound: the request gets the whole of a
/// file that is not empty, as if it had no header.
pub proof fn lemma_empty_range(size: u64)
    ensures
        range_bounds("bytes=-"@) == (None::<u64>, None::<u64>),
        requested_range(Some("bytes=-"@), size) == requested_range(None, size),
{
    lemma_range_header_reads(Seq::empty(), Seq::empty());
    reveal_strlit("bytes=-");
    reveal_strlit("bytes=");
    reveal_strlit("-");
    assert("bytes=-"@ =~= "bytes="@ + Seq::<char>::empty() + "-"@ + Seq::<char>::empty());
}

/// A request for `bytes=a-b` with `a` behind `b` cannot be met, whatever
/// the size of the file. `bytes=5-3` is such a request.
pub proof fn lemma_reversed_range(a: u64, b: u64, size: u64)
    requires
        a > b,
    ensures
        requested_range(
            Some("bytes="@ + decimal_digits(a as nat) + "-"@ + decimal_digits(b as nat)),
            size,
        ) is None,
        "bytes=5-3"@ == "bytes="@ + decimal_digits(5) + "-"@ + decimal_digits(3),
{
    lemma_parse_decimal(a);
    lemma_parse_decimal(b);
    lemma_range_header_reads(decimal_digits(a as nat), decimal_digits(b as nat));
    reveal_strlit("bytes=5-3");
    reveal_strlit("bytes=");
    reveal_strlit("-");
    assert("bytes=5-3"@ =~= "bytes="@ + decimal_digits(5) + "-"@ + decimal_digits(3));
}

} // verus!

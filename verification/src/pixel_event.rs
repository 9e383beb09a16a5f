//! Typed event records and the header-driven factory that builds them
//! from the columns of a row-oriented event table.
//!
//! The header row names the columns; their order is free. Each data
//! row is parsed into a `PixelEvent`, with the coordinates mirrored
//! into sensor range; a row whose required fields do not parse is a
//! fatal stream error.

use vstd::prelude::*;
use vstd::string::StrSliceExecFns;

use crate::dvs_const::DVS_X;
use crate::dvs_const::DVS_Y;

verus! {

/// One brightness-change event, with coordinates already mirrored into
/// sensor range by the factory.
#[derive(Debug, Clone, Copy, PartialEq, Eq)]
pub struct PixelEvent {
    pub timestamp: i32,
    pub x_address: i32,
    pub y_address: i32,
    pub polarity: i32,
}

/// Why a data row could not be turned into an event.
#[derive(Debug, Clone, Copy, PartialEq, Eq)]
pub enum EventParseError {
    /// The row is shorter than a required column position.
    MissingField,
    /// A required field is not a well-formed 32-bit integer.
    BadField,
    /// A coordinate lies outside the sensor.
    CoordinateOutOfRange,
}

pub open spec fn is_decimal_digit(c: char) -> bool {
    48 <= c as u32 <= 57
}

pub open spec fn all_decimal_digits(s: Seq<char>) -> bool {
    forall|i: int| 0 <= i < s.len() ==> is_decimal_digit(#[trigger] s[i])
}

/// The value of a run of decimal digits.
pub open spec fn digits_value(s: Seq<char>) -> int
    decreases s.len(),
{
    if s.len() == 0 {
        0
    } else {
        10 * digits_value(s.drop_last()) + (s.last() as u32 - 48)
    }
}

/// What a 32-bit integer field means: an optional sign, then at least
/// one decimal digit, the value within the type's range; anything else
/// does not parse.
pub open spec fn spec_parse_i32(s: Seq<char>) -> Option<i32> {
    let signed = s.len() > 0 && (s[0] == '+' || s[0] == '-');
    let digits = if signed { s.subrange(1, s.len() as int) } else { s };
    if digits.len() == 0 || !all_decimal_digits(digits) {
        None
    } else {
        let magnitude = digits_value(digits);
        let value = if s.len() > 0 && s[0] == '-' { -magnitude } else { magnitude };
        if i32::MIN <= value <= i32::MAX {
            Some(value as i32)
        } else {
            None
        }
    }
}

proof fn lemma_digits_value_nonneg(s: Seq<char>)
    requires
        all_decimal_digits(s),
    ensures
        digits_value(s) >= 0,
    decreases s.len(),
{
    if s.len() > 0 {
        assert(all_decimal_digits(s.drop_last()));
        lemma_digits_value_nonneg(s.drop_last());
    }
}

/// A longer run of digits never has a smaller value than its prefix.
proof fn lemma_digits_value_prefix_le(s: Seq<char>, i: int)
    requires
        all_decimal_digits(s),
        0 <= i <= s.len(),
    ensures
        digits_value(s.subrange(0, i)) <= digits_value(s),
    decreases s.len() - i,
{
    if i == s.len() {
        assert(s.subrange(0, i) =~= s);
    } else {
        let p = s.subrange(0, i + 1);
        assert(p.drop_last() =~= s.subrange(0, i));
        assert(all_decimal_digits(p.drop_last()));
        lemma_digits_value_nonneg(p.drop_last());
        assert(digits_value(p) == 10 * digits_value(s.subrange(0, i)) + (s[i] as u32 - 48));
        lemma_digits_value_prefix_le(s, i + 1);
    }
}

/// Parse a 32-bit integer field, exactly as `spec_parse_i32` states.
#[verifier::rlimit(30)]
pub fn parse_i32(s: &str) -> (r: Option<i32>)
    ensures
        r == spec_parse_i32(s@),
{
    let n = s.unicode_len();
    let mut start: usize = 0;
    let mut negative = false;
    if n > 0 {
        let c0 = s.get_char(0);
        if c0 == '+' {
            start = 1;
        } else if c0 == '-' {
            negative = true;
            start = 1;
        }
    }
    if start == n {
        return None;
    }
    let ghost digits = s@.subrange(start as int, n as int);
    proof {
        assert(s@.subrange(0, n as int) =~= s@);
    }
    let mut acc: i64 = 0;
    let mut i: usize = start;
    while i < n
        invariant
            start <= i <= n,
            n == s@.len(),
            start < n,
            start == 0 || start == 1,
            start == 1 <==> (s@.len() > 0 && (s@[0] == '+' || s@[0] == '-')),
            negative <==> (s@.len() > 0 && s@[0] == '-' && start == 1),
            digits == s@.subrange(start as int, n as int),
            all_decimal_digits(s@.subrange(start as int, i as int)),
            acc == digits_value(s@.subrange(start as int, i as int)),
            0 <= acc <= 0x80000000i64,
        decreases n - i,
    {
        let c = s.get_char(i);
        let u = c as u32;
        if u < 48 || u > 57 {
            proof {
                assert(s@.subrange(0, n as int) =~= s@);
                assert(digits[i - start as int] == s@[i as int]);
                assert(!is_decimal_digit(digits[i - start as int]));
                assert(!all_decimal_digits(digits));
            }
            return None;
        }
        let ghost prefix = s@.subrange(start as int, i as int);
        let ghost extended = s@.subrange(start as int, i as int + 1);
        proof {
            assert(extended.drop_last() =~= prefix);
            assert(extended.last() == s@[i as int]);
        }
        let d = (u - 48) as i64;
        let next_acc = acc * 10 + d;
        proof {
            assert(digits_value(extended) == 10 * digits_value(prefix) + (s@[i as int] as u32
                - 48));
        }
        if next_acc > 0x80000000i64 {
            proof {
                assert(s@.subrange(0, n as int) =~= s@);
                if all_decimal_digits(digits) {
                    assert(extended =~= digits.subrange(0, i - start as int + 1));
                    lemma_digits_value_prefix_le(digits, i - start as int + 1);
                    assert(digits_value(digits) > 0x80000000);
                }
            }
            return None;
        }
        acc = next_acc;
        i = i + 1;
        proof {
            assert(all_decimal_digits(extended));
            assert(extended =~= s@.subrange(start as int, i as int));
        }
    }
    proof {
        assert(s@.subrange(0, n as int) =~= s@);
        assert(s@.subrange(start as int, i as int) =~= digits);
        if start == 1 {
            assert(s@[0] == '+' || s@[0] == '-');
        }
    }
    if negative {
        Some((-acc) as i32)
    } else {
        if acc > 0x7fffffffi64 {
            return None;
        }
        Some(acc as i32)
    }
}

/// The column position a field name was last seen at, or 0 where the
/// name never occurs.
pub open spec fn field_position(headers: Seq<String>, name: Seq<char>) -> int
    decreases headers.len(),
{
    if headers.len() == 0 {
        0
    } else if headers.last()@ == name {
        headers.len() - 1
    } else {
        field_position(headers.drop_last(), name)
    }
}

/// Knows, from the header row, which column holds which event field.
#[derive(Debug)]
pub struct PixelFactory {
    timestamp_pos: usize,
    x_address_pos: usize,
    y_address_pos: usize,
    polarity_pos: usize,
}

impl PixelFactory {
    pub closed spec fn timestamp_pos(self) -> usize {
        self.timestamp_pos
    }

    pub closed spec fn x_address_pos(self) -> usize {
        self.x_address_pos
    }

    pub closed spec fn y_address_pos(self) -> usize {
        self.y_address_pos
    }

    pub closed spec fn polarity_pos(self) -> usize {
        self.polarity_pos
    }

    /// Whether a column name is one of the four the factory reads.
    pub fn is_event_field(name: &String) -> (b: bool)
        ensures
            b == (name@ == "timeStamp"@ || name@ == "xAddr"@ || name@ == "yAddr"@ || name@
                == "polarity(0=OFF 1=ON)"@),
    {
        let ts: String = "timeStamp".to_owned();
        let xa: String = "xAddr".to_owned();
        let ya: String = "yAddr".to_owned();
        let po: String = "polarity(0=OFF 1=ON)".to_owned();
        *name == ts || *name == xa || *name == ya || *name == po
    }

    /// Read the header row: each field takes the position its name was
    /// last seen at, and 0 where it never occurs; unrecognized names
    /// are ignored.
    pub fn from_headers(headers: &Vec<String>) -> (f: PixelFactory)
        ensures
            f.timestamp_pos() == field_position(headers@, "timeStamp"@),
            f.x_address_pos() == field_position(headers@, "xAddr"@),
            f.y_address_pos() == field_position(headers@, "yAddr"@),
            f.polarity_pos() == field_position(headers@, "polarity(0=OFF 1=ON)"@),
    {
        let ts: String = "timeStamp".to_owned();
        let xa: String = "xAddr".to_owned();
        let ya: String = "yAddr".to_owned();
        let po: String = "polarity(0=OFF 1=ON)".to_owned();
        let mut f = PixelFactory {
            timestamp_pos: 0,
            x_address_pos: 0,
            y_address_pos: 0,
            polarity_pos: 0,
        };
        proof {
            reveal_strlit("timeStamp");
            reveal_strlit("xAddr");
            reveal_strlit("yAddr");
            reveal_strlit("polarity(0=OFF 1=ON)");
            assert("timeStamp"@.len() == 9);
            assert("xAddr"@.len() == 5);
            assert("yAddr"@.len() == 5);
            assert("polarity(0=OFF 1=ON)"@.len() == 20);
            assert("xAddr"@[0] == 'x');
            assert("yAddr"@[0] == 'y');
        }
        let mut i: usize = 0;
        while i < headers.len()
            invariant
                i <= headers@.len(),
                ts@ == "timeStamp"@,
                xa@ == "xAddr"@,
                ya@ == "yAddr"@,
                po@ == "polarity(0=OFF 1=ON)"@,
                ts@ != xa@ && ts@ != ya@ && ts@ != po@,
                xa@ != ya@ && xa@ != po@,
                ya@ != po@,
                f.timestamp_pos == field_position(headers@.subrange(0, i as int), "timeStamp"@),
                f.x_address_pos == field_position(headers@.subrange(0, i as int), "xAddr"@),
                f.y_address_pos == field_position(headers@.subrange(0, i as int), "yAddr"@),
                f.polarity_pos == field_position(
                    headers@.subrange(0, i as int),
                    "polarity(0=OFF 1=ON)"@,
                ),
            decreases headers@.len() - i,
        {
            let h = &headers[i];
            if *h == ts {
                f.timestamp_pos = i;
            } else if *h == xa {
                f.x_address_pos = i;
            } else if *h == ya {
                f.y_address_pos = i;
            } else if *h == po {
                f.polarity_pos = i;
            }
            i = i + 1;
            proof {
                let pre = headers@.subrange(0, i - 1);
                let cur = headers@.subrange(0, i as int);
                assert(cur.drop_last() =~= pre);
                assert(cur.last() == headers@[i - 1]);
            }
        }
        proof {
            assert(headers@.subrange(0, headers@.len() as int) =~= headers@);
        }
        f
    }

    /// Whether the row has all four required columns.
    pub open spec fn fields_present(self, record: Seq<String>) -> bool {
        &&& self.timestamp_pos() < record.len()
        &&& self.x_address_pos() < record.len()
        &&& self.y_address_pos() < record.len()
        &&& self.polarity_pos() < record.len()
    }

    /// Whether all four required fields parse as 32-bit integers.
    pub open spec fn fields_parse(self, record: Seq<String>) -> bool {
        &&& spec_parse_i32(record[self.timestamp_pos() as int]@) is Some
        &&& spec_parse_i32(record[self.x_address_pos() as int]@) is Some
        &&& spec_parse_i32(record[self.y_address_pos() as int]@) is Some
        &&& spec_parse_i32(record[self.polarity_pos() as int]@) is Some
    }

    /// Whether the raw coordinates lie on the sensor.
    pub open spec fn coords_in_range(self, record: Seq<String>) -> bool {
        &&& match spec_parse_i32(record[self.x_address_pos() as int]@) {
            Some(x) => 0 <= x < DVS_X,
            None => false,
        }
        &&& match spec_parse_i32(record[self.y_address_pos() as int]@) {
            Some(y) => 0 <= y < DVS_Y,
            None => false,
        }
    }

    /// Turn one data row into an event: parse the four fields and
    /// mirror each coordinate across its axis. A short row, a field
    /// that does not parse, or an off-sensor coordinate is a fatal
    /// record error, in that order of precedence.
    pub fn make_pixel_event(&self, record: &Vec<String>) -> (r: Result<PixelEvent, EventParseError>)
        ensures
            r is Ok <==> self.fields_present(record@) && self.fields_parse(record@)
                && self.coords_in_range(record@),
            match r {
                Ok(pe) => {
                    &&& spec_parse_i32(record@[self.timestamp_pos() as int]@) == Some(pe.timestamp)
                    &&& spec_parse_i32(record@[self.polarity_pos() as int]@) == Some(pe.polarity)
                    &&& spec_parse_i32(record@[self.x_address_pos() as int]@) == Some(
                        (DVS_X - 1 - pe.x_address) as i32,
                    )
                    &&& spec_parse_i32(record@[self.y_address_pos() as int]@) == Some(
                        (DVS_Y - 1 - pe.y_address) as i32,
                    )
                    &&& 0 <= pe.x_address < DVS_X
                    &&& 0 <= pe.y_address < DVS_Y
                },
                Err(e) => {
                    &&& (e == EventParseError::MissingField <==> !self.fields_present(record@))
                    &&& (e == EventParseError::BadField <==> self.fields_present(record@)
                        && !self.fields_parse(record@))
                    &&& (e == EventParseError::CoordinateOutOfRange <==> self.fields_present(
                        record@,
                    ) && self.fields_parse(record@) && !self.coords_in_range(record@))
                },
            },
    {
        if self.timestamp_pos >= record.len() || self.x_address_pos >= record.len()
            || self.y_address_pos >= record.len() || self.polarity_pos >= record.len() {
            return Err(EventParseError::MissingField);
        }
        let timestamp = match parse_i32(record[self.timestamp_pos].as_str()) {
            Some(v) => v,
            None => {
                return Err(EventParseError::BadField);
            },
        };
        let raw_x = match parse_i32(record[self.x_address_pos].as_str()) {
            Some(v) => v,
            None => {
                return Err(EventParseError::BadField);
            },
        };
        let raw_y = match parse_i32(record[self.y_address_pos].as_str()) {
            Some(v) => v,
            None => {
                return Err(EventParseError::BadField);
            },
        };
        let polarity = match parse_i32(record[self.polarity_pos].as_str()) {
            Some(v) => v,
            None => {
                return Err(EventParseError::BadField);
            },
        };
        if raw_x < 0 || raw_x >= DVS_X || raw_y < 0 || raw_y >= DVS_Y {
            return Err(EventParseError::CoordinateOutOfRange);
        }
        Ok(PixelEvent {
            timestamp,
            polarity,
            x_address: DVS_X - raw_x - 1,
            y_address: DVS_Y - raw_y - 1,
        })
    }
}

} // verus!

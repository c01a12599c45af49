//! Birthday dates: a day and a month, with an optional year.

use crate::calendar::{valid_ymd, CalendarDate, MIN_YEAR};
use crate::text::{
    all_digits, decimal, is_digit, lemma_decimal, lemma_pad2, lemma_split_append,
    lemma_split_sep, lemma_split_single, parse_i32, unsigned_digits, parse_i32_spec, parse_u32, parse_u32_spec, pad2, push_pad2,
    push_signed_decimal, signed_decimal, split_chars, split_on, string_from_chars,
};
use vstd::prelude::*;

verus! {

/// The year used to check a date whose year is unknown: a leap year, so that
/// February 29 is accepted.
pub const PROBE_YEAR: i32 = 2000;

/// Why a string is not a birthday date.
#[derive(Clone, Copy, Debug, PartialEq, Eq, Structural)]
pub enum DateParseError {
    /// The number of fields, or the separator, fits none of the accepted forms.
    InvalidFormat,
    /// The day field is not a number.
    InvalidDay,
    /// The month field is not a number.
    InvalidMonth,
    /// The year field is not a number.
    InvalidYear,
    /// The numbers do not form a real calendar date.
    InvalidDate,
}

impl DateParseError {
    /// A one-line description of the error.
    pub fn message(&self) -> &'static str {
        match self {
            DateParseError::InvalidFormat => "Invalid date format, use DD/MM, DD/MM/YYYY, or YYYY-MM-DD",
            DateParseError::InvalidDay => "Invalid day",
            DateParseError::InvalidMonth => "Invalid month",
            DateParseError::InvalidYear => "Invalid year",
            DateParseError::InvalidDate => "Invalid date",
        }
    }
}

/// A birthday: day and month, and the year of birth when it is known.
#[derive(Clone, Copy, Debug, PartialEq, Eq, Structural)]
pub struct BirthdayDate {
    pub day: u32,
    pub month: u32,
    pub year: Option<i32>,
}

/// The year against which a birthday is checked.
pub open spec fn year_or_probe(year: Option<i32>) -> i32 {
    match year {
        Some(y) => y,
        None => PROBE_YEAR,
    }
}

/// The character that separates the fields of a date: `-` or `/`.
pub open spec fn is_separator(c: char) -> bool {
    c == '/' || c == '-'
}

/// The first separator of a date string; `/` when there is none.
pub open spec fn first_separator(s: Seq<char>) -> char
    decreases s.len(),
{
    if s.len() == 0 {
        '/'
    } else if is_separator(s[0]) {
        s[0]
    } else {
        first_separator(s.skip(1))
    }
}

/// The day, month and year fields of a date string, before the calendar
/// check. The first separator chooses the form.
pub open spec fn parse_fields(s: Seq<char>) -> Result<(u32, u32, Option<i32>), DateParseError> {
    let sep = first_separator(s);
    let parts = split_on(s, sep);
    if parts.len() == 2 && sep == '/' {
        match parse_u32_spec(parts[0]) {
            None => Err(DateParseError::InvalidDay),
            Some(d) => match parse_u32_spec(parts[1]) {
                None => Err(DateParseError::InvalidMonth),
                Some(m) => Ok((d, m, None)),
            },
        }
    } else if parts.len() == 3 && sep == '-' {
        match parse_i32_spec(parts[0]) {
            None => Err(DateParseError::InvalidYear),
            Some(y) => match parse_u32_spec(parts[1]) {
                None => Err(DateParseError::InvalidMonth),
                Some(m) => match parse_u32_spec(parts[2]) {
                    None => Err(DateParseError::InvalidDay),
                    Some(d) => Ok((d, m, Some(y))),
                },
            },
        }
    } else if parts.len() == 3 {
        match parse_u32_spec(parts[0]) {
            None => Err(DateParseError::InvalidDay),
            Some(d) => match parse_u32_spec(parts[1]) {
                None => Err(DateParseError::InvalidMonth),
                Some(m) => match parse_i32_spec(parts[2]) {
                    None => Err(DateParseError::InvalidYear),
                    Some(y) => Ok((d, m, Some(y))),
                },
            },
        }
    } else {
        Err(DateParseError::InvalidFormat)
    }
}

/// What a date string denotes: `DD/MM`, `DD/MM/YYYY` or `YYYY-MM-DD`, whose
/// numbers form a real date (with the probe year when the year is absent).
pub open spec fn parse_spec(s: Seq<char>) -> Result<BirthdayDate, DateParseError> {
    match parse_fields(s) {
        Err(e) => Err(e),
        Ok((d, m, y)) => if valid_ymd(year_or_probe(y) as int, m as int, d as int) {
            Ok(BirthdayDate { day: d, month: m, year: y })
        } else {
            Err(DateParseError::InvalidDate)
        },
    }
}

/// The display form: `DD/MM`, or `DD/MM/YYYY` when the year is known.
pub open spec fn format_spec(b: BirthdayDate) -> Seq<char> {
    let dm = pad2(b.day as nat) + seq!['/'] + pad2(b.month as nat);
    match b.year {
        Some(y) => dm + seq!['/'] + signed_decimal(y as int),
        None => dm,
    }
}

/// The first separator of `chars`; `/` when there is none.
fn find_first_separator(chars: &Vec<char>) -> (r: char)
    ensures
        r == first_separator(chars@),
{
    let mut i: usize = 0;
    assert(chars@.skip(0) =~= chars@);
    while i < chars.len()
        invariant
            i <= chars@.len(),
            first_separator(chars@) == first_separator(chars@.skip(i as int)),
        decreases chars@.len() - i,
    {
        let c = chars[i];
        if c == '/' || c == '-' {
            return c;
        }
        assert(chars@.skip(i as int).skip(1) =~= chars@.skip(i + 1 as int));
        i = i + 1;
    }
    '/'
}

impl BirthdayDate {
    /// The date is a real one: in its year when known, else in a leap year.
    pub open spec fn wf(self) -> bool {
        valid_ymd(year_or_probe(self.year) as int, self.month as int, self.day as int)
    }

    /// Parses `DD/MM`, `DD/MM/YYYY` or `YYYY-MM-DD`; leading zeros are allowed,
    /// and a year may carry a sign. The first separator chooses the form.
    pub fn from_str(date: &str) -> (r: Result<BirthdayDate, DateParseError>)
        ensures
            r == parse_spec(date@),
            r is Ok ==> r->Ok_0.wf(),
    {
        let chars = crate::text::chars_of(date);
        let sep = find_first_separator(&chars);
        let parts = split_chars(&chars, sep);
        let ghost sparts = split_on(date@, sep);
        let fields: Result<(u32, u32, Option<i32>), DateParseError> = if parts.len() == 2 && sep
            == '/' {
            match parse_u32(&parts[0]) {
                None => Err(DateParseError::InvalidDay),
                Some(d) => match parse_u32(&parts[1]) {
                    None => Err(DateParseError::InvalidMonth),
                    Some(m) => Ok((d, m, None)),
                },
            }
        } else if parts.len() == 3 && sep == '-' {
            match parse_i32(&parts[0]) {
                None => Err(DateParseError::InvalidYear),
                Some(y) => match parse_u32(&parts[1]) {
                    None => Err(DateParseError::InvalidMonth),
                    Some(m) => match parse_u32(&parts[2]) {
                        None => Err(DateParseError::InvalidDay),
                        Some(d) => Ok((d, m, Some(y))),
                    },
                },
            }
        } else if parts.len() == 3 {
            match parse_u32(&parts[0]) {
                None => Err(DateParseError::InvalidDay),
                Some(d) => match parse_u32(&parts[1]) {
                    None => Err(DateParseError::InvalidMonth),
                    Some(m) => match parse_i32(&parts[2]) {
                        None => Err(DateParseError::InvalidYear),
                        Some(y) => Ok((d, m, Some(y))),
                    },
                },
            }
        } else {
            Err(DateParseError::InvalidFormat)
        };
        assert(fields == parse_fields(date@)) by {
            if parts.len() >= 1 {
                assert(parts@[0]@ == sparts[0]);
            }
            if parts.len() >= 2 {
                assert(parts@[1]@ == sparts[1]);
            }
            if parts.len() >= 3 {
                assert(parts@[2]@ == sparts[2]);
            }
        }
        match fields {
            Err(e) => Err(e),
            Ok((d, m, y)) => {
                let probe = match y {
                    Some(v) => v,
                    None => PROBE_YEAR,
                };
                if crate::calendar::date_exists(probe, m, d) {
                    Ok(BirthdayDate { day: d, month: m, year: y })
                } else {
                    Err(DateParseError::InvalidDate)
                }
            },
        }
    }

    /// The display form `DD/MM` or `DD/MM/YYYY`, day and month zero-padded.
    pub fn to_string(&self) -> (r: String)
        ensures
            r@ == format_spec(*self),
    {
        let mut out: Vec<char> = Vec::new();
        push_pad2(self.day as u64, &mut out);
        out.push('/');
        push_pad2(self.month as u64, &mut out);
        match self.year {
            Some(y) => {
                out.push('/');
                push_signed_decimal(y as i64, &mut out);
            },
            None => {},
        }
        let r = string_from_chars(&out);
        assert(r@ =~= format_spec(*self));
        r
    }

    /// The date in its year of birth, or in the probe year when that is unknown.
    pub fn naive_date_safe_year(&self) -> (r: CalendarDate)
        requires
            self.wf(),
        ensures
            r == (CalendarDate { year: year_or_probe(self.year), month: self.month, day: self.day }),
            r.wf(),
    {
        let year = match self.year {
            Some(y) => y,
            None => PROBE_YEAR,
        };
        CalendarDate { year, month: self.month, day: self.day }
    }
}

impl From<CalendarDate> for BirthdayDate {
    fn from(date: CalendarDate) -> (r: BirthdayDate)
        ensures
            r == (BirthdayDate { day: date.day, month: date.month, year: Some(date.year) }),
    {
        BirthdayDate { day: date.day, month: date.month, year: Some(date.year) }
    }
}

impl vstd::std_specs::convert::FromSpecImpl<CalendarDate> for BirthdayDate {
    open spec fn obeys_from_spec() -> bool {
        true
    }

    open spec fn from_spec(date: CalendarDate) -> BirthdayDate {
        BirthdayDate { day: date.day, month: date.month, year: Some(date.year) }
    }
}

proof fn lemma_digits_exclude(a: Seq<char>)
    requires
        all_digits(a),
    ensures
        !a.contains('/'),
        a.len() > 0 ==> a[0] != '-' && a[0] != '+',
        forall|k: int| 0 <= k < a.len() ==> !is_separator(#[trigger] a[k]),
{
    if a.contains('/') {
        let k = choose|k: int| 0 <= k < a.len() && a[k] == '/';
        assert(is_digit(a[k]));
    }
    if a.len() > 0 {
        assert(is_digit(a[0]));
    }
    assert forall|k: int| 0 <= k < a.len() implies !is_separator(#[trigger] a[k]) by {
        assert(is_digit(a[k]));
    }
}

/// Characters other than separators in front do not change the first separator.
proof fn lemma_first_separator_skips(a: Seq<char>, b: Seq<char>)
    requires
        forall|k: int| 0 <= k < a.len() ==> !is_separator(#[trigger] a[k]),
    ensures
        first_separator(a + b) == first_separator(b),
    decreases a.len(),
{
    if a.len() > 0 {
        assert(!is_separator(a[0]));
        assert((a + b).skip(1) =~= a.skip(1) + b);
        assert forall|k: int| 0 <= k < a.skip(1).len() implies !is_separator(#[trigger] a.skip(1)[k]) by {
            assert(a.skip(1)[k] == a[k + 1]);
        }
        lemma_first_separator_skips(a.skip(1), b);
    } else {
        assert(a + b =~= b);
    }
}

/// Two digit fields joined by a separator split back into those fields.
proof fn lemma_split_two(a: Seq<char>, b: Seq<char>, c: char)
    requires
        !a.contains(c),
        !b.contains(c),
    ensures
        split_on(a + seq![c] + b, c) == seq![a, b],
{
    lemma_split_single(a, c);
    lemma_split_sep(a, c);
    assert(a + seq![c] =~= a.push(c));
    lemma_split_append(a.push(c), b, c);
    assert(Seq::<char>::empty() + b =~= b);
    assert(seq![a, Seq::<char>::empty()].drop_last().push(Seq::<char>::empty() + b) =~= seq![a, b]);
}

/// Three digit fields joined by a separator split back into those fields.
proof fn lemma_split_three(a: Seq<char>, b: Seq<char>, d: Seq<char>, c: char)
    requires
        !a.contains(c),
        !b.contains(c),
        !d.contains(c),
    ensures
        split_on(a + seq![c] + b + seq![c] + d, c) == seq![a, b, d],
{
    let x = a + seq![c] + b;
    lemma_split_two(a, b, c);
    lemma_split_sep(x, c);
    assert(x + seq![c] =~= x.push(c));
    lemma_split_append(x.push(c), d, c);
    assert(Seq::<char>::empty() + d =~= d);
    assert(seq![a, b, Seq::<char>::empty()].drop_last().push(Seq::<char>::empty() + d) =~= seq![a, b, d]);
}

/// The numeral of a year reads back as that year.
proof fn lemma_year_numeral(y: i32)
    requires
        MIN_YEAR <= y,
    ensures
        parse_i32_spec(signed_decimal(y as int)) == Some(y),
        !signed_decimal(y as int).contains('/'),
{
    let s = signed_decimal(y as int);
    if y < 0 {
        let d = decimal((-y) as nat);
        lemma_decimal((-y) as nat);
        lemma_digits_exclude(d);
        assert(s == seq!['-'] + d);
        assert(s.skip(1) =~= d);
        assert(s[0] == '-');
        if s.contains('/') {
            let k = choose|k: int| 0 <= k < s.len() && s[k] == '/';
            if k > 0 {
                assert(d[k - 1] == '/');
            }
        }
    } else {
        lemma_decimal(y as nat);
        lemma_digits_exclude(s);
        assert(unsigned_digits(s) == s);
    }
}

/// Formatting a birthday and parsing the result gives the birthday back, for
/// every valid birthday.
pub proof fn lemma_format_parse_round_trip(b: BirthdayDate)
    requires
        b.wf(),
    ensures
        parse_spec(format_spec(b)) == Ok::<BirthdayDate, DateParseError>(b),
{
    let pd = pad2(b.day as nat);
    let pm = pad2(b.month as nat);
    lemma_pad2(b.day as nat);
    lemma_pad2(b.month as nat);
    lemma_digits_exclude(pd);
    lemma_digits_exclude(pm);
    let slash: Seq<char> = seq!['/'];
    assert(unsigned_digits(pd) == pd);
    assert(unsigned_digits(pm) == pm);
    assert(parse_u32_spec(pd) == Some(b.day));
    assert(parse_u32_spec(pm) == Some(b.month));
    let rest = match b.year {
        Some(y) => slash + pm + slash + signed_decimal(y as int),
        None => slash + pm,
    };
    assert(format_spec(b) =~= pd + rest);
    lemma_first_separator_skips(pd, rest);
    assert(rest[0] == '/');
    assert(first_separator(format_spec(b)) == '/');
    match b.year {
        None => {
            lemma_split_two(pd, pm, '/');
            assert(format_spec(b) =~= pd + slash + pm);
        },
        Some(y) => {
            let py = signed_decimal(y as int);
            lemma_year_numeral(y);
            lemma_split_three(pd, pm, py, '/');
            assert(format_spec(b) =~= pd + slash + pm + slash + py);
        },
    }
}

/// A string parses exactly when its fields fit one of the accepted forms and
/// their numbers form a real date (in the probe year when the year is absent);
/// what it parses to is always a valid birthday.
pub proof fn lemma_parse_calendar_validity(s: Seq<char>)
    ensures
        parse_spec(s) is Ok <==> (parse_fields(s) is Ok && valid_ymd(
            year_or_probe(parse_fields(s)->Ok_0.2) as int,
            parse_fields(s)->Ok_0.1 as int,
            parse_fields(s)->Ok_0.0 as int,
        )),
        parse_spec(s) is Ok ==> parse_spec(s)->Ok_0.wf(),
{
}

} // verus!

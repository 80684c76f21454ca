//! Field types with a server-managed or text storage form: the creation
//! timestamp, the external identifier and the calendar date column.

use vstd::prelude::*;
use crate::date::{Date, Month, valid_ymd};
use crate::utc::{TimeError, format_time, now_utc_seconds, parse_utc, rfc3339_accepts};

verus! {

// region:    --- Timestamp

/// A creation timestamp, held as its RFC 3339 text. Timestamps made by
/// `now` are whole seconds in UTC, so they share one fixed width and sort as
/// text in time order.
#[derive(Debug, Clone)]
pub struct Timestamp {
    text: String,
}

impl View for Timestamp {
    type V = Seq<char>;

    closed spec fn view(&self) -> Seq<char> {
        self.text@
    }
}

/// The name of the creation timestamp column.
pub enum TimestampIden {
    Ctime,
}

impl TimestampIden {
    pub fn name(&self) -> (r: &'static str)
        ensures
            r@ == "ctime"@,
    {
        "ctime"
    }
}

impl Timestamp {
    /// The text reads as an RFC 3339 date and time.
    pub open spec fn wf(&self) -> bool {
        rfc3339_accepts(self@)
    }

    /// The current instant; fails only where the clock is outside years 0 to 9999.
    pub fn now() -> (r: Result<Timestamp, TimeError>)
        ensures
            r matches Ok(t) ==> t.wf(),
    {
        match format_time(now_utc_seconds()) {
            Ok(text) => Ok(Timestamp { text }),
            Err(e) => Err(e),
        }
    }

    /// The timestamp that `text` gives, if it is RFC 3339 text.
    pub fn from_text(text: &str) -> (r: Option<Timestamp>)
        ensures
            r is Some <==> rfc3339_accepts(text@),
            r matches Some(t) ==> t@ == text@,
    {
        match parse_utc(text) {
            Ok(_) => Some(Timestamp { text: text.to_owned() }),
            Err(_) => None,
        }
    }

    pub fn as_str(&self) -> (r: &str)
        ensures
            r@ == self@,
    {
        self.text.as_str()
    }
}

// endregion: --- Timestamp

// region:    --- WebId

pub open spec fn hex_char(n: int) -> char {
    if n < 10 {
        ('0' as int + n) as char
    } else {
        ('a' as int + n - 10) as char
    }
}

/// The `i`-th hexadecimal digit of `v`, from the most significant.
pub open spec fn hex_digit_of(v: u128, i: int) -> char {
    hex_char((v as int / vstd::arithmetic::power2::pow2((4 * (31 - i)) as nat) as int) % 16)
}

/// The hyphenated lower-case text of a 128-bit value: 32 hexadecimal digits
/// in groups of 8, 4, 4, 4 and 12.
pub open spec fn uuid_text(v: u128) -> Seq<char> {
    let h = Seq::new(32, |i: int| hex_digit_of(v, i));
    h.subrange(0, 8) + seq!['-'] + h.subrange(8, 12) + seq!['-'] + h.subrange(12, 16) + seq!['-']
        + h.subrange(16, 20) + seq!['-'] + h.subrange(20, 32)
}

/// What `Uuid::parse_str` reads from a text.
pub uninterp spec fn uuid_parse(s: Seq<char>) -> Option<u128>;

/// Relies on `Uuid::now_v7`: a fresh version 7 identifier of the RFC 4122
/// variant; the version is the four bits above the lowest 76, the variant the
/// two bits above the lowest 62.
#[verifier::external_body]
fn uuid_now_v7() -> (r: u128)
    ensures
        (r >> 76u128) & 0xfu128 == 7,
        (r >> 62u128) & 0x3u128 == 2,
{
    uuid::Uuid::now_v7().as_u128()
}

/// Relies on the `Display` of `uuid::Uuid` from `Uuid::from_u128`: the
/// hyphenated lower-case form of the value, most significant digit first.
#[verifier::external_body]
fn uuid_to_text(v: u128) -> (r: String)
    ensures
        r@ == uuid_text(v),
{
    uuid::Uuid::from_u128(v).to_string()
}

/// Relies on `Uuid::parse_str`, which reads back the hyphenated form.
#[verifier::external_body]
fn uuid_from_text(s: &str) -> (r: Option<u128>)
    ensures
        r == uuid_parse(s@),
        forall|v: u128| #[trigger] uuid_text(v) == s@ ==> r == Some(v),
{
    uuid::Uuid::parse_str(s).ok().map(|u| u.as_u128())
}

/// An identifier exposed outside the service in place of the primary key.
#[derive(Debug, Clone, Copy, PartialEq, Eq, Structural)]
pub struct WebId {
    pub value: u128,
}

/// The name of the external identifier column.
pub enum WebIdIden {
    WebId,
}

impl WebIdIden {
    pub fn name(&self) -> (r: &'static str)
        ensures
            r@ == "web_id"@,
    {
        "web_id"
    }
}

impl WebId {
    pub fn new(value: u128) -> (r: WebId)
        ensures
            r.value == value,
    {
        WebId { value }
    }

    /// A fresh, time-ordered identifier (UUID version 7, RFC 4122 variant).
    pub fn generate() -> (r: WebId)
        ensures
            (r.value >> 76u128) & 0xfu128 == 7,
            (r.value >> 62u128) & 0x3u128 == 2,
    {
        WebId { value: uuid_now_v7() }
    }

    /// The canonical text form.
    pub fn to_text(&self) -> (r: String)
        ensures
            r@ == uuid_text(self.value),
    {
        uuid_to_text(self.value)
    }

    /// The identifier written in `s`, if any.
    pub fn from_text(s: &str) -> (r: Option<WebId>)
        ensures
            match uuid_parse(s@) {
                Some(v) => r == Some(WebId { value: v }),
                None => r is None,
            },
            forall|v: u128| #[trigger] uuid_text(v) == s@ ==> r == Some(WebId { value: v }),
    {
        match uuid_from_text(s) {
            Some(v) => Some(WebId { value: v }),
            None => None,
        }
    }
}

// endregion: --- WebId

// region:    --- ModelDate

pub open spec fn digit_char(n: int) -> char {
    ('0' as int + n) as char
}

pub open spec fn is_digit(c: char) -> bool {
    '0' <= c <= '9'
}

pub open spec fn digit_value(c: char) -> int {
    c as int - '0' as int
}

pub open spec fn two_digits(n: int) -> Seq<char> {
    seq![digit_char(n / 10 % 10), digit_char(n % 10)]
}

pub open spec fn four_digits(n: int) -> Seq<char> {
    seq![digit_char(n / 1000 % 10), digit_char(n / 100 % 10)] + two_digits(n)
}

/// The storage text of a date: `YYYY-MM-DD`, with a leading `-` before years BC.
pub open spec fn date_text(d: Date) -> Seq<char> {
    let year = if d.spec_year() < 0 {
        seq!['-'] + four_digits(-d.spec_year())
    } else {
        four_digits(d.spec_year())
    };
    year + seq!['-'] + two_digits(d.spec_month()) + seq!['-'] + two_digits(d.spec_day())
}

pub open spec fn digits_at(s: Seq<char>, start: int, n: int) -> bool {
    forall|i: int| start <= i < start + n ==> is_digit(#[trigger] s[i])
}

pub open spec fn number_at(s: Seq<char>, start: int, n: nat) -> int
    decreases n,
{
    if n == 0 {
        0
    } else {
        number_at(s, start, (n - 1) as nat) * 10 + digit_value(s[start + n - 1])
    }
}

/// The year, month and day that a `YYYY-MM-DD` text (year optionally after a
/// `-`) writes, before any check of the calendar.
pub open spec fn parse_date_text(s: Seq<char>) -> Option<(int, int, int)> {
    let o: int = if s.len() == 11 && s[0] == '-' {
        1
    } else {
        0
    };
    if (s.len() == 10 || o == 1) && digits_at(s, o, 4) && s[o + 4] == '-' && digits_at(s, o + 5, 2)
        && s[o + 7] == '-' && digits_at(s, o + 8, 2) {
        let y = number_at(s, o, 4);
        Some(
            (
                if o == 1 {
                    -y
                } else {
                    y
                },
                number_at(s, o + 5, 2),
                number_at(s, o + 8, 2),
            ),
        )
    } else {
        None
    }
}


proof fn lemma_digit(x: int)
    requires
        0 <= x < 10,
    ensures
        is_digit(digit_char(x)),
        digit_value(digit_char(x)) == x,
{
}

proof fn lemma_two_digits(n: int)
    requires
        0 <= n < 100,
    ensures
        digits_at(two_digits(n), 0, 2),
        number_at(two_digits(n), 0, 2) == n,
{
    lemma_digit(n / 10 % 10);
    lemma_digit(n % 10);
    reveal_with_fuel(number_at, 3);
    assert(digits_at(two_digits(n), 0, 2)) by {
        assert forall|i: int| 0 <= i < 2 implies is_digit(#[trigger] two_digits(n)[i]) by {
            if i == 0 {
                assert(two_digits(n)[0] == digit_char(n / 10 % 10));
            } else {
                assert(two_digits(n)[1] == digit_char(n % 10));
            }
        }
    }
}

proof fn lemma_four_digits(n: int)
    requires
        0 <= n < 10000,
    ensures
        digits_at(four_digits(n), 0, 4),
        number_at(four_digits(n), 0, 4) == n,
{
    let s = four_digits(n);
    lemma_digit(n / 1000 % 10);
    lemma_digit(n / 100 % 10);
    lemma_digit(n / 10 % 10);
    lemma_digit(n % 10);
    assert(s[0] == digit_char(n / 1000 % 10));
    assert(s[1] == digit_char(n / 100 % 10));
    assert(s[2] == digit_char(n / 10 % 10));
    assert(s[3] == digit_char(n % 10));
    reveal_with_fuel(number_at, 5);
    assert(((n / 1000 % 10) * 10 + n / 100 % 10) * 10 * 10 + (n / 10 % 10) * 10 + n % 10 == n)
        by (nonlinear_arith)
        requires
            0 <= n < 10000,
    ;
}

/// Reading digits of a text at an offset reads the same digits of the part there.
proof fn lemma_number_at_shift(a: Seq<char>, b: Seq<char>, c: Seq<char>, n: nat)
    requires
        n <= b.len(),
    ensures
        number_at(a + b + c, a.len() as int, n) == number_at(b, 0, n),
        digits_at(b, 0, n as int) ==> digits_at(a + b + c, a.len() as int, n as int),
    decreases n,
{
    if n > 0 {
        lemma_number_at_shift(a, b, c, (n - 1) as nat);
        assert((a + b + c)[a.len() + n - 1] == b[n - 1]);
    }
    if digits_at(b, 0, n as int) {
        assert forall|i: int| a.len() <= i < a.len() + n implies is_digit(#[trigger] (a + b + c)[i]) by {
            assert((a + b + c)[i] == b[i - a.len()]);
        }
    }
}

/// The storage text of a valid date reads back as that date.
pub proof fn lemma_date_text_round_trip(d: Date)
    requires
        d.wf(),
    ensures
        parse_date_text(date_text(d)) == Some((d.spec_year(), d.spec_month(), d.spec_day())),
{
    let y = d.spec_year();
    let ay = if y < 0 {
        -y
    } else {
        y
    };
    let sign: Seq<char> = if y < 0 {
        seq!['-']
    } else {
        Seq::empty()
    };
    let yd = four_digits(ay);
    let md = two_digits(d.spec_month());
    let dd = two_digits(d.spec_day());
    let s = date_text(d);
    lemma_four_digits(ay);
    lemma_two_digits(d.spec_month());
    lemma_two_digits(d.spec_day());
    let o = sign.len() as int;
    assert(s =~= sign + yd + (seq!['-'] + md + seq!['-'] + dd));
    lemma_number_at_shift(sign, yd, seq!['-'] + md + seq!['-'] + dd, 4);
    assert(s =~= (sign + yd + seq!['-']) + md + (seq!['-'] + dd));
    lemma_number_at_shift(sign + yd + seq!['-'], md, seq!['-'] + dd, 2);
    assert(s =~= (sign + yd + seq!['-'] + md + seq!['-']) + dd + Seq::<char>::empty());
    lemma_number_at_shift(sign + yd + seq!['-'] + md + seq!['-'], dd, Seq::<char>::empty(), 2);
    assert(s.len() == o + 10);
    assert(s[o + 4] == '-');
    assert(s[o + 7] == '-');
    if y < 0 {
        assert(s[0] == '-');
    } else {
        assert(s[0] == yd[0]);
        assert(is_digit(yd[0]));
    }
}

/// A calendar date stored in a text column.
#[derive(Debug, Clone, Copy, PartialEq, Eq, Structural)]
pub struct ModelDate(pub Date);

/// The text of one digit.
fn digit_str(n: u32) -> (r: &'static str)
    requires
        n < 10,
    ensures
        r@ == seq![digit_char(n as int)],
{
    proof {
        reveal_strlit("0");
        reveal_strlit("1");
        reveal_strlit("2");
        reveal_strlit("3");
        reveal_strlit("4");
        reveal_strlit("5");
        reveal_strlit("6");
        reveal_strlit("7");
        reveal_strlit("8");
        reveal_strlit("9");
    }
    let r = match n {
        0 => "0",
        1 => "1",
        2 => "2",
        3 => "3",
        4 => "4",
        5 => "5",
        6 => "6",
        7 => "7",
        8 => "8",
        _ => "9",
    };
    assert(r@ =~= seq![digit_char(n as int)]);
    r
}

fn push_digits(out: &mut String, n: u32, width: u32)
    requires
        width == 2 || width == 4,
    ensures
        width == 2 ==> final(out)@ == old(out)@ + two_digits(n as int),
        width == 4 ==> final(out)@ == old(out)@ + four_digits(n as int),
{
    if width == 4 {
        out.append(digit_str(n / 1000 % 10));
        out.append(digit_str(n / 100 % 10));
    }
    out.append(digit_str(n / 10 % 10));
    out.append(digit_str(n % 10));
    assert(width == 4 ==> final(out)@ =~= old(out)@ + four_digits(n as int));
    assert(width == 2 ==> final(out)@ =~= old(out)@ + two_digits(n as int));
}

fn char_digit(c: char) -> (r: Option<u32>)
    ensures
        r is Some <==> is_digit(c),
        r matches Some(v) ==> v as int == digit_value(c) && v < 10,
{
    if '0' <= c && c <= '9' {
        Some(c as u32 - '0' as u32)
    } else {
        None
    }
}

/// Reads `n` digits of `s` from `start`.
fn read_number(s: &str, start: usize, n: usize) -> (r: Option<u32>)
    requires
        start + n <= s@.len(),
        start <= 16,
        n <= 4,
    ensures
        r is Some <==> digits_at(s@, start as int, n as int),
        r matches Some(v) ==> v as int == number_at(s@, start as int, n as nat) && v < 10000 && (n
            <= 2 ==> v < 100),
{
    let mut v: u32 = 0;
    let mut i: usize = 0;
    while i < n
        invariant
            start + n <= s@.len(),
            start <= 16,
            n <= 4,
            i <= n,
            digits_at(s@, start as int, i as int),
            v as int == number_at(s@, start as int, i as nat),
            v < 10000,
            i <= 3 ==> v < 1000,
            i <= 2 ==> v < 100,
            i <= 1 ==> v < 10,
            i == 0 ==> v == 0,
        decreases n - i,
    {
        match char_digit(s.get_char(start + i)) {
            Some(dv) => {
                v = v * 10 + dv;
            },
            None => {
                return None;
            },
        }
        i = i + 1;
    }
    Some(v)
}

impl ModelDate {
    pub fn new(date: Date) -> (r: ModelDate)
        ensures
            r.0 == date,
    {
        ModelDate(date)
    }

    pub fn date(&self) -> (r: Date)
        ensures
            r == self.0,
    {
        self.0
    }

    /// The storage text.
    pub fn to_text(&self) -> (r: String)
        requires
            self.0.wf(),
        ensures
            r@ == date_text(self.0),
    {
        let d = self.0;
        let mut out = String::new();
        if d.year < 0 {
            out.append("-");
            push_digits(&mut out, (-d.year) as u32, 4);
        } else {
            push_digits(&mut out, d.year as u32, 4);
        }
        out.append("-");
        push_digits(&mut out, d.month.number() as u32, 2);
        out.append("-");
        push_digits(&mut out, d.day as u32, 2);
        proof {
            reveal_strlit("-");
        }
        assert(out@ =~= date_text(d));
        out
    }

    /// The date written in `s`, if it is a `YYYY-MM-DD` text of a real date.
    pub fn from_text(s: &str) -> (r: Option<ModelDate>)
        ensures
            match parse_date_text(s@) {
                Some((y, m, d)) => if valid_ymd(y, m, d) {
                    r matches Some(md) && md.0.wf() && md.0.spec_year() == y && md.0.spec_month()
                        == m && md.0.spec_day() == d
                } else {
                    r is None
                },
                None => r is None,
            },
    {
        let len = s.unicode_len();
        let o: usize = if len == 11 && s.get_char(0) == '-' {
            1
        } else {
            0
        };
        if len != 10 && o == 0 {
            return None;
        }
        let y = match read_number(s, o, 4) {
            Some(v) => v,
            None => return None,
        };
        if s.get_char(o + 4) != '-' || s.get_char(o + 7) != '-' {
            return None;
        }
        let m = match read_number(s, o + 5, 2) {
            Some(v) => v,
            None => return None,
        };
        let d = match read_number(s, o + 8, 2) {
            Some(v) => v,
            None => return None,
        };
        let year: i32 = if o == 1 {
            -(y as i32)
        } else {
            y as i32
        };
        let month = match Month::from_number(m as u8) {
            Some(mm) => mm,
            None => return None,
        };
        match Date::from_calendar_date(year, month, d as u8) {
            Ok(date) => Some(ModelDate(date)),
            Err(_) => None,
        }
    }
}

// endregion: --- ModelDate

} // verus!

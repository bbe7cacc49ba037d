//! Where captures go and what they are called.

use crate::decimals;
use crate::text;
use vstd::prelude::*;

verus! {

/// Whether `std::path::Path::is_absolute` holds of a path, on a platform whose main separator is
/// `separator`.
pub uninterp spec fn path_is_absolute(separator: char, path: Seq<char>) -> bool;

/// What `std::path::Path::join` makes of a folder and a path, on a platform whose main separator
/// is `separator`.
pub uninterp spec fn path_joined(separator: char, folder: Seq<char>, path: Seq<char>) -> Seq<char>;

/// Asks `std::path::Path::is_absolute`. What counts as absolute differs between platforms, so the
/// answer is given with the platform's main separator (`std::path::MAIN_SEPARATOR`), on which it
/// is taken to depend; nothing is said of which paths are absolute.
#[verifier::external_body]
fn host_is_absolute(path: &str) -> (res: (char, bool))
    ensures
        res.1 == path_is_absolute(res.0, path@),
{
    (std::path::MAIN_SEPARATOR, std::path::Path::new(path).is_absolute())
}

/// Asks `std::path::Path::join`. How a path is joined to a folder differs between platforms, so
/// the result is given with the platform's main separator (`std::path::MAIN_SEPARATOR`), on which
/// it is taken to depend; nothing else is said of its text. Both paths are text, so the result is.
#[verifier::external_body]
fn host_join(folder: &str, path: &str) -> (res: (char, String))
    ensures
        res.1@ == path_joined(res.0, folder@, path@),
{
    let joined = std::path::Path::new(folder).join(path);
    (std::path::MAIN_SEPARATOR, joined.to_string_lossy().into_owned())
}

/// The folder that a configured path stands for: itself where it is absolute, else joined to the
/// program's folder.
pub open spec fn selected_path(absolute: bool, configured: Seq<char>, joined: Seq<char>) -> Seq<
    char,
> {
    if absolute {
        configured
    } else {
        joined
    }
}

/// Picks between a configured path and the same path joined to the program's folder.
pub fn select_capture_path(absolute: bool, configured: &str, joined: String) -> (res: String)
    ensures
        res@ == selected_path(absolute, configured@, joined@),
        absolute ==> res@ == configured@,
        !absolute ==> res@ == joined@,
{
    if absolute {
        configured.to_owned()
    } else {
        joined
    }
}

/// Resolves a configured capture path against the install root.
pub fn resolve_capture_path(program_root: &str, configured: &str) -> (res: String)
    ensures
        exists|a: char, b: char|
            res@ == selected_path(
                #[trigger] path_is_absolute(a, configured@),
                configured@,
                #[trigger] path_joined(b, program_root@, configured@),
            ),
        exists|a: char, b: char|
            res@ == (if #[trigger] path_is_absolute(a, configured@) {
                configured@
            } else {
                #[trigger] path_joined(b, program_root@, configured@)
            }),
{
    let (a, absolute) = host_is_absolute(configured);
    let (b, joined) = host_join(program_root, configured);
    let ghost shown = joined@;
    let res = select_capture_path(absolute, configured, joined);
    assert(path_is_absolute(a, configured@) == absolute);
    assert(path_joined(b, program_root@, configured@) == shown);
    res
}

/// The install root: the folder of the executables, or the current one where that is unknown.
pub fn program_root(executables_dir: Option<&str>) -> (res: String)
    ensures
        res@ == (match executables_dir {
            Some(dir) => dir@,
            None => "."@,
        }),
{
    match executables_dir {
        Some(dir) => dir.to_owned(),
        None => ".".to_owned(),
    }
}

/// `s` without its leading dots.
pub open spec fn without_dots(s: Seq<char>) -> Seq<char>
    decreases s.len(),
{
    if s.len() > 0 && s[0] == '.' {
        without_dots(s.drop_first())
    } else {
        s
    }
}

/// Appends a media extension; dots in the name before it, such as those of a timestamp, stay.
pub fn with_media_ext(path_no_ext: &str, ext: &str) -> (res: String)
    ensures
        res@ == path_no_ext@ + "."@ + without_dots(ext@),
{
    let chars = text::chars_of(ext);
    let mut from: usize = 0;
    assert(chars@.skip(0) == chars@);
    while from < chars.len() && chars[from] == '.'
        invariant
            from <= chars@.len(),
            without_dots(chars@.skip(from as int)) == without_dots(chars@),
        decreases chars@.len() - from,
    {
        assert(chars@.skip(from as int).drop_first() == chars@.skip(from + 1));
        from += 1;
    }
    let rest = text::copy_range(chars.as_slice(), from, chars.len());
    assert(rest@ == chars@.skip(from as int));
    let bare = text::string_of(rest.as_slice());
    path_no_ext.to_owned().concat(".").concat(bare.as_str())
}

/// Whether a year of the proleptic Gregorian calendar has a 29 February.
pub open spec fn leap_year(year: int) -> bool {
    year % 4 == 0 && (year % 100 != 0 || year % 400 == 0)
}

/// The number of days of a month.
pub open spec fn days_in_month(year: int, month: int) -> int {
    if month == 2 {
        if leap_year(year) {
            29
        } else {
            28
        }
    } else if month == 4 || month == 6 || month == 9 || month == 11 {
        30
    } else {
        31
    }
}

/// A local date and time of day, as a clock on the wall shows it.
#[derive(Debug, Clone, Copy, PartialEq, Eq, Structural)]
pub struct LocalTime {
    pub year: i32,
    pub month: u32,
    pub day: u32,
    pub hour: u32,
    pub minute: u32,
    pub second: u32,
    /// From 1,000,000,000 on, with second 59: within a leap second.
    pub nanosecond: u32,
}

impl LocalTime {
    /// The date exists and the time of day is one.
    pub open spec fn wf(self) -> bool {
        &&& -262143 <= self.year <= 262142
        &&& 1 <= self.month <= 12
        &&& 1 <= self.day <= days_in_month(self.year as int, self.month as int)
        &&& self.hour < 24
        &&& self.minute < 60
        &&& self.second < 60
        &&& self.nanosecond < 2_000_000_000
        &&& self.nanosecond >= 1_000_000_000 ==> self.second == 59
    }

    /// The given date and time of day, or none where there is no such one.
    pub fn new(
        year: i32,
        month: u32,
        day: u32,
        hour: u32,
        minute: u32,
        second: u32,
        nanosecond: u32,
    ) -> (res: Option<LocalTime>)
        ensures
            ({
                let time = LocalTime { year, month, day, hour, minute, second, nanosecond };
                res == (if time.wf() {
                    Some(time)
                } else {
                    None
                })
            }),
    {
        if year < -262143 || year > 262142 || month < 1 || month > 12 || day < 1 || hour >= 24
            || minute >= 60 || second >= 60 || nanosecond >= 2_000_000_000 || (nanosecond
            >= 1_000_000_000 && second != 59) {
            return None;
        }
        // Counted from a multiple of 400 years back, so that the remainder is never negative.
        let cycle: i32 = year + 262400;
        let leap: bool = cycle % 4 == 0 && (cycle % 100 != 0 || cycle % 400 == 0);
        let days: u32 = if month == 2 {
            if leap {
                29
            } else {
                28
            }
        } else if month == 4 || month == 6 || month == 9 || month == 11 {
            30
        } else {
            31
        };
        if day > days {
            return None;
        }
        Some(LocalTime { year, month, day, hour, minute, second, nanosecond })
    }

    /// The year with at least four digits; beyond 9999 or before year 0 it comes with its sign.
    pub open spec fn year_text(self) -> Seq<char> {
        if self.year > 9999 {
            seq!['+'] + text::decimal(self.year as nat)
        } else if self.year < 0 {
            seq!['-'] + text::padded((-self.year) as nat, 4)
        } else {
            text::padded(self.year as nat, 4)
        }
    }

    /// The second that is shown: 60 within a leap second.
    pub open spec fn shown_second(self) -> nat {
        if self.nanosecond >= 1_000_000_000 {
            60
        } else {
            self.second as nat
        }
    }

    /// `YYYYMMDD_HHMMSS`.
    pub open spec fn stamp(self) -> Seq<char> {
        self.year_text() + text::padded(self.month as nat, 2) + text::padded(self.day as nat, 2) + seq!['_']
            + text::padded(self.hour as nat, 2) + text::padded(self.minute as nat, 2)
            + text::padded(self.shown_second(), 2)
    }
}

/// Formats a date and time with `chrono::NaiveDateTime::format`. Stated for one format only: the
/// year with at least four digits and signed outside 0 to 9999, then month, day, an underscore,
/// hour, minute and second with two digits each, where a leap second is shown as 60.
#[verifier::external_body]
fn chrono_format(time: LocalTime, format: &str) -> (res: String)
    requires
        time.wf(),
        format@ == "%Y%m%d_%H%M%S"@,
    ensures
        res@ == time.stamp(),
{
    let date = chrono::NaiveDate::from_ymd_opt(time.year, time.month, time.day).unwrap();
    let date_time = date.and_hms_nano_opt(time.hour, time.minute, time.second, time.nanosecond);
    date_time.unwrap().format(format).to_string()
}

/// A field of view in degrees, as a machine number gives it.
#[derive(Debug, Clone, Copy, PartialEq, Eq, Structural)]
pub enum Degrees {
    NotANumber,
    Infinite { negative: bool },
    /// `num / den`, below zero where `negative`.
    Finite { negative: bool, num: u128, den: u128 },
}

/// A number's sign.
pub open spec fn sign(negative: bool) -> Seq<char> {
    if negative {
        seq!['-']
    } else {
        Seq::empty()
    }
}

impl Degrees {
    /// A fraction has a denominator.
    pub open spec fn wf(self) -> bool {
        self matches Degrees::Finite { den, .. } ==> den > 0
    }

    /// The number with six decimals.
    pub open spec fn shown(self) -> Seq<char> {
        match self {
            Degrees::NotANumber => "NaN"@,
            Degrees::Infinite { negative } => sign(negative) + "inf"@,
            Degrees::Finite { negative, num, den } => sign(negative) + decimals::fixed(
                num as nat,
                den as nat,
                6,
            ),
        }
    }

    /// The number with six decimals.
    pub fn text(self) -> (res: String)
        requires
            self.wf(),
        ensures
            res@ == self.shown(),
    {
        match self {
            Degrees::NotANumber => "NaN".to_owned(),
            Degrees::Infinite { negative } => sign_text(negative).concat("inf"),
            Degrees::Finite { negative, num, den } => {
                let digits = decimals::fixed_text(num, den, 6);
                sign_text(negative).concat(digits.as_str())
            },
        }
    }
}

fn sign_text(negative: bool) -> (res: String)
    ensures
        res@ == sign(negative),
{
    let mut res: String = String::new();
    if negative {
        res.push('-');
    }
    assert(res@ == sign(negative));
    res
}

/// The base name of a capture.
pub open spec fn stem(kind: Seq<char>, now: LocalTime, fov_deg: Degrees) -> Seq<char> {
    kind + "_"@ + now.stamp() + "_FOV_"@ + fov_deg.shown()
}

/// Base name without extension: `{kind}_{YYYYMMDD}_{HHMMSS}_FOV_{deg}`. `fov_deg` is the headset's
/// horizontal field of view.
pub fn capture_stem(kind: &str, now: LocalTime, fov_deg: Degrees) -> (res: String)
    requires
        now.wf(),
        fov_deg.wf(),
    ensures
        res@ == stem(kind@, now, fov_deg),
        res@ == kind@ + "_"@ + now.stamp() + "_FOV_"@ + fov_deg.shown(),
{
    let stamp = chrono_format(now, "%Y%m%d_%H%M%S");
    let fov = fov_deg.text();
    kind.to_owned().concat("_").concat(stamp.as_str()).concat("_FOV_").concat(fov.as_str())
}

/// Base name of a recording.
pub fn recording_stem(now: LocalTime, fov_deg: Degrees) -> (res: String)
    requires
        now.wf(),
        fov_deg.wf(),
    ensures
        res@ == stem("recording"@, now, fov_deg),
{
    capture_stem("recording", now, fov_deg)
}

/// Base name of a screenshot.
pub fn screenshot_stem(now: LocalTime, fov_deg: Degrees) -> (res: String)
    requires
        now.wf(),
        fov_deg.wf(),
    ensures
        res@ == stem("screenshot"@, now, fov_deg),
{
    capture_stem("screenshot", now, fov_deg)
}

/// Captures taken in different seconds get different names.
pub proof fn names_tell_seconds_apart(
    kind: Seq<char>,
    a: LocalTime,
    b: LocalTime,
    fov_deg: Degrees,
)
    requires
        a.wf(),
        b.wf(),
        stem(kind, a, fov_deg) == stem(kind, b, fov_deg),
    ensures
        a.year == b.year,
        a.month == b.month,
        a.day == b.day,
        a.hour == b.hour,
        a.minute == b.minute,
        a.shown_second() == b.shown_second(),
{
    let before = kind + "_"@;
    let after = "_FOV_"@ + fov_deg.shown();
    let n = before.len() as int;
    let sa = a.stamp();
    let sb = b.stamp();
    assert(stem(kind, a, fov_deg) == before + sa + after);
    assert(stem(kind, b, fov_deg) == before + sb + after);
    assert(sa.len() == sb.len());
    assert((before + sa + after).subrange(n, n + sa.len()) == sa);
    assert((before + sb + after).subrange(n, n + sb.len()) == sb);
    two_digit_parts(a);
    two_digit_parts(b);
    let y = a.year_text().len() as int;
    assert(sa.take(y) == a.year_text());
    assert(sb.take(y) == b.year_text());
    year_texts_differ(a, b);
    assert(sa.subrange(y, y + 2) == text::padded(a.month as nat, 2));
    assert(sb.subrange(y, y + 2) == text::padded(b.month as nat, 2));
    assert(sa.subrange(y + 2, y + 4) == text::padded(a.day as nat, 2));
    assert(sb.subrange(y + 2, y + 4) == text::padded(b.day as nat, 2));
    assert(sa.subrange(y + 5, y + 7) == text::padded(a.hour as nat, 2));
    assert(sb.subrange(y + 5, y + 7) == text::padded(b.hour as nat, 2));
    assert(sa.subrange(y + 7, y + 9) == text::padded(a.minute as nat, 2));
    assert(sb.subrange(y + 7, y + 9) == text::padded(b.minute as nat, 2));
    assert(sa.subrange(y + 9, y + 11) == text::padded(a.shown_second(), 2));
    assert(sb.subrange(y + 9, y + 11) == text::padded(b.shown_second(), 2));
}

/// The two-digit parts of a stamp have two digits each, and each spells its number.
proof fn two_digit_parts(t: LocalTime)
    requires
        t.wf(),
    ensures
        text::padded(t.month as nat, 2).len() == 2,
        text::padded(t.day as nat, 2).len() == 2,
        text::padded(t.hour as nat, 2).len() == 2,
        text::padded(t.minute as nat, 2).len() == 2,
        text::padded(t.shown_second(), 2).len() == 2,
        text::number(text::padded(t.month as nat, 2)) == Some(t.month as nat),
        text::number(text::padded(t.day as nat, 2)) == Some(t.day as nat),
        text::number(text::padded(t.hour as nat, 2)) == Some(t.hour as nat),
        text::number(text::padded(t.minute as nat, 2)) == Some(t.minute as nat),
        text::number(text::padded(t.shown_second(), 2)) == Some(t.shown_second()),
{
    text::two_places(t.month as nat);
    text::two_places(t.day as nat);
    text::two_places(t.hour as nat);
    text::two_places(t.minute as nat);
    text::two_places(t.shown_second());
    text::padded_spells_its_number(t.month as nat, 2);
    text::padded_spells_its_number(t.day as nat, 2);
    text::padded_spells_its_number(t.hour as nat, 2);
    text::padded_spells_its_number(t.minute as nat, 2);
    text::padded_spells_its_number(t.shown_second(), 2);
}

proof fn year_texts_differ(a: LocalTime, b: LocalTime)
    requires
        a.year_text() == b.year_text(),
    ensures
        a.year == b.year,
{
    year_text_tells_the_year(a);
    year_text_tells_the_year(b);
}

proof fn year_text_tells_the_year(t: LocalTime)
    ensures
        ({
            let y = t.year_text();
            &&& y.len() > 0
            &&& y[0] == '+' <==> t.year > 9999
            &&& y[0] == '-' <==> t.year < 0
            &&& t.year > 9999 ==> text::number(y.skip(1)) == Some(t.year as nat)
            &&& t.year < 0 ==> text::number(y.skip(1)) == Some((-t.year) as nat)
            &&& 0 <= t.year <= 9999 ==> text::number(y) == Some(t.year as nat)
        }),
{
    let y = t.year_text();
    if t.year > 9999 {
        assert(y.skip(1) == text::decimal(t.year as nat));
        text::padded_spells_its_number(t.year as nat, 0);
    } else if t.year < 0 {
        assert(y.skip(1) == text::padded((-t.year) as nat, 4));
        text::padded_spells_its_number((-t.year) as nat, 4);
    } else {
        text::padded_spells_its_number(t.year as nat, 4);
        if !('0' <= y[0] <= '9') {
            text::number_needs_digits(y, 0);
        }
    }
}

/// An extension goes behind one dot, whatever dots it was given with: these are taken off its
/// front, all of them, and nothing else is.
pub proof fn extensions_lose_leading_dots_only(ext: Seq<char>)
    ensures
        exists|dots: int|
            0 <= dots <= ext.len() && without_dots(ext) == #[trigger] ext.skip(dots) && (forall|
                k: int,
            |
                0 <= k < dots ==> ext[k] == '.') && (dots < ext.len() ==> ext[dots] != '.'),
{
    let dots = dots_in_front(ext);
    assert(without_dots(ext) == ext.skip(dots));
}

proof fn dots_in_front(s: Seq<char>) -> (dots: int)
    ensures
        0 <= dots <= s.len(),
        without_dots(s) == s.skip(dots),
        forall|k: int| 0 <= k < dots ==> s[k] == '.',
        dots < s.len() ==> s[dots] != '.',
    decreases s.len(),
{
    if s.len() > 0 && s[0] == '.' {
        let t = s.drop_first();
        let dots = dots_in_front(t);
        assert(t.skip(dots) == s.skip(dots + 1));
        assert forall|k: int| 0 <= k < dots + 1 implies s[k] == '.' by {
            if k > 0 {
                assert(t[k - 1] == s[k]);
            }
        }
        dots + 1
    } else {
        assert(s.skip(0) == s);
        0
    }
}

/// A stamp of the years 0 to 9999 is fifteen characters: four digits of the year, two of the month,
/// two of the day, an underscore, two of the hour, two of the minute and two of the second, which
/// is 60 within a leap second. Each reads back as its number.
pub proof fn stamps_read_back(t: LocalTime)
    requires
        t.wf(),
        0 <= t.year <= 9999,
    ensures
        t.stamp().len() == 15,
        text::number(t.stamp().subrange(0, 4)) == Some(t.year as nat),
        text::number(t.stamp().subrange(4, 6)) == Some(t.month as nat),
        text::number(t.stamp().subrange(6, 8)) == Some(t.day as nat),
        t.stamp()[8] == '_',
        text::number(t.stamp().subrange(9, 11)) == Some(t.hour as nat),
        text::number(t.stamp().subrange(11, 13)) == Some(t.minute as nat),
        text::number(t.stamp().subrange(13, 15)) == Some(
            if t.nanosecond >= 1_000_000_000 {
                60nat
            } else {
                t.second as nat
            },
        ),
{
    two_digit_parts(t);
    year_text_tells_the_year(t);
    reveal_with_fuel(text::decimal, 4);
    let s = t.stamp();
    assert(t.year_text().len() == 4);
    assert(s.subrange(0, 4) == t.year_text());
    assert(s.subrange(4, 6) == text::padded(t.month as nat, 2));
    assert(s.subrange(6, 8) == text::padded(t.day as nat, 2));
    assert(s.subrange(9, 11) == text::padded(t.hour as nat, 2));
    assert(s.subrange(11, 13) == text::padded(t.minute as nat, 2));
    assert(s.subrange(13, 15) == text::padded(t.shown_second(), 2));
}

/// Other years come with their sign in front, then at least four digits, then the rest of the stamp.
pub proof fn years_beyond_four_digits_are_signed(t: LocalTime)
    requires
        t.wf(),
        t.year < 0 || t.year > 9999,
    ensures
        ({
            let n = t.stamp().len() - 11;
            &&& n >= 5
            &&& t.stamp()[0] == (if t.year < 0 {
                '-'
            } else {
                '+'
            })
            &&& text::number(t.stamp().subrange(1, n)) == Some(
                if t.year < 0 {
                    (-t.year) as nat
                } else {
                    t.year as nat
                },
            )
            &&& text::number(t.stamp().subrange(n, n + 2)) == Some(t.month as nat)
            &&& text::number(t.stamp().subrange(n + 2, n + 4)) == Some(t.day as nat)
            &&& t.stamp()[n + 4] == '_'
            &&& text::number(t.stamp().subrange(n + 5, n + 7)) == Some(t.hour as nat)
            &&& text::number(t.stamp().subrange(n + 7, n + 9)) == Some(t.minute as nat)
            &&& text::number(t.stamp().subrange(n + 9, n + 11)) == Some(
                if t.nanosecond >= 1_000_000_000 {
                    60nat
                } else {
                    t.second as nat
                },
            )
        }),
{
    two_digit_parts(t);
    year_text_tells_the_year(t);
    reveal_with_fuel(text::decimal, 6);
    let s = t.stamp();
    let y = t.year_text();
    let n = s.len() - 11;
    assert(n == y.len());
    assert(y.len() >= 5);
    assert(s[0] == y[0]);
    assert(s.subrange(1, n) == y.skip(1));
    assert(s.subrange(n, n + 2) == text::padded(t.month as nat, 2));
    assert(s.subrange(n + 2, n + 4) == text::padded(t.day as nat, 2));
    assert(s.subrange(n + 5, n + 7) == text::padded(t.hour as nat, 2));
    assert(s.subrange(n + 7, n + 9) == text::padded(t.minute as nat, 2));
    assert(s.subrange(n + 9, n + 11) == text::padded(t.shown_second(), 2));
}

/// Every date of the Gregorian calendar within the years that are counted is one: months of 31 days
/// and of 30, and a February of 29 where the year divides by 4, but not by 100 unless by 400.
pub proof fn dates_are_gregorian(t: LocalTime)
    ensures
        t.wf() <==> {
            let february = if t.year as int % 400 == 0 || (t.year as int % 4 == 0 && t.year as int
                % 100 != 0) {
                29int
            } else {
                28
            };
            &&& -262143 <= t.year <= 262142
            &&& 1 <= t.month <= 12
            &&& 1 <= t.day <= 31
            &&& t.month == 4 || t.month == 6 || t.month == 9 || t.month == 11 ==> t.day <= 30
            &&& t.month == 2 ==> t.day <= february
            &&& t.hour <= 23
            &&& t.minute <= 59
            &&& t.second <= 59
            &&& t.nanosecond <= 999_999_999 || (t.second == 59 && t.nanosecond <= 1_999_999_999)
        },
{
}

/// A field of view is shown as a float is: a sign where it is below zero, then six decimals; an
/// infinity and what is no number as words.
pub proof fn views_are_shown_with_six_decimals(negative: bool, num: u128, den: u128)
    ensures
        (Degrees::Finite { negative: false, num, den }).shown() == decimals::fixed(
            num as nat,
            den as nat,
            6,
        ),
        (Degrees::Finite { negative: true, num, den }).shown() == seq!['-'] + decimals::fixed(
            num as nat,
            den as nat,
            6,
        ),
        (Degrees::Infinite { negative: false }).shown() == "inf"@,
        (Degrees::Infinite { negative: true }).shown() == seq!['-'] + "inf"@,
        Degrees::NotANumber.shown() == "NaN"@,
{
    let digits = decimals::fixed(num as nat, den as nat, 6);
    assert(Seq::<char>::empty() + digits == digits);
    assert(Seq::<char>::empty() + "inf"@ == "inf"@);
}

/// Every fraction with a denominator can be shown, and so can what is none.
pub proof fn every_fraction_can_be_shown(negative: bool, num: u128, den: u128)
    ensures
        (Degrees::Finite { negative, num, den }).wf() <==> den > 0,
        (Degrees::Infinite { negative }).wf(),
        Degrees::NotANumber.wf(),
{
}

} // verus!

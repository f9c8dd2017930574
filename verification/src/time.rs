//! Calendar time: milliseconds since 1970 as an ISO 8601 text in UTC.

use vstd::prelude::*;
use crate::text;

verus! {

/// Whether `y` is a leap year of the Gregorian calendar.
pub open spec fn leap(y: int) -> bool {
    y % 4 == 0 && (y % 100 != 0 || y % 400 == 0)
}

/// The number of days in a month.
pub open spec fn month_days(y: int, m: int) -> int {
    if m == 2 {
        if leap(y) {
            29
        } else {
            28
        }
    } else if m == 4 || m == 6 || m == 9 || m == 11 {
        30
    } else {
        31
    }
}

/// The days of a common year before the first of a month.
pub open spec fn days_before_month(m: int) -> int {
    if m == 1 { 0 }
    else if m == 2 { 31 }
    else if m == 3 { 59 }
    else if m == 4 { 90 }
    else if m == 5 { 120 }
    else if m == 6 { 151 }
    else if m == 7 { 181 }
    else if m == 8 { 212 }
    else if m == 9 { 243 }
    else if m == 10 { 273 }
    else if m == 11 { 304 }
    else { 334 }
}

/// The days from the first of January of year 0 to the first of January of `y`.
pub open spec fn days_before_year(y: int) -> int {
    365 * y + (y + 3) / 4 - (y + 99) / 100 + (y + 399) / 400
}

/// Whether `y`-`m`-`d` is a date of the Gregorian calendar.
pub open spec fn valid_date(y: int, m: int, d: int) -> bool {
    1 <= m <= 12 && 1 <= d <= month_days(y, m)
}

/// The days from the first of January 1970 to a date.
pub open spec fn day_number(y: int, m: int, d: int) -> int {
    days_before_year(y) + days_before_month(m) + (if m > 2 && leap(y) { 1int } else { 0 }) + d - 1 - 719528
}

/// The days before year `y` of an era of 400 years that starts in March.
spec fn march_days(y: int) -> int {
    365 * y + y / 4 - y / 100
}

/// The year of an era that a day of the era falls in.
proof fn lemma_year_of_era(doe: int, yoe: int)
    requires
        0 <= doe < 146_097,
        yoe == (doe - doe / 1460 + doe / 36524 - doe / 146_096) / 365,
    ensures
        0 <= yoe <= 399,
        0 <= doe - march_days(yoe) <= 365,
        doe - march_days(yoe) == 365 ==> leap(yoe + 1),
{
    let b = doe / 36524;
    let e = doe - 36524 * b;
    assert(0 <= b <= 4);
    if doe == 146_096 {
        assert(yoe == 399);
    } else {
        assert(b <= 3);
        assert(doe / 146_096 == 0);
        let a = doe / 1460;
        let n = doe - a + b;
        assert(365 * yoe <= n < 365 * yoe + 365);
        let q = yoe / 4;
        let r = yoe % 4;
        assert(yoe == 4 * q + r);
        if b == 0 {
            assert(yoe / 100 == 0);
        } else if b == 1 {
            assert(yoe / 100 == 1);
        } else if b == 2 {
            assert(yoe / 100 == 2);
        } else {
            assert(yoe / 100 == 3);
        }
    }
}

/// The month and day of a year that starts in March.
proof fn lemma_month_of_year(doy: int, mp: int, d: int)
    requires
        0 <= doy <= 365,
        mp == (5 * doy + 2) / 153,
        d == doy - (153 * mp + 2) / 5 + 1,
    ensures
        0 <= mp <= 11,
        1 <= d <= 31,
        mp < 10 ==> days_before_month(mp + 3) - 59 + d - 1 == doy,
        mp < 10 ==> d <= month_days(1, mp + 3),
        mp >= 10 ==> days_before_month(mp - 9) + 306 + d - 1 == doy,
        mp == 10 ==> d <= 31,
        mp == 11 ==> d <= 29 && (d == 29 ==> doy == 365),
{
    assert(0 <= mp <= 11);
    if mp == 0 {
    } else if mp == 1 {
    } else if mp == 2 {
    } else if mp == 3 {
    } else if mp == 4 {
    } else if mp == 5 {
    } else if mp == 6 {
    } else if mp == 7 {
    } else if mp == 8 {
    } else if mp == 9 {
    } else if mp == 10 {
    } else {
    }
}

/// The first of March of a year, and the first of January after it.
proof fn lemma_march_first(era: int, yoe: int, y: int)
    requires
        0 <= yoe <= 399,
        y == yoe + era * 400,
    ensures
        days_before_year(y) + 59 + (if leap(y) { 1int } else { 0 }) - 60 == 146_097 * era + march_days(yoe),
        days_before_year(y + 1) - 60 == 146_097 * era + march_days(yoe) + 306,
        leap(y + 1) == leap(yoe + 1),
{
    assert(y / 4 == 100 * era + yoe / 4);
    assert(y / 100 == 4 * era + yoe / 100);
    assert(y / 400 == era);
    assert((y + 4) / 4 == y / 4 + 1);
    assert((y + 100) / 100 == y / 100 + 1);
    assert((y + 400) / 400 == y / 400 + 1);
    assert((y + 3) / 4 == y / 4 + (if y % 4 != 0 { 1int } else { 0 }));
    assert((y + 99) / 100 == y / 100 + (if y % 100 != 0 { 1int } else { 0 }));
    assert((y + 399) / 400 == y / 400 + (if y % 400 != 0 { 1int } else { 0 }));
    assert(y % 100 == 0 ==> y % 4 == 0);
    assert(y % 400 == 0 ==> y % 100 == 0);
}

/// The date of a day, counted from the first of January 1970.
pub fn civil_from_days(z: i64) -> (r: (i64, i64, i64))
    requires
        z + 719_468 <= i64::MAX,
    ensures
        valid_date(r.0 as int, r.1 as int, r.2 as int),
        day_number(r.0 as int, r.1 as int, r.2 as int) == z,
        (r.0 as int, r.1 as int, r.2 as int) == date_of(z as int),
{
    let z0: i64 = z + 719_468;
    let era: i64 = if z0 >= 0 {
        z0 / 146_097
    } else {
        -((146_096 - z0) / 146_097)
    };
    let doe: i64 = z0 - era * 146_097;
    assert(0 <= doe < 146_097);
    let yoe: i64 = (doe - doe / 1460 + doe / 36524 - doe / 146_096) / 365;
    proof {
        lemma_year_of_era(doe as int, yoe as int);
    }
    let y: i64 = yoe + era * 400;
    let doy: i64 = doe - (365 * yoe + yoe / 4 - yoe / 100);
    let mp: i64 = (5 * doy + 2) / 153;
    let d: i64 = doy - (153 * mp + 2) / 5 + 1;
    proof {
        lemma_month_of_year(doy as int, mp as int, d as int);
        lemma_march_first(era as int, yoe as int, y as int);
    }
    let m: i64 = if mp < 10 {
        mp + 3
    } else {
        mp - 9
    };
    let yy: i64 = if m <= 2 {
        y + 1
    } else {
        y
    };
    proof {
        let t = date_of(z as int);
        law_every_day_has_its_date(z as int);
        law_dates_are_distinct(t.0, t.1, t.2, yy as int, m as int, d as int);
    }
    (yy, m, d)
}

proof fn lemma_year_length(y: int)
    ensures
        days_before_year(y + 1) == days_before_year(y) + 365 + (if leap(y) { 1int } else { 0 }),
{
    assert((y + 4) / 4 == y / 4 + 1);
    assert((y + 100) / 100 == y / 100 + 1);
    assert((y + 400) / 400 == y / 400 + 1);
    assert((y + 3) / 4 == y / 4 + (if y % 4 != 0 { 1int } else { 0 }));
    assert((y + 99) / 100 == y / 100 + (if y % 100 != 0 { 1int } else { 0 }));
    assert((y + 399) / 400 == y / 400 + (if y % 400 != 0 { 1int } else { 0 }));
    assert(y % 100 == 0 ==> y % 4 == 0);
    assert(y % 400 == 0 ==> y % 100 == 0);
}

proof fn lemma_years_grow(a: int, b: int)
    requires
        a <= b,
    ensures
        days_before_year(a) <= days_before_year(b),
    decreases b - a,
{
    if a < b {
        lemma_years_grow(a, b - 1);
        lemma_year_length(b - 1);
    }
}

/// A later date has a larger day number.
pub proof fn law_day_numbers_follow_dates(y: int, m: int, d: int, y2: int, m2: int, d2: int)
    requires
        valid_date(y, m, d),
        valid_date(y2, m2, d2),
    ensures
        (y < y2 || (y == y2 && (m < m2 || (m == m2 && d < d2)))) ==> day_number(y, m, d)
            < day_number(y2, m2, d2),
{
    if y < y2 {
        lemma_year_length(y);
        lemma_years_grow(y + 1, y2);
    }
}

/// No two dates share a day number.
pub proof fn law_dates_are_distinct(y: int, m: int, d: int, y2: int, m2: int, d2: int)
    requires
        valid_date(y, m, d),
        valid_date(y2, m2, d2),
        day_number(y, m, d) == day_number(y2, m2, d2),
    ensures
        y == y2 && m == m2 && d == d2,
{
    law_day_numbers_follow_dates(y, m, d, y2, m2, d2);
    law_day_numbers_follow_dates(y2, m2, d2, y, m, d);
}

/// The date of a day, counted from the first of January 1970.
pub open spec fn date_of(z: int) -> (int, int, int) {
    choose|t: (int, int, int)| valid_date(t.0, t.1, t.2) && #[trigger] day_number(t.0, t.1, t.2) == z
}

/// A year as ISO 8601 writes it: four digits, or a sign and six digits outside
/// of 0 to 9999.
pub open spec fn year_text(y: int) -> Seq<char> {
    if 0 <= y <= 9999 {
        text::padded(y as nat, 4)
    } else if y > 9999 {
        seq!['+'] + text::padded(y as nat, 6)
    } else {
        seq!['-'] + text::padded((-y) as nat, 6)
    }
}

/// A moment in UTC, given in milliseconds since 1970, as ISO 8601 writes it.
pub open spec fn iso_text(ms: int) -> Seq<char> {
    let date = date_of(ms / 86_400_000);
    let rest = ms % 86_400_000;
    year_text(date.0) + "-"@ + text::padded(date.1 as nat, 2) + "-"@ + text::padded(
        date.2 as nat,
        2,
    ) + "T"@ + text::padded((rest / 3_600_000) as nat, 2) + ":"@ + text::padded(
        ((rest / 60_000) % 60) as nat,
        2,
    ) + ":"@ + text::padded(((rest / 1_000) % 60) as nat, 2) + "."@ + text::padded(
        (rest % 1_000) as nat,
        3,
    ) + "Z"@
}

fn print_year(y: i64) -> (r: String)
    requires
        -1_000_000_000 <= y <= 1_000_000_000,
    ensures
        r@ == year_text(y as int),
{
    if 0 <= y && y <= 9999 {
        text::pad(y as u64, 4)
    } else {
        let mut r = String::new();
        if y > 9999 {
            r.push('+');
            r.append(text::pad(y as u64, 6).as_str());
        } else {
            r.push('-');
            r.append(text::pad((-y) as u64, 6).as_str());
        }
        r
    }
}

/// Prints a moment in UTC, given in milliseconds since 1970, in ISO 8601.
pub fn iso8601_ms(ms: i64) -> (r: String)
    ensures
        r@ == iso_text(ms as int),
{
    let mut days: i64 = ms / 86_400_000;
    let mut rest: i64 = ms % 86_400_000;
    if rest < 0 {
        days -= 1;
        rest += 86_400_000;
    }
    let (y, m, d) = civil_from_days(days);
    proof {
        assert(days == ms as int / 86_400_000);
        assert(rest == ms as int % 86_400_000);
        lemma_year_bound(y as int, m as int, d as int);
    }
    let mut r = print_year(y);
    r.append("-");
    r.append(text::pad(m as u64, 2).as_str());
    r.append("-");
    r.append(text::pad(d as u64, 2).as_str());
    r.append("T");
    r.append(text::pad((rest / 3_600_000) as u64, 2).as_str());
    r.append(":");
    r.append(text::pad(((rest / 60_000) % 60) as u64, 2).as_str());
    r.append(":");
    r.append(text::pad(((rest / 1_000) % 60) as u64, 2).as_str());
    r.append(".");
    r.append(text::pad((rest % 1_000) as u64, 3).as_str());
    r.append("Z");
    r
}

proof fn lemma_year_bound(y: int, m: int, d: int)
    requires
        valid_date(y, m, d),
        -200_000_000_000 <= day_number(y, m, d) <= 200_000_000_000,
    ensures
        -1_000_000_000 <= y <= 1_000_000_000,
{
}

// ---------------------------------------------------------------------------
// Laws
// ---------------------------------------------------------------------------

/// Every day has its date.
pub proof fn law_every_day_has_its_date(z: int)
    ensures
        ({
            let t = date_of(z);
            valid_date(t.0, t.1, t.2) && day_number(t.0, t.1, t.2) == z
        }),
{
    let z0 = z + 719_468;
    let era = z0 / 146_097;
    let doe = z0 % 146_097;
    assert(z0 == era * 146_097 + doe);
    let yoe = (doe - doe / 1460 + doe / 36524 - doe / 146_096) / 365;
    lemma_year_of_era(doe, yoe);
    let y = yoe + era * 400;
    let doy = doe - march_days(yoe);
    let mp = (5 * doy + 2) / 153;
    let d = doy - (153 * mp + 2) / 5 + 1;
    lemma_month_of_year(doy, mp, d);
    lemma_march_first(era, yoe, y);
    let m = if mp < 10 {
        mp + 3
    } else {
        mp - 9
    };
    let t = (
        if m <= 2 {
            y + 1
        } else {
            y
        },
        m,
        d,
    );
    assert(valid_date(t.0, t.1, t.2) && day_number(t.0, t.1, t.2) == z);
}

/// The date of the day after a date.
pub open spec fn next_day(y: int, m: int, d: int) -> (int, int, int) {
    if d < month_days(y, m) {
        (y, m, d + 1)
    } else if m < 12 {
        (y, m + 1, 1)
    } else {
        (y + 1, 1, 1)
    }
}

/// The calendar goes on day by day: days are counted from the first of January
/// 1970, and the date of the next day is the next day of the same month, the first
/// of the next one, or the first of January.
pub proof fn law_days_follow_one_another(z: int)
    ensures
        date_of(0) == (1970int, 1int, 1int),
        date_of(z + 1) == next_day(date_of(z).0, date_of(z).1, date_of(z).2),
{
    law_every_day_has_its_date(0);
    law_every_day_has_its_date(z);
    law_every_day_has_its_date(z + 1);
    let o = date_of(0);
    law_dates_are_distinct(o.0, o.1, o.2, 1970, 1, 1);
    let t = date_of(z);
    let u = date_of(z + 1);
    let n = next_day(t.0, t.1, t.2);
    lemma_year_length(t.0);
    assert(valid_date(n.0, n.1, n.2));
    assert(day_number(n.0, n.1, n.2) == z + 1);
    law_dates_are_distinct(u.0, u.1, u.2, n.0, n.1, n.2);
}

/// Numbers of a fixed number of digits, each followed by a character.
type Fields = Seq<(nat, nat, char)>;

/// The text of the fields from place `i` on.
spec fn fields_text(f: Fields, i: int) -> Seq<char>
    decreases f.len() - i,
{
    if i < 0 || i >= f.len() {
        Seq::empty()
    } else {
        text::padded(f[i].0, f[i].1) + seq![f[i].2] + fields_text(f, i + 1)
    }
}

/// Whether the numbers have the digits that they take.
spec fn fitting(f: Fields) -> bool {
    forall|i: int| 0 <= i < f.len() ==> (#[trigger] f[i]).0 < text::power_of_ten(f[i].1)
}

/// The lengths of the fields from place `i` on.
spec fn fields_len(f: Fields, i: int) -> nat
    decreases f.len() - i,
{
    if i < 0 || i >= f.len() {
        0
    } else {
        f[i].1 + 1 + fields_len(f, i + 1)
    }
}

proof fn lemma_fields_len(f: Fields, i: int)
    requires
        0 <= i <= f.len(),
        fitting(f),
    ensures
        fields_text(f, i).len() == fields_len(f, i),
    decreases f.len() - i,
{
    if i < f.len() {
        lemma_fields_len(f, i + 1);
        text::lemma_padded_len(f[i].0, f[i].1);
    }
}

/// Fields that agree up to place `k` and are smaller there make a smaller text.
proof fn lemma_fields_before(f: Fields, g: Fields, i: int, k: int)
    requires
        0 <= i <= k < f.len() == g.len(),
        fitting(f),
        fitting(g),
        f[k].1 == g[k].1,
        f[k].0 < g[k].0,
        forall|j: int| i <= j < k ==> #[trigger] f[j] == g[j],
    ensures
        text::before(fields_text(f, i), fields_text(g, i)),
    decreases k - i,
{
    let a = text::padded(f[i].0, f[i].1);
    let b = text::padded(g[i].0, g[i].1);
    let rest_a = seq![f[i].2] + fields_text(f, i + 1);
    let rest_b = seq![g[i].2] + fields_text(g, i + 1);
    assert(fields_text(f, i) =~= a + rest_a);
    assert(fields_text(g, i) =~= b + rest_b);
    if i == k {
        text::lemma_padded_len(f[i].0, f[i].1);
        text::lemma_padded_len(g[i].0, g[i].1);
        text::lemma_padded_before(f[i].0, g[i].0, f[i].1);
        text::lemma_before_longer(a, b, rest_a, rest_b);
    } else {
        assert(f[i] == g[i]);
        lemma_fields_before(f, g, i + 1, k);
        text::lemma_before_after(seq![f[i].2], fields_text(f, i + 1), fields_text(g, i + 1));
        text::lemma_before_after(a, rest_a, rest_b);
    }
}

/// The fields of a moment.
spec fn moment_fields(ms: int) -> Fields {
    let date = date_of(ms / 86_400_000);
    let rest = ms % 86_400_000;
    seq![
        (date.0 as nat, 4nat, '-'),
        (date.1 as nat, 2nat, '-'),
        (date.2 as nat, 2nat, 'T'),
        ((rest / 3_600_000) as nat, 2nat, ':'),
        (((rest / 60_000) % 60) as nat, 2nat, ':'),
        (((rest / 1_000) % 60) as nat, 2nat, '.'),
        ((rest % 1_000) as nat, 3nat, 'Z'),
    ]
}

/// The first and the last moment of the years 0 to 9999, in milliseconds.
pub open spec fn four_digit_year(ms: int) -> bool {
    -62_167_219_200_000 <= ms <= 253_402_300_799_999
}

proof fn lemma_moment_fields(ms: int)
    requires
        four_digit_year(ms),
    ensures
        ({
            let t = date_of(ms / 86_400_000);
            &&& valid_date(t.0, t.1, t.2)
            &&& day_number(t.0, t.1, t.2) == ms / 86_400_000
            &&& 0 <= t.0 <= 9999
        }),
        fitting(moment_fields(ms)),
        iso_text(ms) == fields_text(moment_fields(ms), 0),
{
    let z = ms / 86_400_000;
    let t = date_of(z);
    law_every_day_has_its_date(z);
    assert(-719_528 <= z <= 2_932_896);
    if t.0 < 0 {
        law_day_numbers_follow_dates(t.0, t.1, t.2, 0, 1, 1);
    }
    if t.0 > 9999 {
        law_day_numbers_follow_dates(9999, 12, 31, t.0, t.1, t.2);
    }
    let f = moment_fields(ms);
    reveal_with_fuel(text::power_of_ten, 5);
    assert(text::power_of_ten(2) == 100 && text::power_of_ten(3) == 1000);
    assert(text::power_of_ten(4) == 10000);
    reveal_strlit("-");
    reveal_strlit("T");
    reveal_strlit(":");
    reveal_strlit(".");
    reveal_strlit("Z");
    assert("-"@ =~= seq!['-'] && "T"@ =~= seq!['T'] && ":"@ =~= seq![':']);
    assert("."@ =~= seq!['.'] && "Z"@ =~= seq!['Z']);
    let p0 = text::padded(f[0].0, 4);
    let p1 = text::padded(f[1].0, 2);
    let p2 = text::padded(f[2].0, 2);
    let p3 = text::padded(f[3].0, 2);
    let p4 = text::padded(f[4].0, 2);
    let p5 = text::padded(f[5].0, 2);
    let p6 = text::padded(f[6].0, 3);
    let t6 = fields_text(f, 6);
    let t5 = fields_text(f, 5);
    let t4 = fields_text(f, 4);
    let t3 = fields_text(f, 3);
    let t2 = fields_text(f, 2);
    let t1 = fields_text(f, 1);
    assert(fields_text(f, 7) =~= Seq::empty());
    assert(t6 =~= p6 + seq!['Z']);
    assert(t5 == p5 + seq!['.'] + t6);
    assert(t4 == p4 + seq![':'] + t5);
    assert(t3 == p3 + seq![':'] + t4);
    assert(t2 == p2 + seq!['T'] + t3);
    assert(t1 == p1 + seq!['-'] + t2);
    let h1 = p0 + seq!['-'];
    let h2 = h1 + p1 + seq!['-'];
    let h3 = h2 + p2 + seq!['T'];
    let h4 = h3 + p3 + seq![':'];
    let h5 = h4 + p4 + seq![':'];
    let h6 = h5 + p5 + seq!['.'];
    assert(h6 + t6 =~= h5 + t5);
    assert(h5 + t5 =~= h4 + t4);
    assert(h4 + t4 =~= h3 + t3);
    assert(h3 + t3 =~= h2 + t2);
    assert(h2 + t2 =~= h1 + t1);
    assert(fields_text(f, 0) == h1 + t1);
    assert(iso_text(ms) =~= h6 + p6 + seq!['Z']);
    assert(h6 + p6 + seq!['Z'] =~= h6 + t6);
}

/// A later time of the same day is later by its hour, its minute, its second or its
/// millisecond.
proof fn lemma_clock(x: int, y: int)
    requires
        0 <= x < y < 86_400_000,
    ensures
        x / 3_600_000 <= y / 3_600_000,
        x / 3_600_000 == y / 3_600_000 ==> (x / 60_000) % 60 <= (y / 60_000) % 60,
        x / 3_600_000 == y / 3_600_000 && (x / 60_000) % 60 == (y / 60_000) % 60 ==> (x / 1_000)
            % 60 <= (y / 1_000) % 60,
        x / 3_600_000 == y / 3_600_000 && (x / 60_000) % 60 == (y / 60_000) % 60 && (x / 1_000)
            % 60 == (y / 1_000) % 60 ==> x % 1_000 < y % 1_000,
{
    assert(x / 3_600_000 == (x / 60_000) / 60);
    assert(y / 3_600_000 == (y / 60_000) / 60);
    assert(x / 60_000 == (x / 1_000) / 60);
    assert(y / 60_000 == (y / 1_000) / 60);
}

proof fn lemma_moment_len(ms: int)
    requires
        four_digit_year(ms),
    ensures
        iso_text(ms).len() == 24,
{
    let f = moment_fields(ms);
    lemma_moment_fields(ms);
    lemma_fields_len(f, 0);
    assert(fields_len(f, 7) == 0);
    assert(fields_len(f, 6) == 4);
    assert(fields_len(f, 5) == 7);
    assert(fields_len(f, 4) == 10);
    assert(fields_len(f, 3) == 13);
    assert(fields_len(f, 2) == 16);
    assert(fields_len(f, 1) == 19);
}

#[verifier::spinoff_prover]
proof fn lemma_later_day(a: int, b: int)
    requires
        four_digit_year(a),
        four_digit_year(b),
        a / 86_400_000 < b / 86_400_000,
    ensures
        text::before(iso_text(a), iso_text(b)),
{
    lemma_moment_fields(a);
    lemma_moment_fields(b);
    let f = moment_fields(a);
    let g = moment_fields(b);
    let s = date_of(a / 86_400_000);
    let t = date_of(b / 86_400_000);
    law_day_numbers_follow_dates(t.0, t.1, t.2, s.0, s.1, s.2);
    assert(f[0].0 == s.0 && g[0].0 == t.0 && f[1].0 == s.1 && g[1].0 == t.1);
    assert(f[2].0 == s.2 && g[2].0 == t.2);
    if s.0 < t.0 {
        lemma_fields_before(f, g, 0, 0);
    } else if s.1 < t.1 {
        assert(f[0] == g[0]);
        lemma_fields_before(f, g, 0, 1);
    } else {
        assert(f[0] == g[0] && f[1] == g[1]);
        assert(s.2 < t.2);
        lemma_fields_before(f, g, 0, 2);
    }
}

#[verifier::spinoff_prover]
proof fn lemma_later_time(a: int, b: int)
    requires
        four_digit_year(a),
        four_digit_year(b),
        a < b,
        a / 86_400_000 == b / 86_400_000,
    ensures
        text::before(iso_text(a), iso_text(b)),
{
    lemma_moment_fields(a);
    lemma_moment_fields(b);
    let f = moment_fields(a);
    let g = moment_fields(b);
    let x = a % 86_400_000;
    let y = b % 86_400_000;
    assert(x < y);
    lemma_clock(x, y);
    assert(f[0] == g[0] && f[1] == g[1] && f[2] == g[2]);
    if x / 3_600_000 < y / 3_600_000 {
        lemma_fields_before(f, g, 0, 3);
    } else if (x / 60_000) % 60 < (y / 60_000) % 60 {
        assert(f[3] == g[3]);
        lemma_fields_before(f, g, 0, 4);
    } else if (x / 1_000) % 60 < (y / 1_000) % 60 {
        assert(f[3] == g[3] && f[4] == g[4]);
        lemma_fields_before(f, g, 0, 5);
    } else {
        assert(f[3] == g[3] && f[4] == g[4] && f[5] == g[5]);
        lemma_fields_before(f, g, 0, 6);
    }
}

/// A moment of the years 0 to 9999 prints as 24 characters, and a later one prints
/// as the greater text.
pub proof fn law_later_moments_print_as_greater_texts(a: int, b: int)
    requires
        four_digit_year(a),
        four_digit_year(b),
    ensures
        iso_text(a).len() == 24,
        a < b ==> text::before(iso_text(a), iso_text(b)),
{
    lemma_moment_len(a);
    if a < b {
        if a / 86_400_000 < b / 86_400_000 {
            lemma_later_day(a, b);
        } else {
            lemma_later_time(a, b);
        }
    }
}

// ---------------------------------------------------------------------------
// Now
// ---------------------------------------------------------------------------

/// `std::time::SystemTime::now`, as the milliseconds since the beginning of 1970;
/// 0 for a clock that is set before. Nothing is stated of what the clock says.
#[verifier::external_body]
pub fn now_ms() -> (r: i64) {
    std::time::SystemTime::now().duration_since(std::time::UNIX_EPOCH).map(
        |d| d.as_millis() as i64,
    ).unwrap_or(0)
}

/// The moment, printed.
pub fn iso8601_now() -> (r: String)
    ensures
        exists|ms: i64| r@ == #[trigger] iso_text(ms as int),
{
    let ms: i64 = now_ms();
    let r = iso8601_ms(ms);
    assert(r@ == iso_text(ms as int));
    r
}

/// The days are counted from the first of January 1970.
pub proof fn law_where_the_count_of_days_begins()
    ensures
        day_number(1970, 1, 1) == 0,
        day_number(1969, 12, 31) == -1,
        day_number(2000, 3, 1) == day_number(2000, 2, 28) + 2,
        day_number(1900, 3, 1) == day_number(1900, 2, 28) + 1,
{
}

/// A moment is printed with its date, and then its hour, minute, second and millisecond
/// within the day, each with its digits.
pub proof fn law_how_a_moment_is_printed(
    y: int,
    m: int,
    d: int,
    hour: int,
    minute: int,
    second: int,
    milli: int,
)
    requires
        valid_date(y, m, d),
        0 <= y <= 9999,
        0 <= hour < 24,
        0 <= minute < 60,
        0 <= second < 60,
        0 <= milli < 1_000,
    ensures
        iso_text(
            day_number(y, m, d) * 86_400_000 + hour * 3_600_000 + minute * 60_000 + second * 1_000
                + milli,
        ) == text::padded(y as nat, 4) + "-"@ + text::padded(m as nat, 2) + "-"@ + text::padded(
            d as nat,
            2,
        ) + "T"@ + text::padded(hour as nat, 2) + ":"@ + text::padded(minute as nat, 2) + ":"@
            + text::padded(second as nat, 2) + "."@ + text::padded(milli as nat, 3) + "Z"@,
{
    let z = day_number(y, m, d);
    let rest = hour * 3_600_000 + minute * 60_000 + second * 1_000 + milli;
    let ms = z * 86_400_000 + rest;
    assert(0 <= rest < 86_400_000);
    assert(ms / 86_400_000 == z);
    assert(ms % 86_400_000 == rest);
    let t = date_of(z);
    assert(valid_date(y, m, d) && day_number((y, m, d).0, (y, m, d).1, (y, m, d).2) == z);
    assert(valid_date(t.0, t.1, t.2) && day_number(t.0, t.1, t.2) == z);
    law_dates_are_distinct(y, m, d, t.0, t.1, t.2);
    assert(rest / 3_600_000 == hour);
    assert((rest / 60_000) == hour * 60 + minute);
    assert((hour * 60 + minute) % 60 == minute);
    assert((rest / 1_000) == (hour * 60 + minute) * 60 + second);
    assert(((hour * 60 + minute) * 60 + second) % 60 == second);
    assert(rest % 1_000 == milli);
}

} // verus!

//! Wall-clock instants, held as calendar fields, and their text forms.

use crate::order::{lemma_text_lt_concat, lemma_text_lt_irreflexive, text_lt};
use crate::text::{lemma_padded_len, lemma_padded_order, padded, pow10, push_padded};
use vstd::prelude::*;

verus! {

/// A UTC instant to the second.
#[derive(Clone, Copy, Debug, PartialEq, Eq)]
pub struct Timestamp {
    pub year: u32,
    pub month: u32,
    pub day: u32,
    pub hour: u32,
    pub minute: u32,
    pub second: u32,
}

/// Relies on `std::time::SystemTime::now`, `chrono::DateTime::from_timestamp`
/// and the `Datelike` / `Timelike` accessors: year, month (1 to 12), day (1
/// to 31), hour (0 to 23), minute and second (0 to 59, leap seconds being
/// kept in the nanoseconds) of the current UTC time; `None` where the clock
/// reads before 1970 or beyond what chrono can represent.
#[verifier::external_body]
fn utc_now_fields() -> (r: Option<(i32, u32, u32, u32, u32, u32)>)
    ensures
        r matches Some(f) ==> 1 <= f.1 <= 12 && 1 <= f.2 <= 31 && f.3 <= 23 && f.4 <= 59 && f.5
            <= 59,
{
    let since = std::time::SystemTime::now().duration_since(std::time::UNIX_EPOCH).ok()?;
    let secs = i64::try_from(since.as_secs()).ok()?;
    let now = chrono::DateTime::from_timestamp(secs, since.subsec_nanos())?;
    Some((
        chrono::Datelike::year(&now),
        chrono::Datelike::month(&now),
        chrono::Datelike::day(&now),
        chrono::Timelike::hour(&now),
        chrono::Timelike::minute(&now),
        chrono::Timelike::second(&now),
    ))
}

/// `a` is an earlier instant than `b`.
pub open spec fn earlier(a: Timestamp, b: Timestamp) -> bool {
    if a.year != b.year {
        a.year < b.year
    } else if a.month != b.month {
        a.month < b.month
    } else if a.day != b.day {
        a.day < b.day
    } else if a.hour != b.hour {
        a.hour < b.hour
    } else if a.minute != b.minute {
        a.minute < b.minute
    } else {
        a.second < b.second
    }
}

/// A number field, then the rest: compared by the field first.
proof fn lemma_field_first(n: nat, m: nat, width: nat, r1: Seq<char>, r2: Seq<char>)
    requires
        n < pow10(width),
        m < pow10(width),
    ensures
        text_lt(padded(n, width) + r1, padded(m, width) + r2) == (n < m || (n == m && text_lt(
            r1,
            r2,
        ))),
{
    lemma_padded_len(n, width);
    lemma_padded_len(m, width);
    lemma_padded_order(n, m, width);
    lemma_text_lt_concat(padded(n, width), r1, padded(m, width), r2);
}

/// A separator, then the rest: compared by the rest.
proof fn lemma_separator(c: char, r1: Seq<char>, r2: Seq<char>)
    ensures
        text_lt(seq![c] + r1, seq![c] + r2) == text_lt(r1, r2),
{
    lemma_text_lt_irreflexive(seq![c]);
    lemma_text_lt_concat(seq![c], r1, seq![c], r2);
}

/// The sortable text grouped from the right: each field, then the rest.
spec fn sortable_from_right(t: Timestamp) -> Seq<char> {
    padded(t.year as nat, 4) + (seq!['-'] + (padded(t.month as nat, 2) + (seq!['-'] + (padded(
        t.day as nat,
        2,
    ) + (seq![' '] + (padded(t.hour as nat, 2) + (seq![':'] + (padded(t.minute as nat, 2) + (
    seq![':'] + padded(t.second as nat, 2))))))))))
}

proof fn lemma_sortable_from_right(t: Timestamp)
    ensures
        t.sortable_spec() == sortable_from_right(t),
{
    assert(t.sortable_spec() =~= sortable_from_right(t));
}

/// The stored text of instants sorts exactly as the instants do, so rows
/// ordered by this text are ordered by time.
pub proof fn lemma_sortable_text_orders_by_time(a: Timestamp, b: Timestamp)
    requires
        a.wf(),
        b.wf(),
    ensures
        text_lt(a.sortable_spec(), b.sortable_spec()) == earlier(a, b),
{
    assert(pow10(0) == 1);
    assert(pow10(1) == 10);
    assert(pow10(2) == 100);
    assert(pow10(3) == 1000);
    assert(pow10(4) == 10000);
    lemma_sortable_from_right(a);
    lemma_sortable_from_right(b);
    let s6a = padded(a.second as nat, 2);
    let s6b = padded(b.second as nat, 2);
    let s5a = seq![':'] + s6a;
    let s5b = seq![':'] + s6b;
    let s4a = padded(a.minute as nat, 2) + s5a;
    let s4b = padded(b.minute as nat, 2) + s5b;
    let s3a = seq![':'] + s4a;
    let s3b = seq![':'] + s4b;
    let h_a = padded(a.hour as nat, 2) + s3a;
    let h_b = padded(b.hour as nat, 2) + s3b;
    let g_a = seq![' '] + h_a;
    let g_b = seq![' '] + h_b;
    let d_a = padded(a.day as nat, 2) + g_a;
    let d_b = padded(b.day as nat, 2) + g_b;
    let c_a = seq!['-'] + d_a;
    let c_b = seq!['-'] + d_b;
    let m_a = padded(a.month as nat, 2) + c_a;
    let m_b = padded(b.month as nat, 2) + c_b;
    let b_a = seq!['-'] + m_a;
    let b_b = seq!['-'] + m_b;
    lemma_padded_order(a.second as nat, b.second as nat, 2);
    lemma_separator(':', s6a, s6b);
    lemma_field_first(a.minute as nat, b.minute as nat, 2, s5a, s5b);
    lemma_separator(':', s4a, s4b);
    lemma_field_first(a.hour as nat, b.hour as nat, 2, s3a, s3b);
    lemma_separator(' ', h_a, h_b);
    lemma_field_first(a.day as nat, b.day as nat, 2, g_a, g_b);
    lemma_separator('-', d_a, d_b);
    lemma_field_first(a.month as nat, b.month as nat, 2, c_a, c_b);
    lemma_separator('-', m_a, m_b);
    lemma_field_first(a.year as nat, b.year as nat, 4, b_a, b_b);
}

impl Timestamp {
    /// Every field is in its calendar range, and the year has four digits.
    pub open spec fn wf(&self) -> bool {
        &&& self.year <= 9999
        &&& 1 <= self.month <= 12
        &&& 1 <= self.day <= 31
        &&& self.hour <= 23
        &&& self.minute <= 59
        &&& self.second <= 59
    }

    /// `YYYY-MM-DD HH:MM:SS`, the form stored with rows.
    pub open spec fn sortable_spec(&self) -> Seq<char> {
        padded(self.year as nat, 4) + seq!['-'] + padded(self.month as nat, 2) + seq!['-']
            + padded(self.day as nat, 2) + seq![' '] + padded(self.hour as nat, 2) + seq![':']
            + padded(self.minute as nat, 2) + seq![':'] + padded(self.second as nat, 2)
    }

    /// `YYYYMMDD_HHMMSS`, the form used in file names.
    pub open spec fn compact_spec(&self) -> Seq<char> {
        padded(self.year as nat, 4) + padded(self.month as nat, 2) + padded(self.day as nat, 2)
            + seq!['_'] + padded(self.hour as nat, 2) + padded(self.minute as nat, 2) + padded(
            self.second as nat,
            2,
        )
    }

    /// The instant with these calendar fields; `None` when the year lies
    /// outside 0..=9999, which four digits cannot write.
    pub fn from_fields(year: i32, month: u32, day: u32, hour: u32, minute: u32, second: u32) -> (r:
        Option<Timestamp>)
        requires
            1 <= month <= 12,
            1 <= day <= 31,
            hour <= 23,
            minute <= 59,
            second <= 59,
        ensures
            r is Some <==> 0 <= year <= 9999,
            r matches Some(t) ==> t.wf() && t.year == year as u32 && t.month == month && t.day
                == day && t.hour == hour && t.minute == minute && t.second == second,
    {
        if 0 <= year && year <= 9999 {
            Some(Timestamp { year: year as u32, month, day, hour, minute, second })
        } else {
            None
        }
    }

    /// The current UTC time; `None` when the clock cannot be read as a date
    /// or its year lies outside 0..=9999.
    pub fn now() -> (r: Option<Timestamp>)
        ensures
            r matches Some(t) ==> t.wf(),
    {
        match utc_now_fields() {
            Some((y, mo, d, h, mi, s)) => Timestamp::from_fields(y, mo, d, h, mi, s),
            None => None,
        }
    }

    /// The text stored as a row's creation or insertion time.
    pub fn sortable_text(&self) -> (r: String)
        ensures
            r@ == self.sortable_spec(),
    {
        let mut s = String::new();
        push_padded(&mut s, self.year as u64, 4);
        s.append("-");
        push_padded(&mut s, self.month as u64, 2);
        s.append("-");
        push_padded(&mut s, self.day as u64, 2);
        s.append(" ");
        push_padded(&mut s, self.hour as u64, 2);
        s.append(":");
        push_padded(&mut s, self.minute as u64, 2);
        s.append(":");
        push_padded(&mut s, self.second as u64, 2);
        proof {
            reveal_strlit("-");
            reveal_strlit(" ");
            reveal_strlit(":");
            assert(s@ =~= self.sortable_spec());
        }
        s
    }

    /// The text that starts the name of a stored image.
    pub fn compact_text(&self) -> (r: String)
        ensures
            r@ == self.compact_spec(),
    {
        let mut s = String::new();
        push_padded(&mut s, self.year as u64, 4);
        push_padded(&mut s, self.month as u64, 2);
        push_padded(&mut s, self.day as u64, 2);
        s.append("_");
        push_padded(&mut s, self.hour as u64, 2);
        push_padded(&mut s, self.minute as u64, 2);
        push_padded(&mut s, self.second as u64, 2);
        proof {
            reveal_strlit("_");
            assert(s@ =~= self.compact_spec());
        }
        s
    }
}

} // verus!

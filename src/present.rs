//! Ranking entries by how soon their birthday comes, and the rows that show them.

use crate::calendar::CalendarDate;
use crate::date_spec::BirthdayDate;
use crate::entry::Entry;
use crate::text::{chars_of, pad2, push_signed_decimal, push_str, signed_decimal, string_from_chars};
use crate::zone::{date_in, date_of_instant, ZonedDate, INSTANT_RANGE, SECONDS_PER_DAY, WALL_LIMIT};
use chrono::NaiveDate;
use chrono_humanize::HumanTime;
use vstd::multiset::Multiset;
use vstd::prelude::*;

verus! {

broadcast use vstd::seq_lib::group_to_multiset_ensures;

/// Lexicographic order of names, character by character.
pub open spec fn name_le(a: Seq<char>, b: Seq<char>) -> bool
    decreases a.len(),
{
    if a.len() == 0 {
        true
    } else if b.len() == 0 {
        false
    } else if a[0] != b[0] {
        a[0] < b[0]
    } else {
        name_le(a.skip(1), b.skip(1))
    }
}

/// The order in which entries are listed: those whose birthday is today come
/// first, the others by their next occurrence, and equal ones by name.
pub open spec fn entry_le(a: Entry, b: Entry) -> bool {
    match (a.next_occurence, b.next_occurence) {
        (None, Some(_)) => true,
        (Some(_), None) => false,
        (Some(x), Some(y)) => x < y || (x == y && name_le(a.name@, b.name@)),
        (None, None) => name_le(a.name@, b.name@),
    }
}

/// Every entry comes no later than the ones after it.
pub open spec fn sorted_by_imminence(s: Seq<Entry>) -> bool {
    forall|i: int, j: int| 0 <= i < j < s.len() ==> entry_le(#[trigger] s[i], #[trigger] s[j])
}

pub proof fn lemma_name_le_reflexive(a: Seq<char>)
    ensures
        name_le(a, a),
    decreases a.len(),
{
    if a.len() > 0 {
        lemma_name_le_reflexive(a.skip(1));
    }
}

/// Every entry comes no later than itself.
pub proof fn lemma_entry_le_reflexive(a: Entry)
    ensures
        entry_le(a, a),
{
    lemma_name_le_reflexive(a.name@);
}

pub proof fn lemma_name_le_total(a: Seq<char>, b: Seq<char>)
    ensures
        name_le(a, b) || name_le(b, a),
    decreases a.len(),
{
    if a.len() > 0 && b.len() > 0 && a[0] == b[0] {
        lemma_name_le_total(a.skip(1), b.skip(1));
    }
}

pub proof fn lemma_name_le_transitive(a: Seq<char>, b: Seq<char>, c: Seq<char>)
    requires
        name_le(a, b),
        name_le(b, c),
    ensures
        name_le(a, c),
    decreases a.len(),
{
    if a.len() > 0 && b.len() > 0 && c.len() > 0 && a[0] == b[0] && b[0] == c[0] {
        lemma_name_le_transitive(a.skip(1), b.skip(1), c.skip(1));
    }
}

/// Any two entries are ordered one way or the other.
pub proof fn lemma_entry_le_total(a: Entry, b: Entry)
    ensures
        entry_le(a, b) || entry_le(b, a),
{
    lemma_name_le_total(a.name@, b.name@);
}

/// The listing order is transitive.
pub proof fn lemma_entry_le_transitive(a: Entry, b: Entry, c: Entry)
    requires
        entry_le(a, b),
        entry_le(b, c),
    ensures
        entry_le(a, c),
{
    if name_le(a.name@, b.name@) && name_le(b.name@, c.name@) {
        lemma_name_le_transitive(a.name@, b.name@, c.name@);
    }
}

/// Whether `a` comes lexicographically no later than `b`.
fn name_le_exec(a: &String, b: &String) -> (r: bool)
    ensures
        r == name_le(a@, b@),
{
    let x = chars_of(a.as_str());
    let y = chars_of(b.as_str());
    let mut i: usize = 0;
    assert(x@.skip(0) =~= x@);
    assert(y@.skip(0) =~= y@);
    while i < x.len() && i < y.len() && x[i] == y[i]
        invariant
            i <= x@.len(),
            i <= y@.len(),
            x@ == a@,
            y@ == b@,
            name_le(a@, b@) == name_le(x@.skip(i as int), y@.skip(i as int)),
        decreases x@.len() - i,
    {
        assert(x@.skip(i as int).skip(1) =~= x@.skip(i + 1 as int));
        assert(y@.skip(i as int).skip(1) =~= y@.skip(i + 1 as int));
        i = i + 1;
    }
    if i == x.len() {
        true
    } else if i == y.len() {
        false
    } else {
        x[i] < y[i]
    }
}

/// Whether `a` is listed no later than `b`.
pub fn entry_le_exec(a: &Entry, b: &Entry) -> (r: bool)
    ensures
        r == entry_le(*a, *b),
{
    match (a.next_occurence, b.next_occurence) {
        (None, Some(_)) => true,
        (Some(_), None) => false,
        (Some(x), Some(y)) => x < y || (x == y && name_le_exec(&a.name, &b.name)),
        (None, None) => name_le_exec(&a.name, &b.name),
    }
}

/// The index of an entry of `v` that comes no later than any other.
fn index_of_first(v: &Vec<Entry>) -> (m: usize)
    requires
        v@.len() > 0,
    ensures
        m < v@.len(),
        forall|j: int| 0 <= j < v@.len() ==> entry_le(v@[m as int], #[trigger] v@[j]),
{
    let mut m: usize = 0;
    let mut k: usize = 1;
    proof {
        lemma_entry_le_reflexive(v@[0]);
    }
    while k < v.len()
        invariant
            m < k <= v@.len(),
            forall|j: int| 0 <= j < k ==> entry_le(v@[m as int], #[trigger] v@[j]),
        decreases v@.len() - k,
    {
        if !entry_le_exec(&v[m], &v[k]) {
            proof {
                lemma_entry_le_total(v@[m as int], v@[k as int]);
                lemma_entry_le_reflexive(v@[k as int]);
                assert forall|j: int| 0 <= j <= k implies entry_le(v@[k as int], #[trigger] v@[j]) by {
                    if j < k {
                        lemma_entry_le_transitive(v@[k as int], v@[m as int], v@[j]);
                    }
                }
            }
            m = k;
        }
        k = k + 1;
    }
    m
}

/// The entries in listing order.
pub fn sort_entries(entries: Vec<Entry>) -> (r: Vec<Entry>)
    ensures
        r@.to_multiset() == entries@.to_multiset(),
        sorted_by_imminence(r@),
{
    let mut rest = entries;
    let mut out: Vec<Entry> = Vec::new();
    while rest.len() > 0
        invariant
            out@.to_multiset().add(rest@.to_multiset()) == entries@.to_multiset(),
            sorted_by_imminence(out@),
            forall|i: int, j: int|
                0 <= i < out@.len() && 0 <= j < rest@.len() ==> entry_le(
                    #[trigger] out@[i],
                    #[trigger] rest@[j],
                ),
        decreases rest@.len(),
    {
        let m = index_of_first(&rest);
        let ghost old_rest = rest@;
        let ghost old_out = out@;
        let x = rest.remove(m);
        out.push(x);
        proof {
            assert(old_rest.remove(m as int).to_multiset() == old_rest.to_multiset().remove(x));
            assert(old_rest.to_multiset().contains(x));
            assert(out@.to_multiset().add(rest@.to_multiset()) =~= entries@.to_multiset());
            assert forall|i: int, j: int|
                0 <= i < out@.len() && 0 <= j < rest@.len() implies entry_le(
                    #[trigger] out@[i],
                    #[trigger] rest@[j],
                ) by {
                let jj = if j < m {
                    j
                } else {
                    j + 1
                };
                assert(rest@[j] == old_rest[jj]);
                if i < old_out.len() {
                    assert(out@[i] == old_out[i]);
                }
            }
            assert forall|i: int, j: int| 0 <= i < j < out@.len() implies entry_le(
                #[trigger] out@[i],
                #[trigger] out@[j],
            ) by {
                if j < old_out.len() {
                    assert(out@[i] == old_out[i]);
                    assert(out@[j] == old_out[j]);
                } else {
                    assert(out@[i] == old_out[i]);
                    assert(out@[j] == old_rest[m as int]);
                }
            }
        }
    }
    assert(rest@.to_multiset() =~= Multiset::empty());
    assert(out@.to_multiset() =~= entries@.to_multiset());
    out
}

/// How many entries a listing keeps.
pub open spec fn kept(n: nat, limit: Option<usize>) -> nat {
    match limit {
        Some(l) if l < n => l as nat,
        _ => n,
    }
}

/// The entries in listing order, the first `limit` of them when a limit is given.
pub fn select_entries(entries: Vec<Entry>, limit: Option<usize>) -> (r: Vec<Entry>)
    ensures
        exists|all: Seq<Entry>|
            #![trigger all.to_multiset()]
            all.to_multiset() == entries@.to_multiset() && sorted_by_imminence(all) && r@
                == all.take(kept(entries@.len(), limit) as int),
        r@.len() == kept(entries@.len(), limit),
{
    let mut sorted = sort_entries(entries);
    let ghost all = sorted@;
    proof {
        all.to_multiset_ensures();
        entries@.to_multiset_ensures();
    }
    match limit {
        Some(l) => {
            if l < sorted.len() {
                sorted.truncate(l);
            }
        },
        None => {},
    }
    assert(sorted@ =~= all.take(kept(entries@.len(), limit) as int));
    sorted
}

/// Keeping the first entries of a listing keeps the ones that come first: each
/// kept entry comes no later than every entry left out.
pub proof fn lemma_limit_keeps_first(all: Seq<Entry>, n: int)
    requires
        sorted_by_imminence(all),
        0 <= n <= all.len(),
    ensures
        all.take(n).len() == n,
        sorted_by_imminence(all.take(n)),
        forall|i: int, j: int|
            0 <= i < n <= j < all.len() ==> entry_le(#[trigger] all.take(n)[i], #[trigger] all[j]),
{
    assert forall|i: int, j: int| 0 <= i < j < n implies entry_le(
        #[trigger] all.take(n)[i],
        #[trigger] all.take(n)[j],
    ) by {
        assert(all.take(n)[i] == all[i] && all.take(n)[j] == all[j]);
    }
    assert forall|i: int, j: int| 0 <= i < n <= j < all.len() implies entry_le(
        #[trigger] all.take(n)[i],
        #[trigger] all[j],
    ) by {
        assert(all.take(n)[i] == all[i]);
    }
}

/// The largest number of seconds that a duration may hold.
pub const MAX_DURATION_SECONDS: i64 = 9_223_372_036_854_775;

/// The full English name of month `m`.
pub open spec fn month_name(m: u32) -> Seq<char> {
    if m == 1 {
        "January"@
    } else if m == 2 {
        "February"@
    } else if m == 3 {
        "March"@
    } else if m == 4 {
        "April"@
    } else if m == 5 {
        "May"@
    } else if m == 6 {
        "June"@
    } else if m == 7 {
        "July"@
    } else if m == 8 {
        "August"@
    } else if m == 9 {
        "September"@
    } else if m == 10 {
        "October"@
    } else if m == 11 {
        "November"@
    } else {
        "December"@
    }
}

/// The date column: the zero-padded day, a space and the month's name.
pub open spec fn day_month_text(day: u32, month: u32) -> Seq<char> {
    pad2(day as nat) + seq![' '] + month_name(month)
}

/// Relies on chrono's `NaiveDate::format` with `%d %B`: the day zero-padded to
/// two digits, a space and the full English month name.
#[verifier::external_body]
fn day_month_label(date: CalendarDate) -> (r: String)
    requires
        date.wf(),
    ensures
        r@ == day_month_text(date.day, date.month),
{
    NaiveDate::from_ymd_opt(date.year, date.month, date.day).unwrap().format("%d %B").to_string()
}

/// The rough English phrase for a signed duration of `secs` seconds, such as
/// "in 3 weeks" or "2 months ago".
pub uninterp spec fn humanized(secs: i64) -> Seq<char>;

/// Relies on chrono-humanize's `HumanTime`, whose display (rough accuracy)
/// depends on the duration alone. `TimeDelta::seconds` panics beyond
/// `i64::MAX / 1000` seconds.
#[verifier::external_body]
fn humanize_seconds(secs: i64) -> (r: String)
    requires
        -MAX_DURATION_SECONDS <= secs <= MAX_DURATION_SECONDS,
    ensures
        r@ == humanized(secs),
{
    HumanTime::from(chrono::TimeDelta::seconds(secs)).to_string()
}

/// The age column: the age before and after the next birthday, or `?` when
/// the year of birth or the reference year is unknown.
pub open spec fn age_text(birth_year: Option<i32>, reference_year: Option<i32>) -> Seq<char> {
    match (birth_year, reference_year) {
        (Some(b), Some(y)) => signed_decimal(y - b - 1) + seq![' ', '\u{2192}', ' ']
            + signed_decimal(y - b),
        _ => seq!['?'],
    }
}

/// The "in" column: `Today!`, or how long until the next occurrence.
pub open spec fn until_text(next: Option<i64>, now: i64) -> Seq<char> {
    match next {
        None => "Today!"@,
        Some(n) => humanized((n - now) as i64),
    }
}

/// The age column for a year of birth, reckoned at `reference_year`: the
/// year of the next birthday.
pub fn age_label(birth_year: Option<i32>, reference_year: Option<i32>) -> (r: String)
    ensures
        r@ == age_text(birth_year, reference_year),
{
    let mut out: Vec<char> = Vec::new();
    match (birth_year, reference_year) {
        (Some(b), Some(y)) => {
            let age = y as i64 - b as i64;
            push_signed_decimal(age - 1, &mut out);
            out.push(' ');
            out.push('\u{2192}');
            out.push(' ');
            push_signed_decimal(age, &mut out);
        },
        _ => {
            out.push('?');
        },
    }
    let r = string_from_chars(&out);
    assert(r@ =~= age_text(birth_year, reference_year));
    r
}

/// The "in" column for a next occurrence, seen at instant `now`.
pub fn until_label(next: Option<i64>, now: i64) -> (r: String)
    requires
        next matches Some(n) ==> -MAX_DURATION_SECONDS <= n - now <= MAX_DURATION_SECONDS,
    ensures
        r@ == until_text(next, now),
{
    match next {
        None => {
            let mut out: Vec<char> = Vec::new();
            push_str("Today!", &mut out);
            let r = string_from_chars(&out);
            assert(r@ =~= until_text(next, now));
            r
        },
        Some(n) => humanize_seconds(n - now),
    }
}

/// One line of the listing.
pub struct Row {
    /// Position in the listing, from 1.
    pub index: usize,
    pub name: String,
    pub date: String,
    pub age: String,
    pub until: String,
}

/// `row` shows entry `e` at `position` (from 0) of a listing made at `now`.
/// The age is reckoned at the year of the date, in the viewer's zone, that the
/// next occurrence falls on (`now` when the birthday is today); outside
/// chrono's range that year is unknown.
pub open spec fn row_shows(row: Row, position: int, e: Entry, now: i64) -> bool {
    &&& row.index == position + 1
    &&& row.name@ == e.name@
    &&& row.date@ == day_month_text(e.date.day, e.date.month)
    &&& row.until@ == until_text(e.next_occurence, now)
    &&& if -INSTANT_RANGE <= reference_instant(e, now) <= INSTANT_RANGE {
        exists|d: ZonedDate|
            date_of_instant(d, reference_instant(e, now) as int) && row.age@ == #[trigger] age_text(
                e.date.year,
                Some(d.date.year),
            )
    } else {
        row.age@ == age_text(e.date.year, None)
    }
}

/// The instant at which the age is reckoned: the next occurrence, or `now`
/// when the birthday is today.
pub open spec fn reference_instant(e: Entry, now: i64) -> i64 {
    match e.next_occurence {
        Some(n) => n,
        None => now,
    }
}

/// A bound on the instants at which a listing can be made.
pub const NOW_LIMIT: i64 = 8_400_000_000_000;

/// The row for `e` at `position` (from 0) of a listing made at `now`.
pub fn row_for(position: usize, e: &Entry, now: i64) -> (r: Row)
    requires
        position < usize::MAX,
        e.wf(),
        -NOW_LIMIT <= now <= NOW_LIMIT,
    ensures
        row_shows(r, position as int, *e, now),
{
    let at = match e.next_occurence {
        Some(n) => n,
        None => now,
    };
    let year = if -INSTANT_RANGE <= at && at <= INSTANT_RANGE {
        let d = date_in(&None, at);
        Some(d.date.year)
    } else {
        None
    };
    let age = age_label(e.date.year, year);
    let date = day_month_label(e.date.naive_date_safe_year());
    let until = until_label(e.next_occurence, now);
    let r = Row { index: position + 1, name: e.name.clone(), date, age, until };
    assert(r.age@ == age_text(e.date.year, year));
    assert(at == reference_instant(*e, now));
    r
}

/// The listing: the entries in listing order, the first `limit` of them when a
/// limit is given, each shown as a row numbered from 1.
pub fn build_rows(entries: Vec<Entry>, limit: Option<usize>, now: i64) -> (r: Vec<Row>)
    requires
        forall|i: int| 0 <= i < entries@.len() ==> (#[trigger] entries@[i]).wf(),
        -NOW_LIMIT <= now <= NOW_LIMIT,
    ensures
        exists|all: Seq<Entry>|
            #![trigger all.to_multiset()]
            {
                &&& all.to_multiset() == entries@.to_multiset()
                &&& sorted_by_imminence(all)
                &&& r@.len() == kept(entries@.len(), limit)
                &&& forall|i: int| 0 <= i < r@.len() ==> row_shows(#[trigger] r@[i], i, all[i], now)
            },
{
    let ghost input = entries@;
    let chosen = select_entries(entries, limit);
    let ghost all = choose|all: Seq<Entry>|
        #![trigger all.to_multiset()]
        all.to_multiset() == input.to_multiset() && sorted_by_imminence(all) && chosen@
            == all.take(kept(input.len(), limit) as int);
    proof {
        all.to_multiset_ensures();
        input.to_multiset_ensures();
        assert(all.len() == input.len());
        assert forall|i: int| 0 <= i < chosen@.len() implies (#[trigger] chosen@[i]).wf() by {
            let x = chosen@[i];
            assert(all[i] == x);
            assert(all.contains(x));
            assert(all.to_multiset().count(x) > 0);
            assert(input.to_multiset().count(x) > 0);
            assert(input.contains(x));
        }
    }
    let mut rows: Vec<Row> = Vec::new();
    let mut i: usize = 0;
    while i < chosen.len()
        invariant
            i <= chosen@.len(),
            chosen@.len() <= input.len(),
            rows@.len() == i,
            -NOW_LIMIT <= now <= NOW_LIMIT,
            forall|k: int| 0 <= k < chosen@.len() ==> (#[trigger] chosen@[k]).wf(),
            forall|k: int| 0 <= k < i ==> row_shows(#[trigger] rows@[k], k, chosen@[k], now),
        decreases chosen@.len() - i,
    {
        let row = row_for(i, &chosen[i], now);
        rows.push(row);
        i = i + 1;
    }
    assert forall|k: int| 0 <= k < rows@.len() implies row_shows(#[trigger] rows@[k], k, all[k], now) by {
        assert(chosen@[k] == all[k]);
    }
    rows
}

} // verus!

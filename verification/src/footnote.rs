//! Footnotes: on which days of the file's validity a service runs.
//!
//! A footnote holds one flag per day, from the file's first valid day on.
//! Footnote 0 stands in no file: it means every day of the validity.

use crate::calendar::{Date, LAST_DAY};
use crate::identification::{
    identification_at, parse_identification, DeliveryIdentified, Identification,
    IdentificationView,
};
use crate::text::{
    at_char, field_at, has_char, number_field_at, rest_from, scan_field, scan_number_field,
    to_chars, CharClass, ParseError, Terminator,
};
use crate::views::{lemma_seq_view_empty, lemma_seq_view_push, seq_view};
use vstd::prelude::*;

verus! {

/// A footnote: its number and one flag per day.
#[derive(Debug, PartialEq)]
pub struct Footnote {
    pub id: u32,
    pub vector: Vec<bool>,
}

/// A [`Footnote`] as plain values.
pub struct FootnoteView {
    pub id: u32,
    pub vector: Seq<bool>,
}

impl View for Footnote {
    type V = FootnoteView;

    open spec fn view(&self) -> FootnoteView {
        FootnoteView { id: self.id, vector: self.vector@ }
    }
}

impl Clone for Footnote {
    fn clone(&self) -> (r: Self)
        ensures
            r@ == self@,
    {
        let vector = self.vector.clone();
        assert(vector@ =~= self.vector@);
        Footnote { id: self.id, vector }
    }
}

impl FootnoteView {
    /// Whether the footnote says that the service runs on `date`: the day
    /// lies in the validity of the file and its flag is set. A day that the
    /// footnote has no flag for is no day of the service.
    pub open spec fn is_valid_on_date(self, date: Date, delivery: IdentificationView) -> bool {
        &&& delivery.first_valid.days <= date.days <= delivery.last_valid.days
        &&& date.days - delivery.first_valid.days < self.vector.len()
        &&& self.vector[date.days - delivery.first_valid.days]
    }

    /// What the footnote says of each day from `first` on: the day where
    /// its flag is set, nothing where it is not.
    pub open spec fn dates(self, first: Date) -> Seq<Option<Date>> {
        Seq::new(
            self.vector.len(),
            |i: int|
                if self.vector[i] {
                    Some(Date { days: (first.days + i) as i32 })
                } else {
                    None
                },
        )
    }

    /// The footnote that means every day of the validity of `delivery`.
    pub open spec fn always_valid(delivery: IdentificationView) -> FootnoteView {
        FootnoteView { id: 0, vector: Seq::new(delivery.days_valid() as nat, |i: int| true) }
    }

    /// The footnote has a flag for each day of the validity of `delivery`,
    /// and for no other.
    pub open spec fn fits(self, delivery: IdentificationView) -> bool {
        self.vector.len() == delivery.days_valid()
    }
}

impl Footnote {
    /// Whether the days from `first` on that the footnote has a flag for
    /// are all days that `chrono` can hold.
    pub open spec fn in_range(&self, first: Date) -> bool {
        first.wf() && first.days + self.vector.len() <= LAST_DAY + 1
    }

    /// Whether the days from `first` on that the footnote has a flag for
    /// are all days that `chrono` can hold.
    pub fn is_in_range(&self, first: &Date) -> (r: bool)
        ensures
            r == self.in_range(*first),
    {
        first.is_valid() && self.vector.len() as u64 <= (LAST_DAY as i64 - first.days as i64
            + 1) as u64
    }

    /// The footnote that means every day of the validity of `delivery`: its
    /// number is 0 and it has a set flag for each of those days.
    pub fn always_valid(delivery: &Identification) -> (r: Footnote)
        requires
            delivery.wf(),
        ensures
            r@ == FootnoteView::always_valid(delivery@),
            r@.fits(delivery@),
            r.in_range(delivery.first_valid),
    {
        let n = delivery.days_valid();
        let mut vector: Vec<bool> = Vec::new();
        let mut k: u64 = 0;
        while k < n
            invariant
                k <= n,
                vector@.len() == k,
                forall|j: int| 0 <= j < k ==> vector@[j],
            decreases n - k,
        {
            vector.push(true);
            k += 1;
        }
        assert(vector@ =~= FootnoteView::always_valid(delivery@).vector);
        Footnote { id: 0, vector }
    }

    /// Whether the service runs on `date`, by this footnote of a file with
    /// the header `delivery`.
    pub fn is_valid_on_date(&self, date: &Date, delivery: &Identification) -> (r: bool)
        ensures
            r == self@.is_valid_on_date(*date, delivery@),
    {
        if date.is_before(&delivery.first_valid) || delivery.last_valid.is_before(date) {
            return false;
        }
        let offset: i64 = date.days_since(&delivery.first_valid);
        if offset as u64 >= self.vector.len() as u64 {
            return false;
        }
        self.vector[offset as usize]
    }

    /// Walks the days of the footnote, from the first valid day of
    /// `delivery` on.
    pub fn iterate_valid_dates<'a>(&'a self, delivery: &'a Identification) -> (r:
        FootnoteValidDatesIter<'a>)
        requires
            self.in_range(delivery.first_valid),
        ensures
            r.footnote == self,
            r.delivery == delivery,
            r.index == 0,
            r.wf(),
    {
        FootnoteValidDatesIter { footnote: self, delivery, index: 0 }
    }
}

/// A walk over the days of a footnote. Each step yields what the footnote
/// says of the next day: the day where it is set, `None` where it is not.
pub struct FootnoteValidDatesIter<'a> {
    pub footnote: &'a Footnote,
    pub delivery: &'a Identification,
    pub index: usize,
}

impl<'a> FootnoteValidDatesIter<'a> {
    /// The walk has not passed the end, and every day ahead is a day that
    /// `chrono` can hold.
    pub open spec fn wf(&self) -> bool {
        self.index <= self.footnote.vector@.len() && self.footnote.in_range(
            self.delivery.first_valid,
        )
    }

    /// All that the walk yields from its start.
    pub open spec fn all(&self) -> Seq<Option<Date>> {
        self.footnote@.dates(self.delivery.first_valid)
    }

    /// The next step of the walk: `None` at the end, else what the footnote
    /// says of the next day.
    pub fn next(&mut self) -> (r: Option<Option<Date>>)
        requires
            old(self).wf(),
        ensures
            final(self).wf(),
            final(self).footnote == old(self).footnote,
            final(self).delivery == old(self).delivery,
            old(self).index < old(self).footnote.vector@.len() ==> final(self).index == old(
                self,
            ).index + 1 && r == Some(old(self).all()[old(self).index as int]),
            old(self).index >= old(self).footnote.vector@.len() ==> final(self).index == old(
                self,
            ).index && r.is_none(),
    {
        if self.index >= self.footnote.vector.len() {
            return None;
        }
        let is_valid_day = self.footnote.vector[self.index];
        let i = self.index;
        self.index += 1;
        if !is_valid_day {
            return Some(None);
        }
        Some(self.delivery.first_valid.checked_add_days(i as u64))
    }

    /// All that is left of the walk, in a vector.
    pub fn collect(self) -> (r: Vec<Option<Date>>)
        requires
            self.wf(),
        ensures
            r@ == self.all().subrange(self.index as int, self.all().len() as int),
    {
        let mut it = self;
        let mut out: Vec<Option<Date>> = Vec::new();
        let ghost start = self.index;
        loop
            invariant
                it.wf(),
                it.footnote == self.footnote,
                it.delivery == self.delivery,
                start == self.index,
                start <= it.index,
                out@ == self.all().subrange(start as int, it.index as int),
            decreases self.footnote.vector@.len() - it.index,
        {
            match it.next() {
                Some(item) => {
                    out.push(item);
                    assert(out@ =~= self.all().subrange(start as int, it.index as int));
                },
                None => {
                    return out;
                },
            }
        }
    }
}

/// The footnote file: its header and its footnotes.
pub type Footnotes = DeliveryIdentified<Vec<Footnote>>;

/// The position of the first footnote with the number `id`, from `from` on.
pub open spec fn footnote_index(data: Seq<Footnote>, id: u32, from: int) -> Option<int>
    decreases data.len() - from,
{
    if 0 <= from < data.len() {
        if data[from].id == id {
            Some(from)
        } else {
            footnote_index(data, id, from + 1)
        }
    } else {
        None
    }
}

impl Footnotes {
    /// The first footnote with the number `id`, if there is one.
    pub fn get_by_id(&self, id: u32) -> (r: Option<&Footnote>)
        ensures
            match footnote_index(self.data@, id, 0) {
                Some(k) => 0 <= k < self.data@.len() && r == Some(&self.data@[k]),
                None => r.is_none(),
            },
            r matches Some(f) ==> f.id == id,
            r.is_none() ==> forall|k: int| 0 <= k < self.data@.len() ==> self.data@[k].id != id,
    {
        let mut k: usize = 0;
        while k < self.data.len()
            invariant
                k <= self.data.len(),
                footnote_index(self.data@, id, 0) == footnote_index(self.data@, id, k as int),
                forall|j: int| 0 <= j < k ==> self.data@[j].id != id,
            decreases self.data.len() - k,
        {
            if self.data[k].id == id {
                return Some(&self.data[k]);
            }
            k += 1;
        }
        None
    }

    /// Every footnote of the file has a flag for each day of the file's
    /// validity, and for no other.
    pub open spec fn wf(&self) -> bool {
        &&& self.identification.wf()
        &&& forall|k: int|
            0 <= k < self.data@.len() ==> (#[trigger] self.data@[k])@.fits(self.identification@)
    }
}

/// The flags that the binary digits between `a` and `b` write: set for `1`.
pub open spec fn flags(s: Seq<char>, a: int, b: int) -> Seq<bool> {
    Seq::new((b - a) as nat, |k: int| s[a + k] == '1')
}

/// The footnote at position `i` and the position after it: a line of `#`
/// and the number, and a line of binary digits, one per day.
pub open spec fn footnote_at(s: Seq<char>, i: int) -> Option<(FootnoteView, int)> {
    let id = number_field_at(s, i + 1, CharClass::Digit, Terminator::LineEnd);
    let days = field_at(s, id.unwrap().1, CharClass::BinDigit, Terminator::LineEnd);
    if has_char(s, i, '#') && id.is_some() && days.is_some() {
        Some(
            (
                FootnoteView {
                    id: id.unwrap().0,
                    vector: flags(s, id.unwrap().1, days.unwrap().0),
                },
                days.unwrap().1,
            ),
        )
    } else {
        None
    }
}

/// The footnotes from position `i` on that have `days` flags each, as many
/// as follow one another, and the position after the last of them.
pub open spec fn footnotes_at(s: Seq<char>, i: int, days: int) -> (Seq<FootnoteView>, int)
    decreases s.len() - i,
{
    match footnote_at(s, i) {
        Some((f, n)) => if i < n <= s.len() && f.vector.len() == days {
            (seq![f] + footnotes_at(s, n, days).0, footnotes_at(s, n, days).1)
        } else {
            (Seq::empty(), i)
        },
        None => (Seq::empty(), i),
    }
}

/// The footnote file at the start of `s`: the header line, then footnotes
/// with one flag for each day of the validity, and the position after the
/// last of them.
pub open spec fn footnote_file_at(s: Seq<char>) -> Option<
    (IdentificationView, Seq<FootnoteView>, int),
> {
    match identification_at(s, 0) {
        Some((id, n)) => Some(
            (id, footnotes_at(s, n, id.days_valid()).0, footnotes_at(s, n, id.days_valid()).1),
        ),
        None => None,
    }
}

/// Reads the footnote at position `i`.
pub fn parse_footnote(s: &Vec<char>, i: usize) -> (r: Option<(Footnote, usize)>)
    requires
        i <= s.len(),
    ensures
        match footnote_at(s@, i as int) {
            Some((v, n)) => r matches Some((f, m)) && f@ == v && m == n && i < n <= s.len(),
            None => r.is_none(),
        },
{
    if !at_char(s, i, '#') {
        return None;
    }
    let (id, n1) = match scan_number_field(s, i + 1, CharClass::Digit, Terminator::LineEnd) {
        Some(f) => f,
        None => {
            return None;
        },
    };
    let (e2, n2) = match scan_field(s, n1, CharClass::BinDigit, Terminator::LineEnd) {
        Some(f) => f,
        None => {
            return None;
        },
    };
    let mut vector: Vec<bool> = Vec::new();
    let mut k: usize = n1;
    while k < e2
        invariant
            n1 <= k <= e2 <= s.len(),
            vector@ == flags(s@, n1 as int, k as int),
        decreases e2 - k,
    {
        vector.push(s[k] == '1');
        assert(vector@ =~= flags(s@, n1 as int, k + 1));
        k += 1;
    }
    Some((Footnote { id, vector }, n2))
}

/// Reads footnotes of `days` flags each from position `i` on, until one
/// does not parse or has another number of flags.
pub fn parse_footnotes(s: &Vec<char>, i: usize, days: u64) -> (r: (Vec<Footnote>, usize))
    requires
        i <= s.len(),
    ensures
        seq_view(r.0@) == footnotes_at(s@, i as int, days as int).0,
        r.1 == footnotes_at(s@, i as int, days as int).1,
        i <= r.1 <= s.len(),
        forall|k: int| 0 <= k < r.0@.len() ==> (#[trigger] r.0@[k]).vector@.len() == days,
{
    let mut out: Vec<Footnote> = Vec::new();
    let mut pos: usize = i;
    proof {
        lemma_seq_view_empty::<Footnote>();
        assert(Seq::<FootnoteView>::empty() + footnotes_at(s@, i as int, days as int).0
            =~= footnotes_at(s@, i as int, days as int).0);
    }
    loop
        invariant
            i <= pos <= s.len(),
            footnotes_at(s@, i as int, days as int).0 == seq_view(out@) + footnotes_at(
                s@,
                pos as int,
                days as int,
            ).0,
            footnotes_at(s@, i as int, days as int).1 == footnotes_at(
                s@,
                pos as int,
                days as int,
            ).1,
            forall|k: int| 0 <= k < out@.len() ==> (#[trigger] out@[k]).vector@.len() == days,
        decreases s.len() - pos,
    {
        match parse_footnote(s, pos) {
            Some((f, n)) => {
                if f.vector.len() as u64 != days {
                    proof {
                        assert(seq_view(out@) + Seq::<FootnoteView>::empty() =~= seq_view(out@));
                    }
                    return (out, pos);
                }
                proof {
                    lemma_seq_view_push(out@, f);
                    assert(seq_view(out@).push(f@) + footnotes_at(s@, n as int, days as int).0
                        =~= seq_view(out@) + (seq![f@] + footnotes_at(
                        s@,
                        n as int,
                        days as int,
                    ).0));
                }
                out.push(f);
                pos = n;
            },
            None => {
                proof {
                    assert(seq_view(out@) + Seq::<FootnoteView>::empty() =~= seq_view(out@));
                }
                return (out, pos);
            },
        }
    }
}

/// Reads a footnote from the start of `input` and returns it with the rest
/// of the input.
pub fn footnote<'a>(input: &'a str) -> (r: Result<(&'a str, Footnote), ParseError>)
    ensures
        match footnote_at(input@, 0) {
            Some((v, n)) => r matches Ok((rest, f)) && f@ == v && 0 < n <= input@.len()
                && rest@ == input@.subrange(n, input@.len() as int),
            None => r.is_err(),
        },
{
    let chars = to_chars(input);
    match parse_footnote(&chars, 0) {
        Some((f, n)) => Ok((rest_from(input, n, chars.len()), f)),
        None => Err(ParseError),
    }
}

/// Reads a footnote file: the header line, then footnotes as long as they
/// parse and have one flag for each day of the file's validity. Returns
/// what was read with the rest of the input. Fails where the header line
/// does not parse.
pub fn footnote_file<'a>(input: &'a str) -> (r: Result<(&'a str, Footnotes), ParseError>)
    ensures
        match footnote_file_at(input@) {
            Some((id, data, n)) => r matches Ok((rest, file)) && 0 <= n <= input@.len()
                && file.identification@ == id
                && seq_view(file.data@) == data && file.wf() && rest@ == input@.subrange(
                n,
                input@.len() as int,
            ),
            None => r.is_err(),
        },
{
    let chars = to_chars(input);
    match parse_identification(&chars, 0) {
        Some((identification, n)) => {
            let days = identification.days_valid();
            let (data, end) = parse_footnotes(&chars, n, days);
            Ok((rest_from(input, end, chars.len()), DeliveryIdentified { identification, data }))
        },
        None => Err(ParseError),
    }
}

/// The walk over a footnote yields one item for each flag. The item at
/// place `i` is the day `i` days after `first` where the flag is set, and
/// nothing where it is not; so the days it yields go up, by one day for
/// each place.
pub proof fn lemma_dates_step_by_day(footnote: FootnoteView, first: Date)
    requires
        first.wf(),
        first.days + footnote.vector.len() <= LAST_DAY + 1,
    ensures
        footnote.dates(first).len() == footnote.vector.len(),
        forall|i: int|
            0 <= i < footnote.vector.len() ==> (#[trigger] footnote.dates(first)[i]).is_some()
                == footnote.vector[i],
        forall|i: int|
            0 <= i < footnote.vector.len() ==> ((#[trigger] footnote.dates(first)[i]) matches Some(
                d,
            ) ==> d.wf() && d.days == first.days + i),
        forall|i: int, j: int|
            0 <= i < j < footnote.vector.len() ==> ((#[trigger] footnote.dates(first)[i],
            #[trigger] footnote.dates(first)[j]) matches (Some(a), Some(b)) ==> b.days - a.days
                == j - i),
{
}

/// A footnote is valid on a day of the file's validity exactly where the
/// walk yields that day, at the place that is the day's distance from the
/// first valid day.
pub proof fn lemma_valid_on_date_agrees(
    footnote: FootnoteView,
    date: Date,
    delivery: IdentificationView,
)
    requires
        delivery.wf(),
        delivery.first_valid.days + footnote.vector.len() <= LAST_DAY + 1,
        delivery.first_valid.days <= date.days <= delivery.last_valid.days,
    ensures
        footnote.is_valid_on_date(date, delivery) <==> {
            let at = date.days - delivery.first_valid.days;
            at < footnote.dates(delivery.first_valid).len() && footnote.dates(
                delivery.first_valid,
            )[at] == Some(date)
        },
{
}

/// Footnote 0 is valid on every day of the file's validity: its walk yields
/// one day for each, from the first valid day to the last.
pub proof fn lemma_always_valid_every_day(delivery: IdentificationView)
    requires
        delivery.wf(),
    ensures
        FootnoteView::always_valid(delivery).id == 0,
        FootnoteView::always_valid(delivery).fits(delivery),
        FootnoteView::always_valid(delivery).dates(delivery.first_valid).len()
            == delivery.days_valid(),
        forall|i: int|
            0 <= i < delivery.days_valid() ==> #[trigger] FootnoteView::always_valid(
                delivery,
            ).dates(delivery.first_valid)[i] == Some(
                Date { days: (delivery.first_valid.days + i) as i32 },
            ),
        FootnoteView::always_valid(delivery).dates(delivery.first_valid).last() == Some(
            delivery.last_valid,
        ),
        forall|date: Date|
            delivery.first_valid.days <= date.days <= delivery.last_valid.days
                ==> #[trigger] FootnoteView::always_valid(delivery).is_valid_on_date(
                date,
                delivery,
            ),
{
}

} // verus!

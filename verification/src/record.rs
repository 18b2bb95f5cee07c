//! Records: notes taken at a moment, with the characters and the locations
//! that they mention.

use crate::calendar::Calendar;
use crate::character::{CharacterReference, LocationReference};
use crate::datetime::{DateTime, RawDateTime};
use crate::order::{stable_order, stable_order_of};
use crate::outside::fresh_id;
use vstd::prelude::*;
use vstd::utf8::encode_utf8;

verus! {

/// A stretch of a note that is shown in a color.
#[derive(Clone, Copy, Debug, Eq, PartialEq, Structural)]
pub struct Span {
    /// The byte of the note at which the stretch starts.
    pub start: usize,
    /// The byte of the note before which the stretch ends.
    pub end: usize,
    /// The number of the color in the escape codes of a terminal.
    pub color: u8,
}

/// The color in which a character is shown.
pub const CHARACTER_COLOR: u8 = 33;

/// The color in which a location is shown.
pub const LOCATION_COLOR: u8 = 31;

/// A record without the calendar.
#[derive(Debug)]
pub struct RawRecord {
    /// The id of the record.
    pub id: u128,
    /// What was noted.
    pub note: String,
    /// When it was noted.
    pub date: RawDateTime,
    /// The characters that the note mentions.
    pub chars: Vec<CharacterReference>,
    /// The locations that the note mentions.
    pub locs: Vec<LocationReference>,
}

/// What a record holds, with sequences in the place of the vectors.
pub struct RawRecordView {
    /// The id of the record.
    pub id: u128,
    /// What was noted.
    pub note: Seq<char>,
    /// When it was noted.
    pub date: RawDateTime,
    /// The characters that the note mentions.
    pub chars: Seq<CharacterReference>,
    /// The locations that the note mentions.
    pub locs: Seq<LocationReference>,
}

impl View for RawRecord {
    type V = RawRecordView;

    open spec fn view(&self) -> RawRecordView {
        RawRecordView {
            id: self.id,
            note: self.note@,
            date: self.date,
            chars: self.chars@,
            locs: self.locs@,
        }
    }
}

impl Clone for RawRecord {
    fn clone(&self) -> (r: Self)
        ensures
            r@ == self@,
    {
        let mut chars: Vec<CharacterReference> = Vec::new();
        let mut i: usize = 0;
        while i < self.chars.len()
            invariant
                0 <= i <= self.chars.len(),
                chars@ == self.chars@.take(i as int),
            decreases self.chars.len() - i,
        {
            chars.push(self.chars[i].clone());
            i = i + 1;
            assert(chars@ =~= self.chars@.take(i as int));
        }
        let mut locs: Vec<LocationReference> = Vec::new();
        let mut k: usize = 0;
        while k < self.locs.len()
            invariant
                0 <= k <= self.locs.len(),
                locs@ == self.locs@.take(k as int),
            decreases self.locs.len() - k,
        {
            locs.push(self.locs[k].clone());
            k = k + 1;
            assert(locs@ =~= self.locs@.take(k as int));
        }
        assert(chars@ =~= self.chars@);
        assert(locs@ =~= self.locs@);
        RawRecord { id: self.id, note: self.note.clone(), date: self.date, chars, locs }
    }
}

/// The bytes that switch a terminal to the color `color`: escape, `[0;`,
/// the number of the color as two digits, and `m`.
pub open spec fn color_on(color: u8) -> Seq<u8> {
    seq![27u8, 91u8, 48u8, 59u8, (48 + color / 10) as u8, (48 + color % 10) as u8, 109u8]
}

/// The bytes that switch a terminal back to its own color: escape and `[0m`.
pub open spec fn color_off() -> Seq<u8> {
    seq![27u8, 91u8, 48u8, 109u8]
}

/// The spans, taken in the order `order` from its place `at` on, lie one
/// after the other in a note of `length` bytes, none before byte `from`.
pub open spec fn spans_fit(
    spans: Seq<Span>,
    order: Seq<usize>,
    at: int,
    from: int,
    length: int,
) -> bool
    decreases order.len() - at,
{
    if at < 0 || at >= order.len() {
        from <= length
    } else {
        let span = spans[order[at] as int];
        from <= span.start <= span.end <= length && spans_fit(
            spans,
            order,
            at + 1,
            span.end as int,
            length,
        )
    }
}

/// The bytes of a note from byte `from` on, with the spans, taken in the
/// order `order` from its place `at` on, each between the bytes that switch
/// its color on and off.
pub open spec fn colored(
    note: Seq<u8>,
    spans: Seq<Span>,
    order: Seq<usize>,
    at: int,
    from: int,
) -> Seq<u8>
    decreases order.len() - at,
{
    if at < 0 || at >= order.len() {
        note.subrange(from, note.len() as int)
    } else {
        let span = spans[order[at] as int];
        note.subrange(from, span.start as int) + color_on(span.color) + note.subrange(
            span.start as int,
            span.end as int,
        ) + color_off() + colored(note, spans, order, at + 1, span.end as int)
    }
}

impl RawRecord {
    /// The stretches of the note that are shown in a color: those of the
    /// characters, then those of the locations.
    pub open spec fn spans(&self) -> Seq<Span> {
        Seq::new(
            self.chars@.len() + self.locs@.len(),
            |i: int|
                if i < self.chars@.len() {
                    Span {
                        start: self.chars@[i].start,
                        end: self.chars@[i].end,
                        color: CHARACTER_COLOR,
                    }
                } else {
                    Span {
                        start: self.locs@[i - self.chars@.len()].start,
                        end: self.locs@[i - self.chars@.len()].end,
                        color: LOCATION_COLOR,
                    }
                },
        )
    }

    /// The bytes at which the spans start.
    pub open spec fn span_starts(&self) -> Seq<usize> {
        Seq::new(self.spans().len(), |i: int| self.spans()[i].start)
    }

    /// The references, taken by rising start, lie one after the other
    /// inside the note.
    pub open spec fn references_fit(&self) -> bool {
        spans_fit(
            self.spans(),
            stable_order_of(self.span_starts(), self.spans().len()),
            0,
            0,
            encode_utf8(self.note@).len() as int,
        )
    }

    /// The bytes of the note, with each reference, taken by rising start,
    /// between the bytes that switch its color on and off.
    pub open spec fn spec_pretty(&self) -> Seq<u8> {
        colored(
            encode_utf8(self.note@),
            self.spans(),
            stable_order_of(self.span_starts(), self.spans().len()),
            0,
            0,
        )
    }

    /// Creates a new record with a new, random id.
    pub fn new(
        date: RawDateTime,
        note: String,
        chars: Vec<CharacterReference>,
        locs: Vec<LocationReference>,
    ) -> (r: Self)
        ensures
            r.note == note,
            r.date == date,
            r.chars == chars,
            r.locs == locs,
    {
        Self { id: fresh_id(), note, date, chars, locs }
    }

    /// Puts the record into a calendar. The references are left behind.
    pub fn into_record(self, cal: &Calendar) -> (r: Record<'_>)
        ensures
            r.id == self.id,
            r.note == self.note,
            r.date.raw() == self.date,
            r.date.date.calendar == cal,
            r.date.time.calendar == cal,
            r.date.wf() <==> cal.valid_datetime(self.date),
    {
        Record { id: self.id, note: self.note, date: self.date.into_datetime(cal) }
    }

    /// Gets the spans of the references, those of the characters first.
    fn collect_spans(&self) -> (r: Vec<Span>)
        ensures
            r@ == self.spans(),
    {
        let mut spans: Vec<Span> = Vec::new();
        let mut i: usize = 0;
        while i < self.chars.len()
            invariant
                0 <= i <= self.chars.len(),
                spans@.len() == i,
                forall|j: int| 0 <= j < i ==> spans@[j] == self.spans()[j],
            decreases self.chars.len() - i,
        {
            spans.push(
                Span { start: self.chars[i].start, end: self.chars[i].end, color: CHARACTER_COLOR },
            );
            i = i + 1;
        }
        let mut k: usize = 0;
        while k < self.locs.len()
            invariant
                0 <= k <= self.locs.len(),
                spans@.len() == self.chars@.len() + k,
                forall|j: int| 0 <= j < spans@.len() ==> spans@[j] == self.spans()[j],
            decreases self.locs.len() - k,
        {
            spans.push(
                Span { start: self.locs[k].start, end: self.locs[k].end, color: LOCATION_COLOR },
            );
            k = k + 1;
        }
        assert(spans@ =~= self.spans());
        spans
    }

    /// Gets the places of the spans by rising start.
    fn order_spans(spans: &Vec<Span>) -> (r: Vec<usize>)
        ensures
            r@ == stable_order_of(
                Seq::new(spans@.len(), |i: int| spans@[i].start),
                spans@.len(),
            ),
            forall|i: int| 0 <= i < r@.len() ==> (#[trigger] r@[i]) < spans@.len(),
            r@.len() == spans@.len(),
    {
        let mut starts: Vec<usize> = Vec::new();
        let mut i: usize = 0;
        while i < spans.len()
            invariant
                0 <= i <= spans.len(),
                starts@.len() == i,
                forall|j: int| 0 <= j < i ==> starts@[j] == spans@[j].start,
            decreases spans.len() - i,
        {
            starts.push(spans[i].start);
            i = i + 1;
        }
        assert(starts@ =~= Seq::new(spans@.len(), |i: int| spans@[i].start));
        stable_order(&starts)
    }

    /// Tells whether the references, taken by rising start, lie one after
    /// the other inside the note.
    pub fn has_fitting_references(&self) -> (r: bool)
        ensures
            r == self.references_fit(),
    {
        let spans = self.collect_spans();
        let order = Self::order_spans(&spans);
        let length: usize = self.note.as_str().as_bytes().len();
        let mut from: usize = 0;
        let mut at: usize = 0;
        assert(Seq::new(spans@.len(), |i: int| spans@[i].start) =~= self.span_starts());
        while at < order.len()
            invariant
                0 <= at <= order.len(),
                spans@ == self.spans(),
                order@ == stable_order_of(self.span_starts(), self.spans().len()),
                length == encode_utf8(self.note@).len(),
                order@.len() == spans@.len(),
                forall|i: int| 0 <= i < order@.len() ==> (#[trigger] order@[i]) < spans@.len(),
                spans_fit(spans@, order@, 0, 0, length as int) == spans_fit(
                    spans@,
                    order@,
                    at as int,
                    from as int,
                    length as int,
                ),
            decreases order.len() - at,
        {
            let span = spans[order[at]];
            if !(from <= span.start && span.start <= span.end && span.end <= length) {
                return false;
            }
            from = span.end;
            at = at + 1;
        }
        from <= length
    }

    /// Gets the bytes of the note with its references colored for a
    /// terminal: each reference, taken by rising start, stands between the
    /// bytes that switch its color on and off.
    pub fn pretty(&self) -> (r: Vec<u8>)
        requires
            self.references_fit(),
        ensures
            r@ == self.spec_pretty(),
    {
        let spans = self.collect_spans();
        let order = Self::order_spans(&spans);
        let note = self.note.as_str().as_bytes();
        let mut out: Vec<u8> = Vec::new();
        let mut from: usize = 0;
        let mut at: usize = 0;
        assert(Seq::new(spans@.len(), |i: int| spans@[i].start) =~= self.span_starts());
        assert(out@ + colored(note@, spans@, order@, 0, 0) =~= colored(
            note@,
            spans@,
            order@,
            0,
            0,
        ));
        while at < order.len()
            invariant
                0 <= at <= order.len(),
                order@.len() == spans@.len(),
                forall|i: int| 0 <= i < order@.len() ==> (#[trigger] order@[i]) < spans@.len(),
                spans_fit(spans@, order@, at as int, from as int, note@.len() as int),
                colored(note@, spans@, order@, 0, 0) == out@ + colored(
                    note@,
                    spans@,
                    order@,
                    at as int,
                    from as int,
                ),
            decreases order.len() - at,
        {
            let span = spans[order[at]];
            let ghost before = out@;
            push_bytes(&mut out, note, from, span.start);
            out.push(27);
            out.push(91);
            out.push(48);
            out.push(59);
            out.push(48 + span.color / 10);
            out.push(48 + span.color % 10);
            out.push(109);
            push_bytes(&mut out, note, span.start, span.end);
            out.push(27);
            out.push(91);
            out.push(48);
            out.push(109);
            proof {
                let rest = colored(note@, spans@, order@, at + 1, span.end as int);
                assert(out@ =~= before + note@.subrange(from as int, span.start as int)
                    + color_on(span.color) + note@.subrange(span.start as int, span.end as int)
                    + color_off());
                assert(out@ + rest =~= before + (note@.subrange(from as int, span.start as int)
                    + color_on(span.color) + note@.subrange(span.start as int, span.end as int)
                    + color_off() + rest));
            }
            from = span.end;
            at = at + 1;
        }
        push_bytes(&mut out, note, from, note.len());
        out
    }
}

/// Appends the bytes of `from` from place `start` up to place `end`.
fn push_bytes(out: &mut Vec<u8>, from: &[u8], start: usize, end: usize)
    requires
        start <= end <= from@.len(),
    ensures
        final(out)@ == old(out)@ + from@.subrange(start as int, end as int),
{
    let mut i: usize = start;
    while i < end
        invariant
            start <= i <= end <= from@.len(),
            out@ == old(out)@ + from@.subrange(start as int, i as int),
        decreases end - i,
    {
        out.push(from[i]);
        i = i + 1;
        assert(out@ =~= old(out)@ + from@.subrange(start as int, i as int));
    }
    assert(out@ =~= old(out)@ + from@.subrange(start as int, end as int));
}

/// A note taken at a moment of a calendar.
#[derive(Debug)]
pub struct Record<'a> {
    /// The id of the record.
    pub id: u128,
    /// What was noted.
    pub note: String,
    /// When it was noted.
    pub date: DateTime<'a>,
}

impl<'a> Record<'a> {
    /// Creates a new record with a new, random id.
    pub fn new(date: DateTime<'a>, note: String) -> (r: Self)
        ensures
            r.note == note,
            r.date == date,
    {
        Self { id: fresh_id(), note, date }
    }

    /// Takes the record out of its calendar. It has no references.
    pub fn to_raw(&self) -> (r: RawRecord)
        ensures
            r.id == self.id,
            r.note == self.note,
            r.date == self.date.raw(),
            r.chars@.len() == 0,
            r.locs@.len() == 0,
    {
        RawRecord {
            id: self.id,
            note: self.note.clone(),
            date: self.date.to_raw(),
            chars: Vec::new(),
            locs: Vec::new(),
        }
    }
}

} // verus!

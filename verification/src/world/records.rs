//! The records of a world: taking them, finding them, and laying them out
//! in time.

use super::{World, WorldError};
use super::stores::{
    lemma_location_after_push, lemma_place_of_location_called, place_of_character_called,
    place_of_location_called, LocationStore, NEW_LOCATION_PLANET,
};
use crate::calendar::ParseDateTimeError;
use crate::character::{Character, CharacterReference, Location, LocationReference};
use crate::datetime::{InvalidDateError, RawDateTime};
use crate::expression::Unit;
use crate::order::{Keyed, is_arrangement, lemma_moment_key_is_exact, stable_order, stable_order_of};
use crate::outside::{Mention, MentionView, captured_names, find_names, lies_in, mention_view};
use crate::record::RawRecord;
use crate::solar::PlanetId;
use vstd::prelude::*;

verus! {

/// An entry of the timeline of a world.
#[derive(Clone, Copy, Debug, Eq, PartialEq, Structural)]
pub enum TimelineEntry {
    /// The present time.
    Now,
    /// The time that was left by a jump.
    CanonicalTime,
    /// The record at this place of the records of the world.
    Record(usize),
}

/// Of the places of `dates` that `order` lists from its place `at` on,
/// those whose date lies at or after `d1` and before `d2`, in the order of
/// `order`.
pub open spec fn records_within(
    dates: Seq<RawDateTime>,
    order: Seq<usize>,
    d1: RawDateTime,
    d2: RawDateTime,
    at: int,
) -> Seq<usize>
    decreases order.len() - at,
{
    if at < 0 || at >= order.len() {
        Seq::empty()
    } else if d1.key() <= dates[order[at] as int].key() < d2.key() {
        seq![order[at]] + records_within(dates, order, d1, d2, at + 1)
    } else {
        records_within(dates, order, d1, d2, at + 1)
    }
}

/// The pattern that finds the characters that a note mentions: a word
/// after an `@` that stands at no word boundary.
pub const CHARACTER_PATTERN: &'static str = "\\B@(?P<name>\\w+)\\b";

/// The pattern that finds the locations that a note mentions: a word after
/// a `#` that stands at no word boundary.
pub const LOCATION_PATTERN: &'static str = "\\B#(?P<name>\\w+)\\b";

/// The mentions that were found, without the matches that hold none, from
/// place `from` on.
pub open spec fn present(found: Seq<Option<MentionView>>, from: int) -> Seq<MentionView>
    decreases found.len() - from,
{
    if from < 0 || from >= found.len() {
        Seq::empty()
    } else {
        match found[from] {
            Some(mention) => seq![mention] + present(found, from + 1),
            None => present(found, from + 1),
        }
    }
}

/// The characters that a note mentions.
pub open spec fn characters_mentioned(note: Seq<char>) -> Seq<MentionView> {
    present(captured_names(CHARACTER_PATTERN@, note), 0)
}

/// The locations that a note mentions.
pub open spec fn locations_mentioned(note: Seq<char>) -> Seq<MentionView> {
    present(captured_names(LOCATION_PATTERN@, note), 0)
}

/// What a list of mentions holds, as plain values.
pub open spec fn mentions_view(mentions: Seq<Mention>) -> Seq<MentionView> {
    mentions.map_values(|mention: Mention| mention@)
}

/// Finds what a pattern captures under the name `name` in a text, and drops
/// the matches that capture nothing under it.
pub fn names_in(pattern: &str, text: &str) -> (r: Vec<Mention>)
    ensures
        mentions_view(r@) == present(captured_names(pattern@, text@), 0),
        forall|i: int| 0 <= i < r@.len() ==> lies_in((#[trigger] r@[i])@, text@),
{
    let found = find_names(pattern, text);
    let ghost views = found@.map_values(|found: Option<Mention>| mention_view(found));
    let mut names: Vec<Mention> = Vec::new();
    let mut i: usize = found.len();
    assert(names@.map_values(|mention: Mention| mention@) =~= present(views, i as int));
    while i > 0
        invariant
            0 <= i <= found.len(),
            views == found@.map_values(
                |found: Option<Mention>| mention_view(found),
            ),
            names@.map_values(|mention: Mention| mention@) == present(views, i as int),
            forall|k: int| 0 <= k < names@.len() ==> lies_in((#[trigger] names@[k])@, text@),
            forall|k: int|
                0 <= k < found@.len() ==> ((#[trigger] found@[k]) matches Some(mention) ==> lies_in(
                    mention@,
                    text@,
                )),
        decreases i,
    {
        i = i - 1;
        match &found[i] {
            Some(mention) => {
                let ghost before = names@;
                names.insert(
                    0,
                    Mention { name: mention.name.clone(), start: mention.start, end: mention.end },
                );
                assert(names@.map_values(|mention: Mention| mention@) =~= seq![
                    found@[i as int].unwrap()@,
                ] + before.map_values(|mention: Mention| mention@));
                assert forall|k: int| 0 <= k < names@.len() implies lies_in(
                    (#[trigger] names@[k])@,
                    text@,
                ) by {
                    if k > 0 {
                        assert(names@[k] == before[k - 1]);
                    } else {
                        assert(names@[0]@ == found@[i as int].unwrap()@);
                    }
                }
            },
            None => {},
        }
    }
    names
}

/// The place of the first of `mentions`, from place `from` on, that mentions
/// `word`.
pub open spec fn first_mention(mentions: Seq<MentionView>, word: Seq<char>, from: int) -> Option<int>
    decreases mentions.len() - from,
{
    if from < 0 || from >= mentions.len() {
        None
    } else if mentions[from].name == word {
        Some(from)
    } else {
        first_mention(mentions, word, from + 1)
    }
}

/// A mention of a word that no mention before it mentions is the first
/// mention of the word.
pub proof fn lemma_first_mention(mentions: Seq<MentionView>, word: Seq<char>, from: int, place: int)
    requires
        0 <= from <= place < mentions.len(),
        mentions[place].name == word,
        forall|m: int| from <= m < place ==> (#[trigger] mentions[m]).name != word,
    ensures
        first_mention(mentions, word, from) == Some(place),
    decreases place - from,
{
    if from < place {
        lemma_first_mention(mentions, word, from + 1, place);
    }
}

/// `reference` refers to what `mention` mentions: it holds its word and the
/// bytes that the word spans, and the id of the first of `characters` that
/// is called by the word.
pub open spec fn refers_to_character(
    characters: Seq<Character>,
    reference: CharacterReference,
    mention: MentionView,
) -> bool {
    &&& reference.string@ == mention.name
    &&& reference.start == mention.start
    &&& reference.end == mention.end
    &&& place_of_character_called(characters, mention.name, 0) matches Some(place)
        && reference.id == characters[place].id
}

/// `reference` refers to what `mention` mentions: it holds its word and the
/// bytes that the word spans, and the id of the first of `locations` that
/// is called by the word.
pub open spec fn refers_to_location(
    locations: Seq<Location>,
    reference: LocationReference,
    mention: MentionView,
) -> bool {
    &&& reference.string@ == mention.name
    &&& reference.start == mention.start
    &&& reference.end == mention.end
    &&& place_of_location_called(locations, mention.name, 0) matches Some(place) && reference.id
        == locations[place].id
}

/// The words of `references` and the bytes that they span.
pub open spec fn character_spans(references: Seq<CharacterReference>) -> Seq<MentionView> {
    Seq::new(
        references.len(),
        |k: int|
            MentionView {
                name: references[k].string@,
                start: references[k].start as nat,
                end: references[k].end as nat,
            },
    )
}

/// The words of `references` and the bytes that they span.
pub open spec fn location_spans(references: Seq<LocationReference>) -> Seq<MentionView> {
    Seq::new(
        references.len(),
        |k: int|
            MentionView {
                name: references[k].string@,
                start: references[k].start as nat,
                end: references[k].end as nat,
            },
    )
}

/// Each of `mentions` lies in `text`.
pub open spec fn all_lie_in(mentions: Seq<MentionView>, text: Seq<char>) -> bool {
    forall|k: int| 0 <= k < mentions.len() ==> lies_in(#[trigger] mentions[k], text)
}

impl World {
    /// The dates of the records, in the order of the records.
    pub open spec fn record_dates(&self) -> Seq<RawDateTime> {
        Seq::new(self.records@.len(), |i: int| self.records@[i].date)
    }

    /// Gets the records taken from `d1` on and before `d2`, from the
    /// earliest to the latest, records of one time in the order in which
    /// they were taken.
    pub fn records_between(&self, d1: RawDateTime, d2: RawDateTime) -> (r: Vec<RawRecord>)
        ensures
            r@.len() == records_within(
                self.record_dates(),
                stable_order_of(self.record_dates(), self.records@.len()),
                d1,
                d2,
                0,
            ).len(),
            forall|k: int|
                0 <= k < r@.len() ==> (#[trigger] r@[k])@ == self.records@[records_within(
                    self.record_dates(),
                    stable_order_of(self.record_dates(), self.records@.len()),
                    d1,
                    d2,
                    0,
                )[k] as int]@,
    {
        let mut dates: Vec<RawDateTime> = Vec::new();
        let mut i: usize = 0;
        while i < self.records.len()
            invariant
                0 <= i <= self.records.len(),
                dates@.len() == i,
                forall|j: int| 0 <= j < i ==> dates@[j] == self.records@[j].date,
            decreases self.records.len() - i,
        {
            dates.push(self.records[i].date);
            i = i + 1;
        }
        assert(dates@ =~= self.record_dates());
        let order = stable_order(&dates);
        let ghost all = records_within(dates@, order@, d1, d2, 0);
        let mut found: Vec<RawRecord> = Vec::new();
        let ghost mut picked: Seq<usize> = Seq::empty();
        let mut at: usize = 0;
        assert(picked + records_within(dates@, order@, d1, d2, 0) =~= all);
        while at < order.len()
            invariant
                0 <= at <= order.len(),
                dates@ == self.record_dates(),
                order@ == stable_order_of(self.record_dates(), self.records@.len()),
                is_arrangement(order@, dates@.len()),
                all == picked + records_within(dates@, order@, d1, d2, at as int),
                found@.len() == picked.len(),
                forall|k: int|
                    0 <= k < found@.len() ==> (#[trigger] found@[k])@
                        == self.records@[picked[k] as int]@,
            decreases order.len() - at,
        {
            let place: usize = order[at];
            let date = &dates[place];
            proof {
                let rest = records_within(dates@, order@, d1, d2, at + 1);
                if d1.key() <= date.key() < d2.key() {
                    assert(picked.push(place) + rest =~= picked + (seq![place] + rest));
                }
            }
            if !date.before(&d1) && date.before(&d2) {
                found.push(self.records[place].clone());
                proof {
                    picked = picked.push(place);
                }
            }
            at = at + 1;
        }
        assert(picked + Seq::<usize>::empty() =~= picked);
        found
    }

    /// Gets the timeline of the world: the present time, the canonical time
    /// where there is one and it is not the present time, and every record,
    /// from the earliest to the latest. Of entries of one time, the present
    /// comes first, then the canonical time, then the records in the order
    /// in which they were taken.
    pub fn timeline(&self) -> (r: Vec<TimelineEntry>)
        ensures
            r@.len() == self.timeline_dates().len(),
            forall|k: int|
                0 <= k < r@.len() ==> (#[trigger] r@[k]) == self.timeline_entry(
                    stable_order_of(self.timeline_dates(), self.timeline_dates().len())[k] as int,
                ),
    {
        let marks: usize = match self.canonical_time {
            Some(time) => if time.before(&self.time) || self.time.before(&time) {
                2
            } else {
                1
            },
            None => 1,
        };
        proof {
            if self.canonical_time is Some {
                lemma_moment_key_is_exact(self.canonical_time.unwrap(), self.time);
            }
        }
        let mut dates: Vec<RawDateTime> = Vec::new();
        dates.push(self.time);
        if marks == 2 {
            match self.canonical_time {
                Some(time) => dates.push(time),
                None => {},
            }
        }
        let mut i: usize = 0;
        while i < self.records.len()
            invariant
                0 <= i <= self.records.len(),
                marks == self.timeline_marks(),
                dates@.len() == marks + i,
                forall|j: int| 0 <= j < dates@.len() ==> dates@[j] == self.timeline_dates()[j],
            decreases self.records.len() - i,
        {
            dates.push(self.records[i].date);
            i = i + 1;
        }
        assert(dates@ =~= self.timeline_dates());
        let order = stable_order(&dates);
        let mut entries: Vec<TimelineEntry> = Vec::new();
        let mut at: usize = 0;
        while at < order.len()
            invariant
                0 <= at <= order.len(),
                marks == self.timeline_marks(),
                1 <= marks <= 2,
                order@ == stable_order_of(self.timeline_dates(), self.timeline_dates().len()),
                is_arrangement(order@, self.timeline_dates().len()),
                entries@.len() == at,
                forall|k: int|
                    0 <= k < at ==> (#[trigger] entries@[k]) == self.timeline_entry(
                        order@[k] as int,
                    ),
            decreases order.len() - at,
        {
            let place: usize = order[at];
            let entry = if place == 0 {
                TimelineEntry::Now
            } else if place < marks {
                TimelineEntry::CanonicalTime
            } else {
                TimelineEntry::Record(place - marks)
            };
            entries.push(entry);
            at = at + 1;
        }
        entries
    }

    /// The number of marks that the timeline holds beside the records: the
    /// present time, and the canonical time where there is one that is not
    /// the present time.
    pub open spec fn timeline_marks(&self) -> nat {
        match self.canonical_time {
            Some(time) if time != self.time => 2,
            _ => 1,
        }
    }

    /// The times of the entries of the timeline before they are ordered:
    /// the present time, the canonical time where it is a mark, and the
    /// dates of the records.
    pub open spec fn timeline_dates(&self) -> Seq<RawDateTime> {
        Seq::new(
            self.timeline_marks() + self.records@.len(),
            |i: int|
                if i == 0 {
                    self.time
                } else if i < self.timeline_marks() {
                    self.canonical_time.unwrap()
                } else {
                    self.records@[i - self.timeline_marks()].date
                },
        )
    }

    /// The entry of the timeline that stands at place `place` before the
    /// entries are ordered.
    pub open spec fn timeline_entry(&self, place: int) -> TimelineEntry {
        if place == 0 {
            TimelineEntry::Now
        } else if place < self.timeline_marks() {
            TimelineEntry::CanonicalTime
        } else {
            TimelineEntry::Record((place - self.timeline_marks()) as usize)
        }
    }

    /// Every character that `mentions` mention is known to the world.
    pub open spec fn knows_all(&self, mentions: Seq<MentionView>) -> bool {
        forall|k: int|
            0 <= k < mentions.len() ==> place_of_character_called(
                self.characters@,
                (#[trigger] mentions[k]).name,
                0,
            ) is Some
    }

    /// `references` refer to the characters that `mentions` mention, each to
    /// the first character of the world that is called by the word.
    pub open spec fn refer_to_characters(
        &self,
        references: Seq<CharacterReference>,
        mentions: Seq<MentionView>,
    ) -> bool {
        &&& references.len() == mentions.len()
        &&& forall|k: int|
            0 <= k < references.len() ==> #[trigger] refers_to_character(
                self.characters@,
                references[k],
                mentions[k],
            )
    }

    /// `references` refer to the locations that `mentions` mention, each to
    /// the first location of the world that is called by the word.
    pub open spec fn refer_to_locations(
        &self,
        references: Seq<LocationReference>,
        mentions: Seq<MentionView>,
    ) -> bool {
        &&& references.len() == mentions.len()
        &&& forall|k: int|
            0 <= k < references.len() ==> #[trigger] refers_to_location(
                self.locations@,
                references[k],
                mentions[k],
            )
    }

    /// The locations of this world are those of `before`, followed by new
    /// ones: one for each word among the first `count` of `mentions` that no
    /// location of `before` was called by, each the only location of its
    /// word, on the body that new locations lie on, in the order in which
    /// the words are first mentioned.
    pub open spec fn located(
        &self,
        before: Seq<Location>,
        mentions: Seq<MentionView>,
        count: int,
    ) -> bool {
        &&& before.len() <= self.locations@.len()
        &&& self.locations@.subrange(0, before.len() as int) == before
        &&& forall|j: int|
            before.len() <= j < self.locations@.len() ==> {
                &&& (#[trigger] self.locations@[j]).planet == PlanetId(NEW_LOCATION_PLANET)
                &&& place_of_location_called(self.locations@, self.locations@[j].identifier@, 0)
                    == Some(j)
                &&& exists|k: int|
                    0 <= k < count && (#[trigger] mentions[k]).name
                        == self.locations@[j].identifier@
                &&& first_mention(mentions, self.locations@[j].identifier@, 0) matches Some(first)
                    && first < count
            }
        &&& forall|i: int, j: int|
            before.len() <= i < j < self.locations@.len() ==> first_mention(
                mentions,
                (#[trigger] self.locations@[i]).identifier@,
                0,
            ).unwrap() < first_mention(
                mentions,
                (#[trigger] self.locations@[j]).identifier@,
                0,
            ).unwrap()
        &&& forall|k: int|
            0 <= k < count ==> place_of_location_called(
                self.locations@,
                (#[trigger] mentions[k]).name,
                0,
            ) is Some
    }

    /// Adds a record of a note to the world, taken at the present time, and
    /// moves the present time on by one second. `characters` and `locations`
    /// are the names that the note is taken to mention, in the order of the
    /// note.
    ///
    /// A character that is named must be known: where one is not, the
    /// record is not added and nothing changes. The same holds where the
    /// present time cannot move on because the year would not fit in 64
    /// bits. A location that is named and that is not known is created.
    pub fn add_record_mentioning(
        &mut self,
        note: String,
        characters: Vec<Mention>,
        locations: Vec<Mention>,
    ) -> (r: Result<&RawRecord, WorldError>)
        requires
            old(self).wf(),
        ensures
            final(self).name == old(self).name,
            final(self).calendar == old(self).calendar,
            final(self).canonical_time == old(self).canonical_time,
            final(self).home_planet == old(self).home_planet,
            final(self).bodies == old(self).bodies,
            final(self).characters == old(self).characters,
            match r {
                Ok(record) => {
                    &&& old(self).knows_all(mentions_view(characters@))
                    &&& old(self).now().can_advance(1, Unit::Second)
                    &&& final(self).time == old(self).now().after(1, Unit::Second).raw()
                    &&& final(self).wf()
                    &&& final(self).records@ == old(self).records@.push(*record)
                    &&& record.note == note
                    &&& record.date == old(self).time
                    &&& final(self).refer_to_characters(
                        record.chars@,
                        mentions_view(characters@),
                    )
                    &&& final(self).refer_to_locations(record.locs@, mentions_view(locations@))
                    &&& final(self).located(
                        old(self).locations@,
                        mentions_view(locations@),
                        mentions_view(locations@).len() as int,
                    )
                    &&& character_spans(record.chars@) == mentions_view(characters@)
                    &&& location_spans(record.locs@) == mentions_view(locations@)
                },
                Err(e) => {
                    &&& final(self).time == old(self).time
                    &&& final(self).records == old(self).records
                    &&& final(self).locations == old(self).locations
                    &&& if old(self).knows_all(mentions_view(characters@)) {
                        &&& !old(self).now().can_advance(1, Unit::Second)
                        &&& e == WorldError::Time(
                            ParseDateTimeError::InvalidDate(InvalidDateError::YearOutOfBounds),
                        )
                    } else {
                        e == WorldError::UnknownCharacter
                    }
                },
            },
    {
        let ghost character_views = mentions_view(characters@);
        let mut chars: Vec<CharacterReference> = Vec::new();
        let mut i: usize = 0;
        while i < characters.len()
            invariant
                0 <= i <= characters.len(),
                *self == *old(self),
                character_views == mentions_view(characters@),
                chars@.len() == i,
                self.refer_to_characters(chars@, character_views.take(i as int)),
            decreases characters.len() - i,
        {
            assert(character_views[i as int] == characters@[i as int]@);
            let place = match self.find_character_called(&characters[i].name) {
                Some(place) => place,
                None => {
                    return Err(WorldError::UnknownCharacter);
                },
            };
            chars.push(
                CharacterReference {
                    id: self.characters[place].id,
                    string: characters[i].name.clone(),
                    start: characters[i].start,
                    end: characters[i].end,
                },
            );
            proof {
                let views = character_views.take(i + 1);
                assert forall|m: int| 0 <= m < chars@.len() implies #[trigger] refers_to_character(
                    self.characters@,
                    chars@[m],
                    views[m],
                ) by {
                    if m < i {
                        assert(views[m] == character_views.take(i as int)[m]);
                        assert(refers_to_character(
                            self.characters@,
                            chars@[m],
                            character_views.take(i as int)[m],
                        ));
                    } else {
                        assert(views[m] == characters@[i as int]@);
                    }
                }
                assert(character_views.len() == characters@.len());
            }
            i = i + 1;
        }
        assert(character_views.take(i as int) =~= character_views);
        assert(self.knows_all(character_views)) by {
            assert forall|k: int| 0 <= k < character_views.len() implies place_of_character_called(
                self.characters@,
                (#[trigger] character_views[k]).name,
                0,
            ) is Some by {
                assert(refers_to_character(self.characters@, chars@[k], character_views[k]));
            }
        }
        let next = match self.time.into_datetime(&self.calendar).advance(1, Unit::Second) {
            Some(moment) => moment.to_raw(),
            None => {
                return Err(
                    WorldError::Time(
                        ParseDateTimeError::InvalidDate(InvalidDateError::YearOutOfBounds),
                    ),
                );
            },
        };
        let ghost location_views = mentions_view(locations@);
        let ghost before = self.locations@;
        let mut locs: Vec<LocationReference> = Vec::new();
        let mut k: usize = 0;
        assert(self.locations@.subrange(0, before.len() as int) =~= before);
        while k < locations.len()
            invariant
                0 <= k <= locations.len(),
                self.same_but_locations(old(self)),
                before == old(self).locations@,
                location_views == mentions_view(locations@),
                locs@.len() == k,
                self.refer_to_locations(locs@, location_views.take(k as int)),
                self.located(before, location_views, k as int),
            decreases locations.len() - k,
        {
            assert(location_views[k as int] == locations@[k as int]@);
            let ghost word = locations@[k as int].name@;
            let ghost earlier = self.locations@;
            let id = match self.find_location_called(&locations[k].name) {
                Some(place) => self.locations[place].id,
                None => {
                    let made = self.create_location(locations[k].name.as_str());
                    proof {
                        let later = self.locations@;
                        assert(later.subrange(0, before.len() as int) =~= earlier.subrange(
                            0,
                            before.len() as int,
                        ));
                        assert forall|w: Seq<char>|
                            place_of_location_called(later, w, 0) == match #[trigger] place_of_location_called(
                                earlier,
                                w,
                                0,
                            ) {
                                Some(place) => Some(place),
                                None => if made.identifier@ == w {
                                    Some(earlier.len() as int)
                                } else {
                                    None
                                },
                            } by {
                            lemma_location_after_push(earlier, made, w, 0);
                        }
                        assert forall|m: int| 0 <= m < k implies (#[trigger] location_views[m]).name
                            != word by {
                            assert(place_of_location_called(earlier, location_views[m].name, 0)
                                is Some);
                        }
                        lemma_first_mention(location_views, word, 0, k as int);
                        assert forall|j: int| before.len() <= j < later.len() implies {
                            &&& (#[trigger] later[j]).planet == PlanetId(NEW_LOCATION_PLANET)
                            &&& place_of_location_called(later, later[j].identifier@, 0) == Some(
                                j,
                            )
                            &&& exists|m: int|
                                0 <= m < k + 1 && (#[trigger] location_views[m]).name
                                    == later[j].identifier@
                            &&& first_mention(location_views, later[j].identifier@, 0) matches Some(
                                first,
                            ) && first < k + 1
                        } by {
                            if j < earlier.len() {
                                assert(later[j] == earlier[j]);
                                let m = choose|m: int|
                                    0 <= m < k && (#[trigger] location_views[m]).name
                                        == earlier[j].identifier@;
                                assert(location_views[m].name == later[j].identifier@);
                            } else {
                                assert(later[j] == made);
                                assert(location_views[k as int].name == later[j].identifier@);
                            }
                        }
                        assert forall|i: int, j: int|
                            before.len() <= i < j < later.len() implies first_mention(
                            location_views,
                            (#[trigger] later[i]).identifier@,
                            0,
                        ).unwrap() < first_mention(
                            location_views,
                            (#[trigger] later[j]).identifier@,
                            0,
                        ).unwrap() by {
                            assert(later[i] == earlier[i]);
                            if j < earlier.len() {
                                assert(later[j] == earlier[j]);
                            } else {
                                assert(later[j] == made);
                            }
                        }
                        assert forall|m: int| 0 <= m < k implies #[trigger] refers_to_location(
                            later,
                            locs@[m],
                            location_views.take(k as int)[m],
                        ) by {
                            assert(refers_to_location(
                                earlier,
                                locs@[m],
                                location_views.take(k as int)[m],
                            ));
                            let place = place_of_location_called(
                                earlier,
                                location_views.take(k as int)[m].name,
                                0,
                            ).unwrap();
                            lemma_place_of_location_called(
                                earlier,
                                location_views.take(k as int)[m].name,
                                0,
                            );
                            assert(later[place] == earlier[place]);
                        }
                    }
                    made.id
                },
            };
            proof {
                lemma_place_of_location_called(self.locations@, word, 0);
            }
            locs.push(
                LocationReference {
                    id,
                    string: locations[k].name.clone(),
                    start: locations[k].start,
                    end: locations[k].end,
                },
            );
            proof {
                let views = location_views.take(k + 1);
                assert forall|m: int| 0 <= m < locs@.len() implies #[trigger] refers_to_location(
                    self.locations@,
                    locs@[m],
                    views[m],
                ) by {
                    if m < k {
                        assert(views[m] == location_views.take(k as int)[m]);
                        assert(refers_to_location(
                            self.locations@,
                            locs@[m],
                            location_views.take(k as int)[m],
                        ));
                    } else {
                        assert(views[m] == locations@[k as int]@);
                    }
                }
                assert forall|j: int| before.len() <= j < self.locations@.len() implies (exists|
                    m: int,
                |
                    0 <= m < k + 1 && (#[trigger] location_views[m]).name == (
                    #[trigger] self.locations@[j]).identifier@) by {
                    if self.locations@.len() == earlier.len() {
                        let m = choose|m: int|
                            0 <= m < k && (#[trigger] location_views[m]).name
                                == earlier[j].identifier@;
                        assert(location_views[m].name == self.locations@[j].identifier@);
                    }
                }
            }
            k = k + 1;
        }
        assert(location_views.take(k as int) =~= location_views);
        proof {
            assert forall|m: int| 0 <= m < chars@.len() implies character_spans(chars@)[m]
                == character_views[m] by {
                assert(refers_to_character(self.characters@, chars@[m], character_views[m]));
            }
            assert forall|m: int| 0 <= m < locs@.len() implies location_spans(locs@)[m]
                == location_views[m] by {
                assert(refers_to_location(self.locations@, locs@[m], location_views[m]));
            }
            assert(character_spans(chars@) =~= character_views);
            assert(location_spans(locs@) =~= location_views);
        }
        let record = RawRecord::new(self.time, note, chars, locs);
        let last: usize = self.records.len();
        self.records.push(record);
        self.time = next;
        proof {
            self.calendar.lemma_instant_of_datetime_of(old(self).now().instant() + 1);
        }
        Ok(&self.records[last])
    }

    /// Adds a record to the world, taken at the present time, and moves the
    /// present time on by one second. The note accepts any observation, with
    /// some special syntax: `@character` refers to a character and
    /// `#location` to a location.
    ///
    /// A character that the note mentions must be known: where one is not,
    /// the record is not added and nothing changes. The same holds where the
    /// present time cannot move on because the year would not fit in 64
    /// bits. A location that the note mentions and that is not known is
    /// created.
    pub fn add_record(&mut self, note: String) -> (r: Result<&RawRecord, WorldError>)
        requires
            old(self).wf(),
        ensures
            final(self).name == old(self).name,
            final(self).calendar == old(self).calendar,
            final(self).canonical_time == old(self).canonical_time,
            final(self).home_planet == old(self).home_planet,
            final(self).bodies == old(self).bodies,
            final(self).characters == old(self).characters,
            match r {
                Ok(record) => {
                    &&& old(self).knows_all(characters_mentioned(note@))
                    &&& old(self).now().can_advance(1, Unit::Second)
                    &&& final(self).time == old(self).now().after(1, Unit::Second).raw()
                    &&& final(self).wf()
                    &&& final(self).records@ == old(self).records@.push(*record)
                    &&& record.note == note
                    &&& record.date == old(self).time
                    &&& final(self).refer_to_characters(
                        record.chars@,
                        characters_mentioned(note@),
                    )
                    &&& final(self).refer_to_locations(record.locs@, locations_mentioned(note@))
                    &&& final(self).located(
                        old(self).locations@,
                        locations_mentioned(note@),
                        locations_mentioned(note@).len() as int,
                    )
                    &&& all_lie_in(character_spans(record.chars@), note@)
                    &&& all_lie_in(location_spans(record.locs@), note@)
                },
                Err(e) => {
                    &&& final(self).time == old(self).time
                    &&& final(self).records == old(self).records
                    &&& final(self).locations == old(self).locations
                    &&& if old(self).knows_all(characters_mentioned(note@)) {
                        &&& !old(self).now().can_advance(1, Unit::Second)
                        &&& e == WorldError::Time(
                            ParseDateTimeError::InvalidDate(InvalidDateError::YearOutOfBounds),
                        )
                    } else {
                        e == WorldError::UnknownCharacter
                    }
                },
            },
    {
        let characters = names_in(CHARACTER_PATTERN, note.as_str());
        let locations = names_in(LOCATION_PATTERN, note.as_str());
        proof {
            assert forall|k: int| 0 <= k < characters@.len() implies lies_in(
                #[trigger] mentions_view(characters@)[k],
                note@,
            ) by {
                assert(lies_in(characters@[k]@, note@));
            }
            assert forall|k: int| 0 <= k < locations@.len() implies lies_in(
                #[trigger] mentions_view(locations@)[k],
                note@,
            ) by {
                assert(lies_in(locations@[k]@, note@));
            }
        }
        self.add_record_mentioning(note, characters, locations)
    }
}

} // verus!

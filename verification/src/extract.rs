//! From the status that a device reports to the readings of its channels.

use crate::channel::channel_id;
use crate::channel::has_marker;
use crate::channel::is_channel_key;
use crate::channel::parse_channel_id;
use crate::json::decode;
use crate::json::decoded;
use crate::json::describe;
use crate::json::field;
use crate::json::get_field;
use crate::json::into_members;
use crate::json::model;
use crate::json::number_text;
use crate::json::Json;
use crate::readings::PowerReadings;
use vstd::prelude::*;
use vstd::string::StrSliceExecFns;

verus! {

/// Why a probe gave no readings.
#[derive(Debug, PartialEq, Eq)]
pub enum ShellyError {
    /// The device did not answer; `detail` says what the transport reported.
    Transport { detail: String },
    /// The answer is no JSON text; `detail` is the decoder's message.
    Decode { detail: String },
    /// The answer is JSON, but no object.
    Shape,
    /// No channel number follows the marker of `key`.
    ChannelIdParse { key: String },
    /// The entry under `key` has no numeric `apower`.
    MissingReading { key: String },
}

/// A `ShellyError` with its texts as sequences of characters.
pub enum Fault {
    Transport(Seq<char>),
    Decode(Seq<char>),
    Shape,
    ChannelIdParse(Seq<char>),
    MissingReading(Seq<char>),
}

impl View for ShellyError {
    type V = Fault;

    open spec fn view(&self) -> Fault {
        match self {
            ShellyError::Transport { detail } => Fault::Transport(detail@),
            ShellyError::Decode { detail } => Fault::Decode(detail@),
            ShellyError::Shape => Fault::Shape,
            ShellyError::ChannelIdParse { key } => Fault::ChannelIdParse(key@),
            ShellyError::MissingReading { key } => Fault::MissingReading(key@),
        }
    }
}

/// What the library reads of one member of a status object: its key, and the
/// text of the number under `apower` where there is one.
#[derive(Debug, PartialEq, Eq)]
pub struct StatusEntry {
    pub key: String,
    pub apower: Option<String>,
}

/// A `StatusEntry` with its texts as sequences of characters.
pub struct Entry {
    pub key: Seq<char>,
    pub apower: Option<Seq<char>>,
}

impl View for StatusEntry {
    type V = Entry;

    open spec fn view(&self) -> Entry {
        Entry { key: self.key@, apower: text_view(self.apower) }
    }
}

/// The entries of a vector, each by its view.
pub open spec fn entry_views(entries: Seq<StatusEntry>) -> Seq<Entry> {
    Seq::new(entries.len(), |i: int| entries[i]@)
}

/// What is wrong with an entry, if anything. A key without the marker is
/// never at fault. A key with it needs a channel number, and then a reading;
/// the number is looked at first.
pub open spec fn entry_fault(e: Entry) -> Option<Fault> {
    if !is_channel_key(e.key) {
        None
    } else if channel_id(e.key.skip(7)) is None {
        Some(Fault::ChannelIdParse(e.key))
    } else if e.apower is None {
        Some(Fault::MissingReading(e.key))
    } else {
        None
    }
}

/// Whether an entry gives a reading: a channel key with a number and a
/// reading.
pub open spec fn gives_reading(e: Entry) -> bool {
    is_channel_key(e.key) && channel_id(e.key.skip(7)) is Some && e.apower is Some
}

/// No entry is at fault.
pub open spec fn fault_free(entries: Seq<Entry>) -> bool {
    forall|i: int| 0 <= i < entries.len() ==> entry_fault(#[trigger] entries[i]) is None
}

/// Whether `i` is the place of the first entry at fault.
pub open spec fn is_first_fault(entries: Seq<Entry>, i: int) -> bool {
    &&& 0 <= i < entries.len()
    &&& entry_fault(entries[i]) is Some
    &&& forall|j: int| 0 <= j < i ==> entry_fault(#[trigger] entries[j]) is None
}

/// The readings that the entries give, taken in order: where two entries
/// name one channel, the later one stays.
pub open spec fn collected(entries: Seq<Entry>) -> Map<u32, Seq<char>>
    decreases entries.len(),
{
    if entries.len() == 0 {
        Map::empty()
    } else {
        let before = collected(entries.drop_last());
        let e = entries.last();
        if gives_reading(e) {
            before.insert(channel_id(e.key.skip(7))->Some_0, e.apower->Some_0)
        } else {
            before
        }
    }
}

/// What a list of entries comes to: the collected readings where no entry is
/// at fault, else the fault of the first entry that has one.
pub open spec fn extraction(entries: Seq<Entry>) -> Result<Map<u32, Seq<char>>, Fault> {
    if fault_free(entries) {
        Ok(collected(entries))
    } else {
        let first = choose|i: int| is_first_fault(entries, i);
        Err(entry_fault(entries[first])->Some_0)
    }
}

/// Whether a result holds what `want` says: the same readings, or the same
/// fault.
pub open spec fn outcome_is(
    r: Result<PowerReadings, ShellyError>,
    want: Result<Map<u32, Seq<char>>, Fault>,
) -> bool {
    match (r, want) {
        (Ok(readings), Ok(m)) => readings@ == m,
        (Err(e), Err(f)) => e@ == f,
        _ => false,
    }
}

/// Only one place can be that of the first fault.
pub proof fn lemma_first_fault_unique(entries: Seq<Entry>, i: int)
    requires
        is_first_fault(entries, i),
    ensures
        !fault_free(entries),
        extraction(entries) == Err::<Map<u32, Seq<char>>, Fault>(entry_fault(entries[i])->Some_0),
{
    let first = choose|k: int| is_first_fault(entries, k);
    assert(is_first_fault(entries, first));
    if first < i {
        assert(entry_fault(entries[first]) is None);
    }
    if i < first {
        assert(entry_fault(entries[i]) is None);
    }
}

/// Collects the readings of the channel entries. Entries whose key has no
/// marker are passed over; one channel entry at fault fails the whole list.
pub fn collect_readings(entries: &Vec<StatusEntry>) -> (r: Result<PowerReadings, ShellyError>)
    ensures
        outcome_is(r, extraction(entry_views(entries@))),
{
    let ghost views = entry_views(entries@);
    let mut readings = PowerReadings::new();
    let mut i: usize = 0;
    while i < entries.len()
        invariant
            i <= entries.len(),
            views == entry_views(entries@),
            forall|j: int| 0 <= j < i ==> entry_fault(#[trigger] views[j]) is None,
            readings@ == collected(views.take(i as int)),
        decreases entries.len() - i,
    {
        let entry = &entries[i];
        assert(views[i as int] == entry@);
        proof {
            assert(views.take(i + 1).drop_last() == views.take(i as int));
            assert(views.take(i + 1).last() == views[i as int]);
        }
        if has_marker(entry.key.as_str()) {
            let n = entry.key.as_str().unicode_len();
            let numeral = entry.key.as_str().substring_char(7, n);
            assert(numeral@ == entry.key@.skip(7));
            match parse_channel_id(numeral) {
                None => {
                    proof {
                        lemma_first_fault_unique(views, i as int);
                    }
                    return Err(ShellyError::ChannelIdParse { key: entry.key.clone() });
                },
                Some(channel) => {
                    match &entry.apower {
                        None => {
                            proof {
                                lemma_first_fault_unique(views, i as int);
                            }
                            return Err(ShellyError::MissingReading { key: entry.key.clone() });
                        },
                        Some(power) => {
                            readings.insert(channel, power.clone());
                        },
                    }
                },
            }
        }
        i = i + 1;
    }
    assert(views.take(i as int) == views);
    Ok(readings)
}

/// The reading of a channel's value: the number under its member `apower`.
pub open spec fn reading_of(value: Json) -> Option<Seq<char>> {
    match field(value, "apower"@) {
        Some(Json::Number(text)) => Some(text),
        _ => None,
    }
}

/// The entries of a status object, member by member.
pub open spec fn entries_of(ms: Seq<(Seq<char>, Json)>) -> Seq<Entry> {
    Seq::new(ms.len(), |i: int| Entry { key: ms[i].0, apower: reading_of(ms[i].1) })
}

/// What a status comes to: a document that is no object has the wrong
/// shape; an object comes to what its entries come to.
pub open spec fn status_outcome(status: Json) -> Result<Map<u32, Seq<char>>, Fault> {
    match status {
        Json::Object(ms) => extraction(entries_of(ms)),
        _ => Err(Fault::Shape),
    }
}

/// What the bytes of an answer come to: a decoding fault with the decoder's
/// message, or what the decoded status comes to.
pub open spec fn body_outcome(body: Seq<u8>) -> Result<Map<u32, Seq<char>>, Fault> {
    match decoded(body) {
        Err(text) => Err(Fault::Decode(text)),
        Ok(status) => status_outcome(status),
    }
}

/// What a fetch comes to: a transport fault with its detail, or what the
/// fetched bytes come to.
pub open spec fn fetch_outcome(fetched: Result<Seq<u8>, Seq<char>>) -> Result<
    Map<u32, Seq<char>>,
    Fault,
> {
    match fetched {
        Err(detail) => Err(Fault::Transport(detail)),
        Ok(body) => body_outcome(body),
    }
}

/// An optional text by its characters.
pub open spec fn text_view(text: Option<String>) -> Option<Seq<char>> {
    match text {
        Some(t) => Some(t@),
        None => None,
    }
}

/// Reads the power of one channel's value: its member `apower`, where that
/// is a number.
pub fn read_power(value: &serde_json::Value) -> (r: Option<String>)
    ensures
        text_view(r) == reading_of(model(*value)),
{
    match get_field(value, "apower") {
        Some(power) => number_text(power),
        None => None,
    }
}

/// Reads the entries of a status: `None` where it is no object.
pub fn status_entries(status: serde_json::Value) -> (r: Option<Vec<StatusEntry>>)
    ensures
        match model(status) {
            Json::Object(ms) => r is Some && entry_views(r->Some_0@) == entries_of(ms),
            _ => r is None,
        },
{
    match into_members(status) {
        None => None,
        Some(pairs) => {
            let ghost ms = model(status)->Object_0;
            let mut entries: Vec<StatusEntry> = Vec::new();
            let mut i: usize = 0;
            while i < pairs.len()
                invariant
                    i <= pairs.len(),
                    pairs@.len() == ms.len(),
                    forall|j: int|
                        0 <= j < ms.len() ==> (#[trigger] pairs@[j]).0@ == ms[j].0 && model(
                            pairs@[j].1,
                        ) == ms[j].1,
                    entries@.len() == i,
                    forall|j: int| 0 <= j < i ==> (#[trigger] entries@[j])@ == entries_of(ms)[j],
                decreases pairs.len() - i,
            {
                let pair = &pairs[i];
                let entry = StatusEntry { key: pair.0.clone(), apower: read_power(&pair.1) };
                assert(entry@ == entries_of(ms)[i as int]);
                entries.push(entry);
                i = i + 1;
            }
            assert(entry_views(entries@) =~= entries_of(ms));
            Some(entries)
        },
    }
}

/// Extracts the readings from a decoded status.
pub fn extract_power(status: serde_json::Value) -> (r: Result<PowerReadings, ShellyError>)
    ensures
        outcome_is(r, status_outcome(model(status))),
{
    match status_entries(status) {
        None => Err(ShellyError::Shape),
        Some(entries) => collect_readings(&entries),
    }
}

/// Decodes the bytes of an answer and extracts the readings.
pub fn power_from_body(body: &[u8]) -> (r: Result<PowerReadings, ShellyError>)
    ensures
        outcome_is(r, body_outcome(body@)),
{
    match decode(body) {
        Err(e) => Err(ShellyError::Decode { detail: describe(&e) }),
        Ok(status) => extract_power(status),
    }
}

/// What fetching gave, by its views: the bytes, or the detail of the failure.
pub open spec fn fetch_view(fetched: Result<Vec<u8>, String>) -> Result<Seq<u8>, Seq<char>> {
    match fetched {
        Ok(body) => Ok(body@),
        Err(detail) => Err(detail@),
    }
}

/// The readings of a device, from what fetching its status gave: the bytes
/// of the answer, or the detail of the transport's failure.
pub fn get_power(fetched: Result<Vec<u8>, String>) -> (r: Result<PowerReadings, ShellyError>)
    ensures
        outcome_is(r, fetch_outcome(fetch_view(fetched))),
{
    match fetched {
        Err(detail) => Err(ShellyError::Transport { detail }),
        Ok(body) => power_from_body(body.as_slice()),
    }
}

} // verus!

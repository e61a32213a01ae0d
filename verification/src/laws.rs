//! What holds of every status and of every set of readings.

use crate::channel::channel_id;
use crate::channel::is_channel_key;
use crate::channel::key_channel;
use crate::extract::collected;
use crate::extract::entries_of;
use crate::extract::entry_fault;
use crate::extract::extraction;
use crate::extract::fault_free;
use crate::extract::gives_reading;
use crate::extract::is_first_fault;
use crate::extract::reading_of;
use crate::extract::status_outcome;
use crate::extract::Entry;
use crate::extract::Fault;
use crate::json::field;
use crate::json::Json;
use crate::readings::is_rendering;
use crate::readings::line;
use crate::readings::lines;
use vstd::prelude::*;

verus! {

/// Entries that give no reading leave nothing collected.
pub proof fn lemma_nothing_collected(entries: Seq<Entry>)
    requires
        forall|i: int| 0 <= i < entries.len() ==> !gives_reading(#[trigger] entries[i]),
    ensures
        collected(entries) == Map::<u32, Seq<char>>::empty(),
    decreases entries.len(),
{
    if entries.len() > 0 {
        lemma_nothing_collected(entries.drop_last());
    }
}

/// The reading of a channel is that of the last entry that names it.
pub proof fn lemma_last_entry_stays(entries: Seq<Entry>, i: int, channel: u32, power: Seq<char>)
    requires
        0 <= i < entries.len(),
        key_channel(entries[i].key) == Some(channel),
        entries[i].apower == Some(power),
        forall|j: int|
            i < j < entries.len() && gives_reading(#[trigger] entries[j]) && key_channel(
                entries[j].key,
            ) == Some(channel) ==> entries[j].apower == Some(power),
    ensures
        collected(entries).contains_key(channel),
        collected(entries)[channel] == power,
    decreases entries.len(),
{
    let last = entries.len() - 1;
    if i < last {
        let front = entries.drop_last();
        assert forall|j: int|
            i < j < front.len() && gives_reading(#[trigger] front[j]) && key_channel(front[j].key)
                == Some(channel) implies front[j].apower == Some(power) by {
            assert(front[j] == entries[j]);
        }
        lemma_last_entry_stays(front, i, channel, power);
        let e = entries[last];
        if gives_reading(e) && key_channel(e.key) == Some(channel) {
            assert(e.apower == Some(power));
        }
    }
}

/// Where an entry is at fault, some entry is the first at fault.
pub proof fn lemma_first_fault_exists(entries: Seq<Entry>, i: int) -> (first: int)
    requires
        0 <= i < entries.len(),
        entry_fault(entries[i]) is Some,
    ensures
        is_first_fault(entries, first),
        first <= i,
    decreases i,
{
    if exists|j: int| 0 <= j < i && entry_fault(#[trigger] entries[j]) is Some {
        let j = choose|j: int| 0 <= j < i && entry_fault(#[trigger] entries[j]) is Some;
        lemma_first_fault_exists(entries, j)
    } else {
        i
    }
}

/// One entry at fault fails the whole list, with a fault of a channel
/// entry: a channel number that cannot be read, or a missing reading.
pub proof fn lemma_one_fault_fails_all(entries: Seq<Entry>, i: int)
    requires
        0 <= i < entries.len(),
        entry_fault(entries[i]) is Some,
    ensures
        extraction(entries) is Err,
        extraction(entries)->Err_0 is ChannelIdParse || extraction(entries)->Err_0 is MissingReading,
{
    let first = lemma_first_fault_exists(entries, i);
    crate::extract::lemma_first_fault_unique(entries, first);
}

/// Every collected reading comes from an entry: a channel key with that
/// channel's number, and that reading under it.
pub proof fn law_every_reading_has_its_entry(entries: Seq<Entry>, channel: u32) -> (i: int)
    requires
        collected(entries).contains_key(channel),
    ensures
        0 <= i < entries.len(),
        gives_reading(entries[i]),
        key_channel(entries[i].key) == Some(channel),
        entries[i].apower == Some(collected(entries)[channel]),
    decreases entries.len(),
{
    let last = entries.len() - 1;
    let e = entries[last];
    if gives_reading(e) && key_channel(e.key) == Some(channel) {
        last
    } else {
        law_every_reading_has_its_entry(entries.drop_last(), channel)
    }
}

/// An entry that gives no reading can be taken out: the same readings are
/// collected without it.
pub proof fn lemma_collected_without(entries: Seq<Entry>, i: int)
    requires
        0 <= i < entries.len(),
        !gives_reading(entries[i]),
    ensures
        collected(entries.remove(i)) == collected(entries),
    decreases entries.len(),
{
    let last = entries.len() - 1;
    if i == last {
        assert(entries.remove(i) == entries.drop_last());
    } else {
        lemma_collected_without(entries.drop_last(), i);
        assert(entries.remove(i).drop_last() == entries.drop_last().remove(i));
        assert(entries.remove(i).last() == entries.last());
    }
}

/// An entry whose key does not start with `switch:` is passed over: with or
/// without it, a list of entries comes to the same readings or the same
/// fault.
pub proof fn law_unmarked_entry_is_ignored(entries: Seq<Entry>, i: int)
    requires
        0 <= i < entries.len(),
        !is_channel_key(entries[i].key),
    ensures
        extraction(entries.remove(i)) == extraction(entries),
{
    let rest = entries.remove(i);
    assert forall|j: int| 0 <= j < rest.len() implies #[trigger] rest[j] == entries[if j < i {
        j
    } else {
        j + 1
    }] by {}
    lemma_collected_without(entries, i);
    if fault_free(entries) {
        assert forall|j: int| 0 <= j < rest.len() implies entry_fault(#[trigger] rest[j])
            is None by {
            assert(rest[j] == entries[if j < i { j } else { j + 1 }]);
        }
    } else {
        let k = choose|k: int| 0 <= k < entries.len() && entry_fault(#[trigger] entries[k]) is Some;
        let first = lemma_first_fault_exists(entries, k);
        crate::extract::lemma_first_fault_unique(entries, first);
        let moved = if first < i { first } else { first - 1 };
        assert(rest[moved] == entries[first]);
        assert forall|j: int| 0 <= j < moved implies entry_fault(#[trigger] rest[j]) is None by {
            assert(rest[j] == entries[if j < i { j } else { j + 1 }]);
        }
        crate::extract::lemma_first_fault_unique(rest, moved);
    }
}

/// A status object none of whose keys starts with `switch:` gives readings
/// of no channel, whatever its members hold.
pub proof fn law_unmarked_keys_give_nothing(ms: Seq<(Seq<char>, Json)>)
    requires
        forall|i: int| 0 <= i < ms.len() ==> !is_channel_key((#[trigger] ms[i]).0),
    ensures
        status_outcome(Json::Object(ms)) == Ok::<Map<u32, Seq<char>>, Fault>(Map::empty()),
{
    let entries = entries_of(ms);
    assert forall|i: int| 0 <= i < entries.len() implies !gives_reading(#[trigger] entries[i])
        && entry_fault(entries[i]) is None by {
        assert(entries[i].key == ms[i].0);
    }
    lemma_nothing_collected(entries);
}

/// In a status object whose channel entries are all sound, a member
/// `switch:<N>` with a numeric `apower` gives channel N that reading, unless
/// a later member names the same channel with another reading.
pub proof fn law_sound_entry_is_reported(
    ms: Seq<(Seq<char>, Json)>,
    i: int,
    channel: u32,
    power: Seq<char>,
)
    requires
        fault_free(entries_of(ms)),
        0 <= i < ms.len(),
        key_channel(ms[i].0) == Some(channel),
        field(ms[i].1, "apower"@) == Some(Json::Number(power)),
        forall|j: int|
            i < j < ms.len() && key_channel((#[trigger] ms[j]).0) == Some(channel) ==> reading_of(
                ms[j].1,
            ) == Some(power),
    ensures
        status_outcome(Json::Object(ms)) is Ok,
        status_outcome(Json::Object(ms))->Ok_0.contains_key(channel),
        status_outcome(Json::Object(ms))->Ok_0[channel] == power,
{
    let entries = entries_of(ms);
    assert forall|j: int|
        i < j < entries.len() && gives_reading(#[trigger] entries[j]) && key_channel(
            entries[j].key,
        ) == Some(channel) implies entries[j].apower == Some(power) by {
        assert(entries[j].key == ms[j].0);
    }
    lemma_last_entry_stays(entries, i, channel, power);
}

/// A status object with a key that starts with `switch:` and goes on with
/// anything but a channel number gives no readings at all.
pub proof fn law_bad_channel_number_fails(ms: Seq<(Seq<char>, Json)>, i: int)
    requires
        0 <= i < ms.len(),
        is_channel_key(ms[i].0),
        channel_id(ms[i].0.skip(7)) is None,
    ensures
        status_outcome(Json::Object(ms)) is Err,
{
    let entries = entries_of(ms);
    assert(entries[i].key == ms[i].0);
    lemma_one_fault_fails_all(entries, i);
}

/// A status object with a channel entry that has no `apower`, or one that is
/// no number, gives no readings at all, however sound its other entries are.
pub proof fn law_missing_reading_fails(ms: Seq<(Seq<char>, Json)>, i: int)
    requires
        0 <= i < ms.len(),
        is_channel_key(ms[i].0),
        !(field(ms[i].1, "apower"@) matches Some(Json::Number(_))),
    ensures
        status_outcome(Json::Object(ms)) is Err,
{
    let entries = entries_of(ms);
    assert(entries[i].key == ms[i].0);
    lemma_one_fault_fails_all(entries, i);
}

/// Readings of no channel render as the empty text, and as nothing else.
pub proof fn law_no_readings_render_empty(text: Seq<char>)
    ensures
        is_rendering(Map::<u32, Seq<char>>::empty(), text) <==> text == Seq::<char>::empty(),
{
    let none = Map::<u32, Seq<char>>::empty();
    if is_rendering(none, text) {
        let order = choose|order: Seq<u32>|
            order.no_duplicates() && order.to_set() == none.dom() && text == #[trigger] lines(
                none,
                order,
            );
        if order.len() > 0 {
            assert(order.to_set().contains(order[0]));
        }
    }
    if text == Seq::<char>::empty() {
        let order = Seq::<u32>::empty();
        assert(order.to_set() =~= none.dom());
        assert(text == lines(none, order));
    }
}

/// The reading of one channel renders as its one line, and as nothing else.
pub proof fn law_one_reading_renders_one_line(channel: u32, power: Seq<char>, text: Seq<char>)
    ensures
        is_rendering(Map::<u32, Seq<char>>::empty().insert(channel, power), text) <==> text
            == line(channel, power),
{
    let one = Map::<u32, Seq<char>>::empty().insert(channel, power);
    if is_rendering(one, text) {
        let order = choose|order: Seq<u32>|
            order.no_duplicates() && order.to_set() == one.dom() && text == #[trigger] lines(
                one,
                order,
            );
        assert(order.to_set().contains(channel));
        assert(order.len() >= 1);
        if order.len() >= 2 {
            assert(order.to_set().contains(order[0]));
            assert(order.to_set().contains(order[1]));
        }
        assert(order.to_set().contains(order[0]));
        assert(order[0] == channel);
        assert(order.drop_last().len() == 0);
        assert(lines(one, order.drop_last()) == Seq::<char>::empty());
        assert(text =~= line(channel, power));
    }
    if text == line(channel, power) {
        let order = seq![channel];
        assert(order[0] == channel);
        assert(order.contains(channel));
        assert(order.to_set() =~= one.dom());
        assert(order.drop_last().len() == 0);
        assert(lines(one, order.drop_last()) == Seq::<char>::empty());
        assert(lines(one, order) =~= line(channel, power));
    }
}

} // verus!

//! The readings of one probe, channel by channel, and the text lines that
//! report them.

use crate::channel::channel_text;
use crate::channel::decimal_text;
use std::collections::HashMap;
use vstd::prelude::*;
use vstd::std_specs::iter::IteratorSpec;
use vstd::string::StringExecFns;

verus! {

broadcast use vstd::std_specs::hash::group_hash_axioms;

/// The power of each channel of a device, in watts. A reading is held as the
/// decimal text of its value.
#[derive(Debug)]
pub struct PowerReadings {
    map: HashMap<u32, String>,
}

impl View for PowerReadings {
    type V = Map<u32, Seq<char>>;

    closed spec fn view(&self) -> Map<u32, Seq<char>> {
        Map::new(|k: u32| self.map@.contains_key(k), |k: u32| self.map@[k]@)
    }
}

/// The line that reports one channel.
pub open spec fn line(channel: u32, power: Seq<char>) -> Seq<char> {
    "shelly_power_usage_watts{switch_id=\""@ + decimal_text(channel as nat) + "\"} "@ + power
        + "\n"@
}

/// The lines of the channels in `order`, one after the other.
pub open spec fn lines(readings: Map<u32, Seq<char>>, order: Seq<u32>) -> Seq<char>
    decreases order.len(),
{
    if order.len() == 0 {
        Seq::empty()
    } else {
        lines(readings, order.drop_last()) + line(order.last(), readings[order.last()])
    }
}

/// Whether `text` reports `readings`: one line for each channel, each
/// channel once, in some order.
pub open spec fn is_rendering(readings: Map<u32, Seq<char>>, text: Seq<char>) -> bool {
    exists|order: Seq<u32>|
        order.no_duplicates() && order.to_set() == readings.dom() && text == #[trigger] lines(
            readings,
            order,
        )
}

impl PowerReadings {
    /// Readings of no channel.
    pub fn new() -> (r: Self)
        ensures
            r@ == Map::<u32, Seq<char>>::empty(),
    {
        let r = PowerReadings { map: HashMap::new() };
        assert(r@ =~= Map::<u32, Seq<char>>::empty());
        r
    }

    /// Sets the reading of a channel, in place of one that it had.
    pub fn insert(&mut self, channel: u32, power: String)
        ensures
            final(self)@ == old(self)@.insert(channel, power@),
    {
        self.map.insert(channel, power);
        assert(self@ =~= old(self)@.insert(channel, power@));
    }

    /// The reading of a channel, if it has one.
    pub fn reading(&self, channel: u32) -> (r: Option<&String>)
        ensures
            r is Some <==> self@.contains_key(channel),
            r is Some ==> r->Some_0@ == self@[channel],
    {
        self.map.get(&channel)
    }

    /// The number of channels that have a reading.
    pub fn len(&self) -> (r: usize)
        ensures
            r == self@.dom().len(),
    {
        assert(self@.dom() =~= self.map@.dom());
        self.map.len()
    }

    /// Writes the readings as text, one line for each channel. The order of
    /// the lines is that in which the map hands its entries out.
    pub fn render(&self) -> (r: String)
        ensures
            is_rendering(self@, r@),
    {
        let mut out = String::new();
        let ghost mut order = Seq::<u32>::empty();
        for entry in it: self.map.iter()
            invariant
                order.len() == it.index(),
                it.seq() == vstd::std_specs::hash::spec_hash_map_iter(&self.map).remaining(),
                forall|j: int| 0 <= j < order.len() ==> order[j] == *(#[trigger] it.seq()[j]).0,
                out@ == lines(self@, order),
        {
            let (channel, power) = entry;
            assert(self.map@.contains_key(*channel) && self.map@[*channel] == *power);
            out.append("shelly_power_usage_watts{switch_id=\"");
            out.append(channel_text(*channel).as_str());
            out.append("\"} ");
            out.append(power.as_str());
            out.append("\n");
            proof {
                let before = order;
                order = order.push(*channel);
                assert(order.drop_last() == before);
                assert(out@ =~= lines(self@, before) + line(*channel, self@[*channel]));
            }
        }
        proof {
            let handed = vstd::std_specs::hash::spec_hash_map_iter(&self.map).remaining();
            vstd::std_specs::hash::axiom_spec_hash_map_iter(&self.map);
            assert(order.len() == handed.len());
            assert forall|k: u32| self@.dom().contains(k) implies order.to_set().contains(k) by {
                let pair = (&k, &self.map@[k]);
                assert(handed.contains(pair));
                let j = choose|j: int| 0 <= j < handed.len() && handed[j] == pair;
                assert(order[j] == k);
            }
            assert forall|k: u32| order.to_set().contains(k) implies self@.dom().contains(k) by {
                let j = choose|j: int| 0 <= j < order.len() && order[j] == k;
                assert(self.map@.contains_key(*handed[j].0));
            }
            assert(order.to_set() =~= self@.dom());
            assert(self@.dom() =~= self.map@.dom());
            order.lemma_no_dup_set_cardinality();
        }
        out
    }
}

} // verus!

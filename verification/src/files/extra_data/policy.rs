//! What the rules of the entries come to for a client: which defaults and
//! which changes the service refuses, and what it answers to the others.

use crate::files::extra_data::entries::display_configuration::DisplayConfigurationValue;
use crate::files::extra_data::entries::{display_configuration, flag_list_order, simulation_speed};
use crate::files::extra_data::manager::{
    changed, kinds_fit, lemma_fixed_keys, lemma_resolved_fits, requested, resolved,
    spec_new_entry, EntryValue,
};
use crate::network::message_pack::writer::{array_header, float_64_encoding};
use crate::network::packets::c2s::extra_data_request::ExtraDataMessage;
use crate::network::packets::s2c::world_initialization_packet::wrapped_encoding;
use crate::util::byte_order::two_to;
use crate::util::error_handling::ReadError;
use vstd::prelude::*;

verus! {

/// A request that proposes a list with flags in it as the default of the
/// order of the flags is not answered, and no value changes.
pub proof fn lemma_flags_as_default_are_refused(
    entries: Map<Seq<char>, EntryValue>,
    request: ExtraDataMessage,
)
    requires
        kinds_fit(entries),
        request.key == flag_list_order::KEY@,
        flag_list_order::spec_parse(request.data) matches Ok(flags) && flags.len() > 0,
    ensures
        requested(entries, request) == (
            resolved(entries, request.key),
            None::<ExtraDataMessage>,
        ),
{
    lemma_fixed_keys();
    lemma_resolved_fits(entries, request.key);
}

/// A change of the order of the flags to the empty list is accepted and
/// answered, and a request after it is answered with the empty list.
pub proof fn lemma_emptied_flags_are_reported(
    entries: Map<Seq<char>, EntryValue>,
    change: ExtraDataMessage,
    request: ExtraDataMessage,
)
    requires
        kinds_fit(entries),
        change.key == flag_list_order::KEY@,
        change.data_type == flag_list_order::TYPE@,
        flag_list_order::spec_parse(change.data) == Ok::<Seq<u32>, ReadError>(Seq::empty()),
        request.key == change.key,
        request.data_type == flag_list_order::TYPE@,
        flag_list_order::spec_parse(request.data) == Ok::<Seq<u32>, ReadError>(Seq::empty()),
    ensures
        changed(entries, change).0 == entries.insert(
            change.key,
            EntryValue::FlagListOrder(Seq::empty()),
        ),
        changed(entries, change).1 == Some(
            ExtraDataMessage {
                key: flag_list_order::KEY@,
                data_type: flag_list_order::TYPE@,
                data: array_header(0),
            },
        ),
        requested(changed(entries, change).0, request).1 == changed(entries, change).1,
{
    lemma_fixed_keys();
    lemma_resolved_fits(entries, change.key);
    let emptied = EntryValue::FlagListOrder(Seq::empty());
    assert(wrapped_encoding(Seq::empty()) =~= Seq::empty());
    assert(emptied.encoding() =~= array_header(0));
    let known = resolved(entries, change.key);
    assert(known.insert(change.key, emptied) =~= entries.insert(change.key, emptied));
    let after = changed(entries, change).0;
    assert(after.dom().contains(request.key));
    assert(after[request.key] == emptied);
}

/// A change of the speed of the simulation to a value below zero is
/// refused: it is not answered, and no value changes.
pub proof fn lemma_negative_speed_is_refused(
    entries: Map<Seq<char>, EntryValue>,
    change: ExtraDataMessage,
)
    requires
        kinds_fit(entries),
        change.key == simulation_speed::KEY@,
        simulation_speed::spec_parse(change.data) matches Ok(speed)
            && simulation_speed::is_below_zero(speed),
    ensures
        changed(entries, change) == (resolved(entries, change.key), None::<ExtraDataMessage>),
{
    lemma_fixed_keys();
    lemma_resolved_fits(entries, change.key);
}

/// A change of the speed of the simulation to a value that is not below
/// zero is accepted, and the answer holds that value.
pub proof fn lemma_speed_is_echoed(entries: Map<Seq<char>, EntryValue>, change: ExtraDataMessage)
    requires
        kinds_fit(entries),
        change.key == simulation_speed::KEY@,
        change.data_type == simulation_speed::TYPE@,
        simulation_speed::spec_parse(change.data) matches Ok(speed)
            && !simulation_speed::is_below_zero(speed),
    ensures
        changed(entries, change).0 == entries.insert(
            change.key,
            EntryValue::SimulationSpeed(simulation_speed::spec_parse(change.data)->Ok_0),
        ),
        changed(entries, change).1 == Some(
            ExtraDataMessage {
                key: simulation_speed::KEY@,
                data_type: simulation_speed::TYPE@,
                data: float_64_encoding(simulation_speed::spec_parse(change.data)->Ok_0),
            },
        ),
{
    lemma_fixed_keys();
    lemma_resolved_fits(entries, change.key);
    let speed = simulation_speed::spec_parse(change.data)->Ok_0;
    let known = resolved(entries, change.key);
    assert(known.insert(change.key, EntryValue::SimulationSpeed(speed)) =~= entries.insert(
        change.key,
        EntryValue::SimulationSpeed(speed),
    ));
}

/// The speeds -1 and 5, as the bit patterns of 64-bit floats, stand on the
/// two sides of the rule.
pub proof fn lemma_speeds_on_both_sides()
    ensures
        simulation_speed::is_below_zero(0xBFF0_0000_0000_0000),
        !simulation_speed::is_below_zero(0x4014_0000_0000_0000),
{
}

/// A display configuration takes as default exactly the lists with one
/// colour for each combination of its pegs: with two pegs, four colours.
pub proof fn lemma_display_takes_a_color_for_each_combination(
    entry: DisplayConfigurationValue,
    bytes: Seq<u8>,
)
    requires
        entry.peg_count == 2,
        display_configuration::spec_parse(bytes) is Ok,
    ensures
        EntryValue::DisplayConfiguration(entry).accepts_default(bytes) <==> display_configuration::spec_parse(
            bytes,
        )->Ok_0.len() == 4,
{
    assert(two_to(2) == 4) by {
        reveal_with_fuel(two_to, 4);
    }
}

/// A request whose default for a display configuration has another number
/// of colours than the display has combinations is not answered, and no
/// value changes.
pub proof fn lemma_wrong_color_count_is_refused(
    entries: Map<Seq<char>, EntryValue>,
    request: ExtraDataMessage,
)
    requires
        kinds_fit(entries),
        spec_new_entry(request.key) matches Some(EntryValue::DisplayConfiguration(display))
            && display_configuration::spec_parse(request.data) matches Ok(colors) && colors.len()
            != two_to(display.peg_count as nat),
    ensures
        requested(entries, request) == (
            resolved(entries, request.key),
            None::<ExtraDataMessage>,
        ),
{
    lemma_resolved_fits(entries, request.key);
}

} // verus!

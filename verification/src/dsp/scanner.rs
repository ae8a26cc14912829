use vstd::prelude::*;
use vstd::string::*;

use crate::dsp::ensemble_parser::{EnsembleInfo, ServiceInfo};
use crate::dsp::sdr_interface::{au_dab_blocks, au_dab_blocks_spec, Timestamp};
use crate::services::station_registry::Station;

verus! {

/// The name of the first block in `blocks`, from position `i` on, that is
/// tuned to exactly `freq`; empty when there is none.
pub open spec fn block_name_from(blocks: Seq<(Seq<char>, u32)>, freq: u32, i: int) -> Seq<char>
    decreases blocks.len() - i,
{
    if i < 0 || i >= blocks.len() {
        Seq::empty()
    } else if blocks[i].1 == freq {
        blocks[i].0
    } else {
        block_name_from(blocks, freq, i + 1)
    }
}

/// The name of the Australian block tuned to exactly `freq` ("" for none).
pub open spec fn block_name_at(freq: u32) -> Seq<char> {
    block_name_from(au_dab_blocks_spec(), freq, 0)
}

/// A list of blocks as names and frequencies.
pub open spec fn blocks_view(blocks: Seq<(&str, u32)>) -> Seq<(Seq<char>, u32)> {
    Seq::new(blocks.len(), |i: int| (blocks[i].0@, blocks[i].1))
}

/// The blocks at the frequencies `detected`, in order.
pub open spec fn detected_blocks(detected: Seq<u32>) -> Seq<(Seq<char>, u32)> {
    Seq::new(detected.len(), |i: int| (block_name_at(detected[i]), detected[i]))
}

/// `blocks` with each run of neighbours on one frequency cut to its first.
pub open spec fn dedup_by_freq(blocks: Seq<(Seq<char>, u32)>) -> Seq<(Seq<char>, u32)>
    decreases blocks.len(),
{
    if blocks.len() == 0 {
        blocks
    } else {
        let kept = dedup_by_freq(blocks.drop_last());
        if kept.len() > 0 && kept.last().1 == blocks.last().1 {
            kept
        } else {
            kept.push(blocks.last())
        }
    }
}

/// The blocks of a later scan pass before neighbours on one frequency are
/// merged: the blocks where a signal was detected, then, when weak signals
/// are retried, the weak blocks.
pub open spec fn pass_candidates(detected: Seq<u32>, weak_blocks: Seq<(Seq<char>, u32)>, retry_weak_signals: bool) -> Seq<
    (Seq<char>, u32),
> {
    detected_blocks(detected) + if retry_weak_signals {
        weak_blocks
    } else {
        Seq::empty()
    }
}

/// The name of the Australian block tuned to exactly `freq`, or "".
fn block_name_for(freq: u32) -> (name: &'static str)
    ensures
        name@ == block_name_at(freq),
{
    let blocks = au_dab_blocks();
    let ghost spec_blocks = au_dab_blocks_spec();
    let n = blocks.len();
    for i in 0..n
        invariant
            n == blocks@.len(),
            n == spec_blocks.len(),
            spec_blocks == au_dab_blocks_spec(),
            forall|k: int|
                0 <= k < blocks@.len() ==> (#[trigger] blocks@[k]).0@ == spec_blocks[k].0
                    && blocks@[k].1 == spec_blocks[k].1,
            block_name_from(spec_blocks, freq, 0) == block_name_from(spec_blocks, freq, i as int),
    {
        if blocks[i].1 == freq {
            return blocks[i].0;
        }
    }
    proof {
        reveal_strlit("");
    }
    ""
}

/// The blocks to scan in a later pass: for each frequency where a signal
/// was detected, its block (an unnamed one where no Australian block sits
/// exactly there); then, when `retry_weak_signals`, the weak blocks; with
/// each run of neighbours on one frequency cut to its first.
pub fn next_pass_blocks(detected: &Vec<u32>, weak_blocks: &Vec<(&'static str, u32)>, retry_weak_signals: bool) -> (blocks: Vec<(&'static str, u32)>)
    ensures
        blocks_view(blocks@) == dedup_by_freq(pass_candidates(detected@, blocks_view(weak_blocks@), retry_weak_signals)),
{
    let mut candidates: Vec<(&'static str, u32)> = Vec::new();
    let n = detected.len();
    for i in 0..n
        invariant
            n == detected@.len(),
            candidates@.len() == i,
            blocks_view(candidates@) == detected_blocks(detected@.subrange(0, i as int)),
    {
        let f = detected[i];
        let ghost before = candidates@;
        candidates.push((block_name_for(f), f));
        assert forall|k: int| 0 <= k < i implies #[trigger] blocks_view(candidates@)[k] == detected_blocks(detected@.subrange(0, i + 1))[k] by {
            assert(candidates@[k] == before[k]);
            assert(blocks_view(before)[k] == detected_blocks(detected@.subrange(0, i as int))[k]);
        }
        assert(blocks_view(candidates@) =~= detected_blocks(detected@.subrange(0, i + 1)));
    }
    assert(detected@.subrange(0, n as int) =~= detected@);
    let ghost first = blocks_view(candidates@);
    if retry_weak_signals {
        let m = weak_blocks.len();
        for j in 0..m
            invariant
                m == weak_blocks@.len(),
                candidates@.len() == first.len() + j,
                blocks_view(candidates@) == first + blocks_view(weak_blocks@.subrange(0, j as int)),
        {
            let ghost before = candidates@;
            candidates.push(weak_blocks[j]);
            assert forall|k: int| 0 <= k < before.len() implies #[trigger] blocks_view(candidates@)[k] == blocks_view(before)[k] by {
                assert(candidates@[k] == before[k]);
            }
            assert(blocks_view(candidates@) =~= first + blocks_view(weak_blocks@.subrange(0, j + 1)));
        }
        assert(weak_blocks@.subrange(0, m as int) =~= weak_blocks@);
    } else {
        assert(blocks_view(candidates@) =~= first + Seq::empty());
    }
    let ghost all = blocks_view(candidates@);
    assert(all == pass_candidates(detected@, blocks_view(weak_blocks@), retry_weak_signals));
    let mut blocks: Vec<(&'static str, u32)> = Vec::new();
    let k = candidates.len();
    assert(all.subrange(0, 0) =~= Seq::<(Seq<char>, u32)>::empty());
    for i in 0..k
        invariant
            k == candidates@.len(),
            all == blocks_view(candidates@),
            blocks_view(blocks@) == dedup_by_freq(all.subrange(0, i as int)),
    {
        let b = candidates[i];
        let ghost prefix = all.subrange(0, i + 1);
        assert(prefix.drop_last() =~= all.subrange(0, i as int));
        assert(prefix.last() == (b.0@, b.1));
        if blocks.len() > 0 && blocks[blocks.len() - 1].1 == b.1 {
            assert(blocks_view(blocks@).last().1 == b.1);
        } else {
            blocks.push(b);
            assert(blocks_view(blocks@) =~= dedup_by_freq(all.subrange(0, i as int)).push((b.0@, b.1)));
        }
    }
    assert(all.subrange(0, k as int) =~= all);
    blocks
}

/// The station that a service of an ensemble found on `freq` in block
/// `block_name` becomes: named by the service, signal strength
/// `signal_strength_bits`, active, coded HE-AAC v2, seen at `now`.
pub open spec fn station_of_service(
    st: Station,
    ens: EnsembleInfo,
    svc: ServiceInfo,
    freq: u32,
    block_name: Seq<char>,
    signal_strength_bits: u32,
    id: u128,
    now: Timestamp,
) -> bool {
    &&& st.id == id
    &&& st.name == svc.label
    &&& st.ensemble_name == ens.label
    &&& st.ensemble_id == ens.ensemble_id
    &&& st.service_id == svc.service_id
    &&& st.frequency == freq
    &&& st.block_name@ == block_name
    &&& st.signal_strength_bits == signal_strength_bits
    &&& st.program_type == svc.program_type
    &&& st.is_active
    &&& st.bitrate == svc.bitrate
    &&& st.codec@ == "HE-AAC v2"@
    &&& st.last_seen == now
}

/// The stations of an ensemble detected on `freq` in block `block_name`,
/// one per service, in service order; `ids` gives each its fresh id.
pub fn ensemble_stations(
    ens: &EnsembleInfo,
    freq: u32,
    block_name: &str,
    signal_strength_bits: u32,
    ids: &Vec<u128>,
    now: Timestamp,
) -> (stations: Vec<Station>)
    requires
        ids@.len() == ens.services@.len(),
    ensures
        stations@.len() == ens.services@.len(),
        forall|i: int|
            0 <= i < stations@.len() ==> station_of_service(
                #[trigger] stations@[i],
                *ens,
                ens.services@[i],
                freq,
                block_name@,
                signal_strength_bits,
                ids@[i],
                now,
            ),
{
    let mut stations: Vec<Station> = Vec::new();
    let n = ens.services.len();
    for i in 0..n
        invariant
            n == ens.services@.len(),
            n == ids@.len(),
            stations@.len() == i,
            forall|k: int|
                0 <= k < i ==> station_of_service(
                    #[trigger] stations@[k],
                    *ens,
                    ens.services@[k],
                    freq,
                    block_name@,
                    signal_strength_bits,
                    ids@[k],
                    now,
                ),
    {
        let svc = &ens.services[i];
        stations.push(
            Station {
                id: ids[i],
                name: svc.label.clone(),
                ensemble_name: ens.label.clone(),
                ensemble_id: ens.ensemble_id,
                service_id: svc.service_id,
                frequency: freq,
                block_name: String::from_str(block_name),
                signal_strength_bits,
                program_type: svc.program_type.clone(),
                is_active: true,
                bitrate: svc.bitrate,
                codec: String::from_str("HE-AAC v2"),
                last_seen: now,
            },
        );
    }
    stations
}

} // verus!

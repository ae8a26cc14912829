use vstd::prelude::*;

use crate::dsp::convolutional::{
    at_most_one_flip, convolutional_code, is_bit_seq, lemma_viterbi_corrects_one_error,
};

verus! {

/// Errors of the DSP layer.
#[derive(Debug, Clone, Copy, PartialEq, Eq)]
pub enum DspError {
    /// A FIG 0 with no bytes at all.
    EmptyFig0,
    /// A FIG 1 shorter than its two-byte minimum.
    Fig1TooShort,
    /// A super frame was handed to a decoder that is not running.
    DecoderInactive,
}

/// Number of trellis states of the DAB convolutional code (constraint length 7).
pub const VITERBI_NUM_STATES: usize = 64;

/// Constraint length of the DAB convolutional code.
pub const VITERBI_CONSTRAINT_LENGTH: usize = 7;

/// The four generator polynomials (octal 133, 171, 145, 133).
pub open spec fn viterbi_polynomial(j: int) -> usize {
    if j == 0 {
        0o133usize
    } else if j == 1 {
        0o171usize
    } else if j == 2 {
        0o145usize
    } else {
        0o133usize
    }
}

/// Parity (number of set bits modulo 2) of `x`.
pub open spec fn bit_parity(x: nat) -> nat
    decreases x,
{
    if x == 0 {
        0
    } else {
        (x % 2 + bit_parity(x / 2)) % 2
    }
}

/// The code bit that generator `j` emits when the shift register holds `reg`.
pub open spec fn expected_code_bit(reg: usize, j: int) -> u8 {
    bit_parity((reg & viterbi_polynomial(j)) as nat) as u8
}

/// 1 when received byte `j` of `rx` differs from the expected code bit, else 0.
pub open spec fn code_bit_mismatch(reg: usize, rx: Seq<u8>, j: int) -> u32 {
    if expected_code_bit(reg, j) == rx[j] {
        0u32
    } else {
        1u32
    }
}

/// Number of mismatches among the first `n` code bits.
pub open spec fn code_bit_mismatches(reg: usize, rx: Seq<u8>, n: nat) -> u32
    decreases n,
{
    if n == 0 {
        0u32
    } else {
        (code_bit_mismatches(reg, rx, (n - 1) as nat) + code_bit_mismatch(reg, rx, n - 1)) as u32
    }
}

/// Hamming distance between the four received bytes and the code bits of `reg`.
pub open spec fn branch_metric(reg: usize, rx: Seq<u8>) -> u32 {
    code_bit_mismatches(reg, rx, 4)
}

/// `a + b`, saturating at `u32::MAX`.
pub open spec fn saturating_add_u32(a: u32, b: u32) -> u32 {
    if a + b > u32::MAX {
        u32::MAX
    } else {
        (a + b) as u32
    }
}

pub open spec fn min_u32(a: u32, b: u32) -> u32 {
    if b < a {
        b
    } else {
        a
    }
}

/// The metric offered to the successor of state `s` on input bit `b`;
/// unreached states (metric `u32::MAX`) offer nothing.
pub open spec fn transition_metric(m: Seq<u32>, s: usize, b: usize, rx: Seq<u8>) -> u32 {
    if m[s as int] == u32::MAX {
        u32::MAX
    } else {
        saturating_add_u32(m[s as int], branch_metric((s << 1usize) | b, rx))
    }
}

/// The new metric of state `ns`: the better of its two predecessors
/// `ns >> 1` and `(ns >> 1) | 32`, both on input bit `ns & 1`.
pub open spec fn survivor_metric(m: Seq<u32>, ns: usize, rx: Seq<u8>) -> u32 {
    min_u32(
        transition_metric(m, ns >> 1usize, ns & 1usize, rx),
        transition_metric(m, (ns >> 1usize) | 32usize, ns & 1usize, rx),
    )
}

/// The predecessor stored in the traceback table for state `ns`: the one
/// whose transition wins (the lower state `ns >> 1` on a tie).
pub open spec fn survivor_pred(m: Seq<u32>, ns: usize, rx: Seq<u8>) -> usize {
    if transition_metric(m, (ns >> 1usize) | 32usize, ns & 1usize, rx) < transition_metric(
        m,
        ns >> 1usize,
        ns & 1usize,
        rx,
    ) {
        (ns >> 1usize) | 32usize
    } else {
        ns >> 1usize
    }
}

pub open spec fn step_metrics(m: Seq<u32>, rx: Seq<u8>) -> Seq<u32> {
    Seq::new(64, |ns: int| survivor_metric(m, ns as usize, rx))
}

pub open spec fn step_traces(m: Seq<u32>, rx: Seq<u8>) -> Seq<u8> {
    Seq::new(64, |ns: int| survivor_pred(m, ns as usize, rx) as u8)
}

/// Path metrics before the first step: state 0 at distance 0, all others unreached.
pub open spec fn initial_metrics() -> Seq<u32> {
    Seq::new(64, |s: int| if s == 0 { 0u32 } else { u32::MAX })
}

/// The four received bytes of trellis step `i`.
pub open spec fn received_symbol(encoded: Seq<u8>, i: nat) -> Seq<u8> {
    encoded.subrange(4 * i as int, 4 * i as int + 4)
}

/// Path metrics after `k` trellis steps.
pub open spec fn metrics_after(encoded: Seq<u8>, k: nat) -> Seq<u32>
    decreases k,
{
    if k == 0 {
        initial_metrics()
    } else {
        let j = (k - 1) as nat;
        step_metrics(metrics_after(encoded, j), received_symbol(encoded, j))
    }
}

/// The traceback table written by trellis step `k`.
pub open spec fn traces_at(encoded: Seq<u8>, k: nat) -> Seq<u8> {
    step_traces(metrics_after(encoded, k), received_symbol(encoded, k))
}

/// Number of trellis steps: one per four received bytes, at most
/// `output_bits + 6` (the bits plus the tail of the register).
pub open spec fn trellis_steps(encoded_len: nat, output_bits: nat) -> nat {
    let symbols = encoded_len / 4;
    if symbols < output_bits + 6 {
        symbols
    } else {
        output_bits + 6
    }
}


/// Generator polynomial of the CRC-16 used to protect FIGs (x^16 + x^12 + x^5 + 1).
pub const CRC16_POLYNOMIAL: u16 = 0x1021;

/// One shift of the CRC register: shift left, and fold the polynomial in
/// when the bit shifted out was set.
pub open spec fn crc16_shift(crc: u16) -> u16 {
    if crc & 0x8000 != 0 {
        ((crc << 1u16) ^ CRC16_POLYNOMIAL) as u16
    } else {
        (crc << 1u16) as u16
    }
}

/// `n` successive register shifts.
pub open spec fn crc16_shifts(crc: u16, n: nat) -> u16
    decreases n,
{
    if n == 0 {
        crc
    } else {
        crc16_shift(crc16_shifts(crc, (n - 1) as nat))
    }
}

/// The register after feeding one byte, most significant bit first.
pub open spec fn crc16_feed(crc: u16, byte: u8) -> u16 {
    crc16_shifts(crc ^ ((byte as u16) << 8u16), 8)
}

/// The register after feeding all of `data`, starting from all ones.
pub open spec fn crc16_register(data: Seq<u8>) -> u16
    decreases data.len(),
{
    if data.len() == 0 {
        0xFFFFu16
    } else {
        crc16_feed(crc16_register(data.drop_last()), data.last())
    }
}

/// CRC-16/CCITT as DAB uses it: initial register all ones, final value inverted.
pub open spec fn crc16_ccitt_spec(data: Seq<u8>) -> u16 {
    crc16_register(data) ^ 0xFFFFu16
}

/// CRC-16 CCITT for DAB FIG verification.
pub fn crc16_ccitt(data: &[u8]) -> (crc: u16)
    ensures
        crc == crc16_ccitt_spec(data@),
{
    let mut crc: u16 = 0xFFFF;
    let n = data.len();
    for i in 0..n
        invariant
            n == data@.len(),
            crc == crc16_register(data@.subrange(0, i as int)),
    {
        let byte = data[i];
        let ghost start: u16 = crc ^ ((byte as u16) << 8u16);
        crc = crc ^ ((byte as u16) << 8u16);
        for j in 0..8u32
            invariant
                crc == crc16_shifts(start, j as nat),
        {
            if crc & 0x8000 != 0 {
                crc = (crc << 1u16) ^ CRC16_POLYNOMIAL;
            } else {
                crc = crc << 1u16;
            }
        }
        assert(data@.subrange(0, i + 1).drop_last() =~= data@.subrange(0, i as int));
    }
    assert(data@.subrange(0, n as int) =~= data@);
    crc ^ 0xFFFF
}

/// Feeding a byte is eight register shifts.
proof fn lemma_crc16_shifts_8(x: u16)
    ensures
        crc16_shifts(x, 8) == crc16_shift(
            crc16_shift(crc16_shift(crc16_shift(crc16_shift(crc16_shift(crc16_shift(crc16_shift(x))))))),
        ),
{
    reveal_with_fuel(crc16_shifts, 9);
}

/// Appending the CRC (high byte first) to the data it protects always gives
/// the same CRC, 0xE2F0: the check a receiver makes on a protected FIG.
pub proof fn lemma_crc16_residue(data: Seq<u8>)
    ensures
        crc16_ccitt_spec(
            data + seq![(crc16_ccitt_spec(data) >> 8u16) as u8, crc16_ccitt_spec(data) as u8],
        ) == 0xE2F0u16,
{
    let r = crc16_register(data);
    let c = r ^ 0xFFFFu16;
    assert(c == crc16_ccitt_spec(data));
    let hi = (c >> 8u16) as u8;
    let lo = c as u8;
    let d2 = data + seq![hi, lo];
    assert(d2.drop_last() =~= data.push(hi));
    assert(data.push(hi).drop_last() =~= data);
    let a0 = r ^ ((hi as u16) << 8u16);
    let a1 = crc16_shift(a0);
    let a2 = crc16_shift(a1);
    let a3 = crc16_shift(a2);
    let a4 = crc16_shift(a3);
    let a5 = crc16_shift(a4);
    let a6 = crc16_shift(a5);
    let a7 = crc16_shift(a6);
    let a8 = crc16_shift(a7);
    lemma_crc16_shifts_8(a0);
    assert(crc16_register(data.push(hi)) == a8);
    let b0 = a8 ^ ((lo as u16) << 8u16);
    let b1 = crc16_shift(b0);
    let b2 = crc16_shift(b1);
    let b3 = crc16_shift(b2);
    let b4 = crc16_shift(b3);
    let b5 = crc16_shift(b4);
    let b6 = crc16_shift(b5);
    let b7 = crc16_shift(b6);
    let b8 = crc16_shift(b7);
    lemma_crc16_shifts_8(b0);
    assert(crc16_register(d2) == b8);
    assert(b8 ^ 0xFFFFu16 == 0xE2F0u16) by (bit_vector)
        requires
            c == r ^ 0xFFFFu16,
            hi == (c >> 8u16) as u8,
            lo == c as u8,
            a0 == r ^ ((hi as u16) << 8u16),
            a1 == crc16_shift(a0),
            a2 == crc16_shift(a1),
            a3 == crc16_shift(a2),
            a4 == crc16_shift(a3),
            a5 == crc16_shift(a4),
            a6 == crc16_shift(a5),
            a7 == crc16_shift(a6),
            a8 == crc16_shift(a7),
            b0 == a8 ^ ((lo as u16) << 8u16),
            b1 == crc16_shift(b0),
            b2 == crc16_shift(b1),
            b3 == crc16_shift(b2),
            b4 == crc16_shift(b3),
            b5 == crc16_shift(b4),
            b6 == crc16_shift(b5),
            b7 == crc16_shift(b6),
            b8 == crc16_shift(b7),
    ;
}

/// Fire code check for DAB+ super frame synchronization (simplified): any
/// header of at least two bytes is accepted, since every combination of the
/// DAC rate and SBR bits is valid for DAB+.
pub fn check_fire_code(header: &[u8]) -> (ok: bool)
    ensures
        ok == (header@.len() >= 2),
{
    if header.len() < 2 {
        return false;
    }
    true
}

/// Feedback bit of the 9-bit PRBS generator x^9 + x^5 + 1.
pub open spec fn prbs_feedback(state: u16) -> u16 {
    ((state >> 8u16) ^ (state >> 4u16)) & 1u16
}

/// The generator state after one clock.
pub open spec fn prbs_next(state: u16) -> u16 {
    ((state << 1u16) | prbs_feedback(state)) & 0x1FFu16
}

/// The generator state after `n` clocks.
pub open spec fn prbs_run(state: u16, n: nat) -> u16
    decreases n,
{
    if n == 0 {
        state
    } else {
        prbs_next(prbs_run(state, (n - 1) as nat))
    }
}

/// The first `n` output bits from `state`, packed most significant bit first.
pub open spec fn prbs_partial_byte(state: u16, n: nat) -> u8
    decreases n,
{
    if n == 0 {
        0u8
    } else {
        let j = (n - 1) as nat;
        prbs_partial_byte(state, j) | (((prbs_feedback(prbs_run(state, j)) as u8) << ((7 - j) as u8)) as u8)
    }
}

/// The generator state at the start of byte `k` (it starts all ones).
pub open spec fn prbs_state_at_byte(k: nat) -> u16
    decreases k,
{
    if k == 0 {
        0x1FFu16
    } else {
        prbs_run(prbs_state_at_byte((k - 1) as nat), 8)
    }
}

/// Byte `k` of the energy dispersal sequence.
pub open spec fn prbs_sequence_byte(k: nat) -> u8 {
    prbs_partial_byte(prbs_state_at_byte(k), 8)
}

/// `data` with the energy dispersal sequence added (XOR) byte by byte.
pub open spec fn dispersed(data: Seq<u8>) -> Seq<u8> {
    Seq::new(data.len(), |k: int| data[k] ^ prbs_sequence_byte(k as nat))
}

/// Energy dispersal (PRBS) for DAB: XORs the data with the output of the
/// 9-bit PRBS generator x^9 + x^5 + 1 started in the all-ones state.
pub fn energy_dispersal(data: &mut [u8])
    ensures
        final(data)@ == dispersed(old(data)@),
{
    let mut prbs: u16 = 0x1FF;
    let n = data.len();
    for k in 0..n
        invariant
            n == data@.len(),
            data@.len() == old(data)@.len(),
            prbs == prbs_state_at_byte(k as nat),
            forall|m: int| 0 <= m < k ==> data@[m] == old(data)@[m] ^ prbs_sequence_byte(m as nat),
            forall|m: int| k <= m < n ==> data@[m] == old(data)@[m],
    {
        let ghost start = prbs;
        let mut prbs_byte: u8 = 0;
        for bit in 0..8u16
            invariant
                prbs == prbs_run(start, bit as nat),
                prbs_byte == prbs_partial_byte(start, bit as nat),
        {
            let feedback = ((prbs >> 8u16) ^ (prbs >> 4u16)) & 1;
            prbs = ((prbs << 1u16) | feedback) & 0x1FF;
            prbs_byte = prbs_byte | (((feedback as u8) << ((7 - bit) as u8)) as u8);
        }
        data[k] = data[k] ^ prbs_byte;
    }
    assert(data@ =~= dispersed(old(data)@));
}

/// Energy dispersal is its own inverse: applying it twice gives the data back.
pub proof fn lemma_energy_dispersal_involution(data: Seq<u8>)
    ensures
        dispersed(dispersed(data)) == data,
{
    assert forall|k: int| 0 <= k < data.len() implies #[trigger] dispersed(dispersed(data))[k] == data[k] by {
        let x = data[k];
        let p = prbs_sequence_byte(k as nat);
        assert((x ^ p) ^ p == x) by (bit_vector);
    }
    assert(dispersed(dispersed(data)) =~= data);
}

/// Clocking the generator `a` times and then `b` times is clocking it
/// `a + b` times.
proof fn lemma_prbs_run_add(state: u16, a: nat, b: nat)
    ensures
        prbs_run(prbs_run(state, a), b) == prbs_run(state, a + b),
    decreases b,
{
    if b > 0 {
        lemma_prbs_run_add(state, a, (b - 1) as nat);
    }
}

/// The dispersal sequence is one unbroken run of the generator started
/// once from all ones: byte `k` is made of its output bits `8k` to
/// `8k + 7`, so each byte starts where the one before left off.
pub proof fn lemma_prbs_one_run(k: nat)
    ensures
        prbs_state_at_byte(k) == prbs_run(0x1FFu16, 8 * k),
        prbs_state_at_byte(k + 1) == prbs_run(prbs_state_at_byte(k), 8),
        prbs_sequence_byte(k) == prbs_partial_byte(prbs_run(0x1FFu16, 8 * k), 8),
    decreases k,
{
    if k > 0 {
        lemma_prbs_one_run((k - 1) as nat);
        lemma_prbs_run_add(0x1FFu16, 8 * (k - 1) as nat, 8);
        assert(8 * (k - 1) as nat + 8 == 8 * k) by (nonlinear_arith)
            requires
                k > 0,
        ;
    }
}

/// The predecessors of a trellis state are exactly `ns >> 1` and
/// `(ns >> 1) | 32`, both on input bit `ns & 1`.
proof fn lemma_trellis_predecessors(st: usize, ns: usize)
    requires
        st < 64,
        ns < 64,
    ensures
        (ns == (((st << 1usize) | (ns & 1usize)) & 63usize)) <==> (st == (ns >> 1usize) || st == ((
        ns >> 1usize) | 32usize)),
        (ns >> 1usize) != ((ns >> 1usize) | 32usize),
        (ns >> 1usize) < 64,
        ((ns >> 1usize) | 32usize) < 64,
        (ns & 1usize) < 2,
{
    assert((ns == (((st << 1usize) | (ns & 1usize)) & 63usize)) <==> (st == (ns >> 1usize) || st
        == ((ns >> 1usize) | 32usize))) by (bit_vector)
        requires
            st < 64,
            ns < 64,
    ;
    assert((ns >> 1usize) != ((ns >> 1usize) | 32usize) && (ns >> 1usize) < 64 && ((ns >> 1usize)
        | 32usize) < 64 && (ns & 1usize) < 2) by (bit_vector)
        requires
            ns < 64,
    ;
}

/// The successor of state `st` on bit `b` is a state whose low bit is `b`.
proof fn lemma_trellis_successor(st: usize, b: usize)
    requires
        st < 64,
        b < 2,
    ensures
        (((st << 1usize) | b) & 63usize) < 64,
        ((((st << 1usize) | b) & 63usize) & 1usize) == b,
        ((st << 1usize) | b) < 128,
{
    assert((((st << 1usize) | b) & 63usize) < 64 && ((((st << 1usize) | b) & 63usize) & 1usize)
        == b && ((st << 1usize) | b) < 128) by (bit_vector)
        requires
            st < 64,
            b < 2,
    ;
}

/// Parity of the set bits of `x`.
fn parity_of(x: usize) -> (p: u8)
    ensures
        p as nat == bit_parity(x as nat),
{
    let mut v = x;
    let mut p: u8 = 0;
    while v > 0
        invariant
            p < 2,
            (p as nat + bit_parity(v as nat)) % 2 == bit_parity(x as nat),
        decreases v,
    {
        p = ((p as usize + v % 2) % 2) as u8;
        v = v / 2;
    }
    p
}

/// Hamming distance between the received symbol and the code bits of `reg`.
fn branch_metric_of(reg: usize, rx: &Vec<u8>) -> (bm: u32)
    requires
        rx@.len() == 4,
    ensures
        bm == branch_metric(reg, rx@),
        bm <= 4,
{
    // DAB convolutional code polynomials (octal): 133, 171, 145, 133
    let polynomials: [u8; 4] = [0o133, 0o171, 0o145, 0o133];
    let mut bm: u32 = 0;
    for j in 0..4usize
        invariant
            rx@.len() == 4,
            polynomials@ == seq![0o133u8, 0o171u8, 0o145u8, 0o133u8],
            bm == code_bit_mismatches(reg, rx@, j as nat),
            bm <= j,
    {
        let poly = polynomials[j];
        let expected = parity_of(reg & poly as usize);
        let diff: u32 = if expected == rx[j] { 0 } else { 1 };
        bm = bm + diff;
    }
    bm
}

/// The metric a transition from state `s` on input bit `b` offers.
fn transition_of(metrics: &Vec<u32>, s: usize, b: usize, rx: &Vec<u8>) -> (t: u32)
    requires
        metrics@.len() == 64,
        rx@.len() == 4,
        s < 64,
        b < 2,
    ensures
        t == transition_metric(metrics@, s, b, rx@),
{
    if metrics[s] == u32::MAX {
        // an unreached state offers no transition
        u32::MAX
    } else {
        proof {
            lemma_trellis_successor(s, b);
        }
        let reg = (s << 1) | b;
        let branch = branch_metric_of(reg, rx);
        let current = metrics[s];
        if current > u32::MAX - branch {
            u32::MAX
        } else {
            current + branch
        }
    }
}

/// One add-compare-select step over all 64 states: each state keeps the
/// better of its two incoming transitions and remembers where it came from.
fn trellis_step(metrics: &Vec<u32>, rx: &Vec<u8>) -> (res: (Vec<u32>, Vec<u8>))
    requires
        metrics@.len() == 64,
        rx@.len() == 4,
    ensures
        res.0@ == step_metrics(metrics@, rx@),
        res.1@ == step_traces(metrics@, rx@),
{
    let mut new_metrics: Vec<u32> = Vec::new();
    let mut trace: Vec<u8> = Vec::new();
    for ns in 0..64usize
        invariant
            metrics@.len() == 64,
            rx@.len() == 4,
            new_metrics@.len() == ns,
            trace@.len() == ns,
            forall|k: int| 0 <= k < ns ==> #[trigger] new_metrics@[k] == survivor_metric(metrics@, k as usize, rx@),
            forall|k: int| 0 <= k < ns ==> #[trigger] trace@[k] == survivor_pred(metrics@, k as usize, rx@) as u8,
    {
        proof {
            lemma_trellis_predecessors(0, ns);
        }
        let low = ns >> 1;
        let high = low | 32;
        let bit = ns & 1;
        let t_low = transition_of(metrics, low, bit, rx);
        let t_high = transition_of(metrics, high, bit, rx);
        if t_high < t_low {
            new_metrics.push(t_high);
            trace.push(high as u8);
        } else {
            new_metrics.push(t_low);
            trace.push(low as u8);
        }
    }
    assert(new_metrics@ =~= step_metrics(metrics@, rx@));
    assert(trace@ =~= step_traces(metrics@, rx@));
    (new_metrics, trace)
}

/// Index of the first smallest metric among the first `n` states (the
/// state `min_by_key` picks).
pub open spec fn first_min_index(m: Seq<u32>, n: nat) -> usize
    decreases n,
{
    if n <= 1 {
        0usize
    } else {
        let p = first_min_index(m, (n - 1) as nat);
        if m[n - 1] < m[p as int] {
            (n - 1) as usize
        } else {
            p
        }
    }
}

/// The state the traceback starts from: the best state after the last step.
pub open spec fn traceback_start(encoded: Seq<u8>, steps: nat) -> usize {
    first_min_index(metrics_after(encoded, steps), 64)
}

/// The state visited after `r` traceback steps; each step moves to the
/// predecessor that the traceback table of that trellis step stores.
pub open spec fn traceback_state(encoded: Seq<u8>, steps: nat, r: nat) -> usize
    decreases r,
{
    if r == 0 {
        traceback_start(encoded, steps)
    } else {
        let prev = traceback_state(encoded, steps, (r - 1) as nat);
        traces_at(encoded, (steps - r) as nat)[prev as int] as usize
    }
}

/// The bit decoded at traceback step `r`: the input bit that led into the
/// state visited there, its lowest bit.
pub open spec fn traceback_bit(encoded: Seq<u8>, steps: nat, r: nat) -> u8 {
    (traceback_state(encoded, steps, r) & 1usize) as u8
}

/// Number of decoded bits: one per trellis step, at most `output_bits`.
pub open spec fn decoded_bit_count(encoded_len: nat, output_bits: nat) -> nat {
    let steps = trellis_steps(encoded_len, output_bits);
    if steps < output_bits {
        steps
    } else {
        output_bits
    }
}

/// The decoded bits, in transmission order (the traceback reversed).
pub open spec fn viterbi_bits(encoded: Seq<u8>, output_bits: nat) -> Seq<u8> {
    let steps = trellis_steps(encoded.len(), output_bits);
    let count = decoded_bit_count(encoded.len(), output_bits);
    Seq::new(count, |i: int| traceback_bit(encoded, steps, (count - 1 - i) as nat))
}

/// The first `n` bits of byte `k`, packed most significant bit first.
pub open spec fn packed_byte_prefix(bits: Seq<u8>, k: int, n: nat) -> u8
    decreases n,
{
    if n == 0 {
        0u8
    } else {
        let i = (n - 1) as nat;
        packed_byte_prefix(bits, k, i) | ((bits[8 * k + i] << ((7 - i) as u8)) as u8)
    }
}

/// Bits (one per byte, 0 or 1) packed eight to a byte, most significant bit
/// first; a short last group fills the high bits of the last byte.
pub open spec fn packed_bits(bits: Seq<u8>) -> Seq<u8> {
    Seq::new(
        ((bits.len() + 7) / 8) as nat,
        |k: int|
            packed_byte_prefix(
                bits,
                k,
                if bits.len() - 8 * k < 8 {
                    (bits.len() - 8 * k) as nat
                } else {
                    8
                },
            ),
    )
}

/// The bytes `ViterbiDecoder::decode` returns for `encoded` and `output_bits`.
pub open spec fn viterbi_decode_spec(encoded: Seq<u8>, output_bits: nat) -> Seq<u8> {
    packed_bits(viterbi_bits(encoded, output_bits))
}

/// Every stored predecessor is a state.
proof fn lemma_survivor_preds_small(m: Seq<u32>, rx: Seq<u8>)
    ensures
        forall|ns: int| 0 <= ns < 64 ==> #[trigger] step_traces(m, rx)[ns] < 64,
{
    assert forall|ns: int| 0 <= ns < 64 implies #[trigger] step_traces(m, rx)[ns] < 64 by {
        lemma_trellis_predecessors(0, ns as usize);
    }
}

/// Viterbi decoder for DAB convolutional code
/// DAB uses a rate 1/4, constraint length 7 convolutional code
pub struct ViterbiDecoder {
    constraint_length: usize,
    num_states: usize,
    path_metrics: Vec<u32>,
    traceback: Vec<Vec<u8>>,
}

impl ViterbiDecoder {
    /// The decoder's shape: constraint length 7, 64 states, one metric per state.
    pub closed spec fn wf(&self) -> bool {
        &&& self.constraint_length == VITERBI_CONSTRAINT_LENGTH
        &&& self.num_states == VITERBI_NUM_STATES
        &&& self.path_metrics@.len() == 64
    }

    /// The path metric of every state after the last decode.
    pub closed spec fn metrics_view(&self) -> Seq<u32> {
        self.path_metrics@
    }

    /// The traceback table of every trellis step of the last decode.
    pub closed spec fn traceback_view(&self) -> Seq<Seq<u8>> {
        self.traceback@.map_values(|t: Vec<u8>| t@)
    }

    pub fn new() -> (d: Self)
        ensures
            d.wf(),
            d.metrics_view() == Seq::new(64, |s: int| u32::MAX),
            d.traceback_view() == Seq::<Seq<u8>>::empty(),
    {
        let constraint_length: usize = 7;
        let num_states: usize = 1 << (constraint_length - 1);  // 64 states
        assert(num_states == 64) by (bit_vector)
            requires
                num_states == 1usize << (7usize - 1usize),
        ;
        let d = Self {
            constraint_length,
            num_states,
            path_metrics: vec![u32::MAX; num_states],
            traceback: Vec::new(),
        };
        assert(d.path_metrics@ =~= Seq::new(64, |s: int| u32::MAX));
        assert(d.traceback_view() =~= Seq::<Seq<u8>>::empty());
        d
    }

    /// Decode a block of convolutionally encoded data: four received bytes
    /// (each 0 or 1 when the symbol is right) per information bit.
    /// Always succeeds; the bits are returned packed eight to a byte. The
    /// result depends on the arguments alone, not on earlier decodes. The
    /// code of a message with at most one symbol flipped decodes to the
    /// message.
    pub fn decode(&mut self, encoded: &[u8], output_bits: usize) -> (res: Result<Vec<u8>, DspError>)
        requires
            old(self).wf(),
            output_bits <= isize::MAX,
        ensures
            final(self).wf(),
            res matches Ok(bytes) && bytes@ == viterbi_decode_spec(encoded@, output_bits as nat),
            forall|m: Seq<u8>|
                is_bit_seq(m) && m.len() == output_bits && at_most_one_flip(
                    encoded@,
                    #[trigger] convolutional_code(m),
                ) ==> (res matches Ok(bytes) && bytes@ == packed_bits(m)),
            final(self).metrics_view() == metrics_after(
                encoded@,
                trellis_steps(encoded@.len(), output_bits as nat),
            ),
            final(self).traceback_view() == Seq::new(
                trellis_steps(encoded@.len(), output_bits as nat),
                |k: int| traces_at(encoded@, k as nat),
            ),
    {
        // Reset path metrics
        self.path_metrics = vec![u32::MAX; self.num_states];
        self.path_metrics.set(0, 0);
        self.traceback.clear();
        assert(self.path_metrics@ =~= metrics_after(encoded@, 0));

        // Process each input symbol (4 bytes per information bit)
        let num_symbols = encoded.len() / 4;
        let limit = output_bits + self.constraint_length - 1;
        let steps = if num_symbols < limit { num_symbols } else { limit };
        assert(steps == trellis_steps(encoded@.len(), output_bits as nat));
        for i in 0..steps
            invariant
                self.wf(),
                steps == trellis_steps(encoded@.len(), output_bits as nat),
                steps <= encoded@.len() / 4,
                self.path_metrics@ == metrics_after(encoded@, i as nat),
                self.traceback@.len() == i,
                forall|k: int| 0 <= k < i ==> #[trigger] self.traceback@[k]@ == traces_at(encoded@, k as nat),
        {
            // Received symbol (soft or hard decision)
            let mut rx_bits: Vec<u8> = Vec::new();
            assert(i * 4 + 4 <= encoded@.len()) by (nonlinear_arith)
                requires
                    i < steps,
                    steps <= encoded@.len() / 4,
            ;
            assert(i * 4 + 4 <= encoded.len());
            let base = i * 4;
            for j in 0..4usize
                invariant
                    base == i * 4,
                    i < steps,
                    steps <= encoded@.len() / 4,
                    i * 4 + 4 <= encoded@.len(),
                    rx_bits@ == encoded@.subrange(4 * i as int, 4 * i as int + j as int),
            {
                if base + j < encoded.len() {
                    rx_bits.push(encoded[base + j]);
                } else {
                    rx_bits.push(0);
                }
                assert(rx_bits@ =~= encoded@.subrange(4 * i as int, 4 * i as int + j + 1));
            }
            let (new_metrics, trace) = trellis_step(&self.path_metrics, &rx_bits);
            self.path_metrics = new_metrics;
            self.traceback.push(trace);
        }

        // Traceback from the first best state
        let mut state: usize = 0;
        for s in 1..64usize
            invariant
                self.wf(),
                state < s,
                state == first_min_index(self.path_metrics@, s as nat),
        {
            if self.path_metrics[s] < self.path_metrics[state] {
                state = s;
            }
        }
        let ghost m_final = self.path_metrics@;
        let t = self.traceback.len();
        let count = if t < output_bits { t } else { output_bits };
        let mut output: Vec<u8> = Vec::new();
        let mut r: usize = 0;
        while r < count
            invariant
                self.wf(),
                t == steps,
                self.traceback@.len() == t,
                forall|k: int| 0 <= k < t ==> #[trigger] self.traceback@[k]@ == traces_at(encoded@, k as nat),
                count <= t,
                r <= count,
                output@.len() == r,
                state < 64,
                state == traceback_state(encoded@, steps as nat, r as nat),
                forall|q: int| 0 <= q < r ==> #[trigger] output@[q] == traceback_bit(encoded@, steps as nat, q as nat),
            decreases count - r,
        {
            proof {
                lemma_survivor_preds_small(metrics_after(encoded@, (t - 1 - r) as nat), received_symbol(encoded@, (t - 1 - r) as nat));
            }
            let bit = (state & 1) as u8;
            output.push(bit);
            state = self.traceback[t - 1 - r][state] as usize;
            r = r + 1;
        }

        // The bits were collected last first
        let mut bits: Vec<u8> = Vec::new();
        let mut q: usize = 0;
        while q < count
            invariant
                output@.len() == count,
                q <= count,
                bits@.len() == q,
                forall|p: int| 0 <= p < q ==> #[trigger] bits@[p] == output@[count - 1 - p],
            decreases count - q,
        {
            bits.push(output[count - 1 - q]);
            q = q + 1;
        }
        bits.truncate(output_bits);
        assert(bits@ =~= viterbi_bits(encoded@, output_bits as nat));

        // Pack bits into bytes
        let ghost b = bits@;
        let n = bits.len();
        let mut bytes: Vec<u8> = Vec::new();
        let mut k: usize = 0;
        while k < (n + 7) / 8
            invariant
                b == bits@,
                n == b.len(),
                n <= isize::MAX,
                bytes@.len() == k,
                k <= (n + 7) / 8,
                forall|p: int| 0 <= p < k ==> #[trigger] bytes@[p] == packed_bits(b)[p],
            decreases (n + 7) / 8 - k,
        {
            let chunk = if n - 8 * k < 8 { n - 8 * k } else { 8 };
            let mut byte: u8 = 0;
            for i in 0..chunk
                invariant
                    b == bits@,
                    n == b.len(),
                    k < (n + 7) / 8,
                    chunk <= 8,
                    8 * k + chunk <= n,
                    byte == packed_byte_prefix(b, k as int, i as nat),
            {
                byte = byte | (bits[8 * k + i] << ((7 - i) as u32));
            }
            bytes.push(byte);
            k = k + 1;
        }
        assert(bytes@ =~= packed_bits(b));
        assert(b =~= viterbi_bits(encoded@, output_bits as nat));
        assert(self.traceback_view() =~= Seq::new(steps as nat, |k: int| traces_at(encoded@, k as nat)));
        assert forall|m: Seq<u8>|
            is_bit_seq(m) && m.len() == output_bits && at_most_one_flip(
                encoded@,
                #[trigger] convolutional_code(m),
            ) implies bytes@ == packed_bits(m) by {
            lemma_viterbi_corrects_one_error(m, encoded@);
        }
        Ok(bytes)
    }
}

} // verus!

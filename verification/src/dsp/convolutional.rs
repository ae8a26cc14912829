use vstd::prelude::*;

use crate::dsp::error_correction::{
    bit_parity, branch_metric, code_bit_mismatch, code_bit_mismatches, expected_code_bit,
    first_min_index, metrics_after, packed_bits, received_symbol, step_traces, survivor_metric,
    survivor_pred, traceback_bit, traceback_start, traceback_state, traces_at, transition_metric,
    trellis_steps, viterbi_bits, viterbi_decode_spec, viterbi_polynomial,
};

verus! {

/// Every entry is a bit (0 or 1).
pub open spec fn is_bit_seq(bits: Seq<u8>) -> bool {
    forall|i: int| 0 <= i < bits.len() ==> #[trigger] bits[i] <= 1
}

/// The encoder state after the first `k` bits of `bits`, from state 0.
pub open spec fn path_state(bits: Seq<u8>, k: nat) -> usize
    decreases k,
{
    if k == 0 {
        0usize
    } else {
        ((path_state(bits, (k - 1) as nat) << 1usize) | (bits[k - 1] as usize)) & 63usize
    }
}

/// The encoder's shift register while bit `k` goes in.
pub open spec fn path_register(bits: Seq<u8>, k: nat) -> usize {
    (path_state(bits, k) << 1usize) | (bits[k as int] as usize)
}

/// The DAB rate 1/4, constraint length 7 convolutional code of `bits`
/// (generators 133, 171, 145, 133 octal): four code bits per bit, the
/// encoder starting in state 0.
pub open spec fn convolutional_code(bits: Seq<u8>) -> Seq<u8> {
    Seq::new(4 * bits.len(), |q: int| expected_code_bit(path_register(bits, (q / 4) as nat), q % 4))
}

/// `code` with the symbol at `p` flipped (0 and 1 swapped); unchanged when
/// `p` lies outside it.
pub open spec fn flipped(code: Seq<u8>, p: int) -> Seq<u8> {
    if 0 <= p < code.len() {
        code.update(p, (1 - code[p]) as u8)
    } else {
        code
    }
}

/// `received` is `code` with at most one symbol flipped.
pub open spec fn at_most_one_flip(received: Seq<u8>, code: Seq<u8>) -> bool {
    exists|p: int| received == flipped(code, p)
}

/// Hamming distance between the first `k` received symbols and the code
/// bits that the path of `bits` produces.
pub open spec fn path_cost(bits: Seq<u8>, received: Seq<u8>, k: nat) -> nat
    decreases k,
{
    if k == 0 {
        0
    } else {
        path_cost(bits, received, (k - 1) as nat) + branch_metric(
            path_register(bits, (k - 1) as nat),
            received_symbol(received, (k - 1) as nat),
        ) as nat
    }
}

/// The bits of the path that the traceback tables lead back along from
/// state `s` after `k` trellis steps.
pub open spec fn traced_bits(encoded: Seq<u8>, k: nat, s: usize) -> Seq<u8>
    decreases k,
{
    if k == 0 {
        Seq::empty()
    } else {
        traced_bits(
            encoded,
            (k - 1) as nat,
            traces_at(encoded, (k - 1) as nat)[s as int] as usize,
        ).push((s & 1usize) as u8)
    }
}

proof fn lemma_parity_small(x: nat)
    ensures
        bit_parity(x) <= 1,
    decreases x,
{
}

/// Flipping the lowest bit flips the parity.
proof fn lemma_parity_flip(x: usize)
    ensures
        bit_parity((x ^ 1usize) as nat) != bit_parity(x as nat),
{
    let y = x ^ 1usize;
    assert(y / 2 == x / 2 && (y % 2 == 1 <==> x % 2 == 0) && (x == 0 ==> y == 1) && (y == 0 ==> x
        == 1)) by (bit_vector)
        requires
            y == x ^ 1usize,
    ;
    lemma_parity_small((x / 2) as nat);
    assert(bit_parity(1) == 1) by {
        assert(bit_parity(0) == 0);
    }
}

/// Two registers that differ only in the input bit give opposite code bits
/// on every generator (each generator taps the input bit).
proof fn lemma_code_bits_differ(s: usize, j: int)
    requires
        s < 64,
        0 <= j < 4,
    ensures
        expected_code_bit((s << 1usize) | 1usize, j) != expected_code_bit((s << 1usize) | 0usize, j),
        expected_code_bit((s << 1usize) | 1usize, j) <= 1,
        expected_code_bit((s << 1usize) | 0usize, j) <= 1,
{
    let p = viterbi_polynomial(j);
    let r0 = (s << 1usize) | 0usize;
    let r1 = (s << 1usize) | 1usize;
    assert(p & 1usize == 1usize) by (bit_vector)
        requires
            p == 0o133usize || p == 0o171usize || p == 0o145usize,
    ;
    assert((r1 & p) == ((r0 & p) ^ 1usize)) by (bit_vector)
        requires
            r0 == (s << 1usize) | 0usize,
            r1 == (s << 1usize) | 1usize,
            p & 1usize == 1usize,
    ;
    lemma_parity_flip(r0 & p);
    lemma_parity_small((r0 & p) as nat);
    lemma_parity_small((r1 & p) as nat);
}

/// A branch metric is the sum of its four mismatches.
proof fn lemma_branch_sum(reg: usize, rx: Seq<u8>)
    ensures
        branch_metric(reg, rx) == code_bit_mismatch(reg, rx, 0) + code_bit_mismatch(reg, rx, 1)
            + code_bit_mismatch(reg, rx, 2) + code_bit_mismatch(reg, rx, 3),
{
    reveal_with_fuel(code_bit_mismatches, 5);
}

/// The states and costs of a path depend only on its first `k` bits.
proof fn lemma_path_prefix(x: Seq<u8>, y: Seq<u8>, received: Seq<u8>, k: nat)
    requires
        k <= x.len(),
        k <= y.len(),
        forall|i: int| 0 <= i < k ==> x[i] == y[i],
    ensures
        path_state(x, k) == path_state(y, k),
        path_cost(x, received, k) == path_cost(y, received, k),
    decreases k,
{
    if k > 0 {
        lemma_path_prefix(x, y, received, (k - 1) as nat);
    }
}

/// Costs only grow along a path.
proof fn lemma_cost_monotone(x: Seq<u8>, received: Seq<u8>, k: nat, l: nat)
    requires
        k <= l,
    ensures
        path_cost(x, received, k) <= path_cost(x, received, l),
    decreases l,
{
    if k < l {
        lemma_cost_monotone(x, received, k, (l - 1) as nat);
    }
}

/// Path states are states.
proof fn lemma_path_state_small(x: Seq<u8>, k: nat)
    ensures
        path_state(x, k) < 64,
    decreases k,
{
    if k > 0 {
        let s = path_state(x, (k - 1) as nat);
        let b = x[k - 1] as usize;
        assert(((s << 1usize) | b) & 63usize < 64) by (bit_vector);
    }
}

proof fn lemma_traced_len(encoded: Seq<u8>, k: nat, s: usize)
    ensures
        traced_bits(encoded, k, s).len() == k,
    decreases k,
{
    if k > 0 {
        lemma_traced_len(encoded, (k - 1) as nat, traces_at(encoded, (k - 1) as nat)[s as int] as usize);
    }
}

/// The survivor metric is the metric of the transition from the stored
/// predecessor, which is a predecessor of `ns`.
proof fn lemma_survivor_from_pred(m: Seq<u32>, ns: usize, rx: Seq<u8>)
    requires
        ns < 64,
    ensures
        survivor_metric(m, ns, rx) == transition_metric(m, survivor_pred(m, ns, rx), ns & 1usize, rx),
        survivor_pred(m, ns, rx) < 64,
        ((survivor_pred(m, ns, rx) << 1usize) | (ns & 1usize)) & 63usize == ns,
        step_traces(m, rx)[ns as int] as usize == survivor_pred(m, ns, rx),
{
    let a = ns >> 1usize;
    let b = a | 32usize;
    let bit = ns & 1usize;
    assert(a < 64 && b < 64 && ((a << 1usize) | bit) & 63usize == ns && ((b << 1usize) | bit)
        & 63usize == ns) by (bit_vector)
        requires
            ns < 64,
            a == ns >> 1usize,
            b == a | 32usize,
            bit == ns & 1usize,
    ;
}

/// The survivor metric is no worse than any one incoming transition.
proof fn lemma_survivor_le(m: Seq<u32>, s: usize, bit: usize, rx: Seq<u8>)
    requires
        s < 64,
        bit < 2,
    ensures
        survivor_metric(m, ((s << 1usize) | bit) & 63usize, rx) <= transition_metric(m, s, bit, rx),
{
    let ns = ((s << 1usize) | bit) & 63usize;
    assert((ns >> 1usize == s || (ns >> 1usize) | 32usize == s) && ns & 1usize == bit) by (bit_vector)
        requires
            s < 64,
            bit < 2,
            ns == ((s << 1usize) | bit) & 63usize,
    ;
}

/// Following the stored predecessors back from a reached state gives a
/// path from state 0 that ends there and whose cost is the state's metric.
proof fn lemma_traced_path(encoded: Seq<u8>, k: nat, s: usize)
    requires
        s < 64,
        metrics_after(encoded, k)[s as int] < u32::MAX,
    ensures
        traced_bits(encoded, k, s).len() == k,
        path_state(traced_bits(encoded, k, s), k) == s,
        path_cost(traced_bits(encoded, k, s), encoded, k) == metrics_after(encoded, k)[s as int],
    decreases k,
{
    lemma_traced_len(encoded, k, s);
    if k > 0 {
        let j = (k - 1) as nat;
        let mj = metrics_after(encoded, j);
        let rx = received_symbol(encoded, j);
        lemma_survivor_from_pred(mj, s, rx);
        let p = survivor_pred(mj, s, rx);
        assert(traces_at(encoded, j)[s as int] as usize == p);
        assert(metrics_after(encoded, k)[s as int] == survivor_metric(mj, s, rx));
        lemma_traced_path(encoded, j, p);
        let x = traced_bits(encoded, j, p);
        let bit = (s & 1usize) as u8;
        let xb = traced_bits(encoded, k, s);
        assert(xb == x.push(bit));
        assert(bit as usize == s & 1usize) by (bit_vector)
            requires
                bit == (s & 1usize) as u8,
        ;
        lemma_path_prefix(x, xb, encoded, j);
        assert(path_register(xb, j) == (p << 1usize) | (s & 1usize));
    }
}

/// There are 64 path metrics after every step.
proof fn lemma_metrics_len(encoded: Seq<u8>, k: nat)
    ensures
        metrics_after(encoded, k).len() == 64,
{
}

/// Along the message path the metrics never exceed the path's cost.
proof fn lemma_message_metric(m: Seq<u8>, received: Seq<u8>, k: nat)
    requires
        is_bit_seq(m),
        k <= m.len(),
        path_cost(m, received, k) < u32::MAX,
    ensures
        metrics_after(received, k)[path_state(m, k) as int] <= path_cost(m, received, k),
    decreases k,
{
    if k == 0 {
    } else {
        let j = (k - 1) as nat;
        lemma_cost_monotone(m, received, j, k);
        lemma_message_metric(m, received, j);
        lemma_path_state_small(m, j);
        let s = path_state(m, j);
        let bit = m[j as int] as usize;
        assert(m[j as int] <= 1);
        lemma_metrics_len(received, j);
        lemma_path_state_small(m, k);
        lemma_survivor_le(metrics_after(received, j), s, bit, received_symbol(received, j));
        assert(path_state(m, k) == ((s << 1usize) | bit) & 63usize);
        assert(path_register(m, j) == (s << 1usize) | bit);
    }
}

/// The first smallest metric is no larger than any.
proof fn lemma_first_min(m: Seq<u32>, n: nat)
    requires
        1 <= n <= m.len(),
        n <= 64,
    ensures
        first_min_index(m, n) < n,
        forall|s: int| 0 <= s < n ==> m[first_min_index(m, n) as int] <= #[trigger] m[s],
    decreases n,
{
    if n > 1 {
        lemma_first_min(m, (n - 1) as nat);
    }
}

/// The traceback walks the traced path backwards: after `r` steps it stands
/// where the path stood after `steps - r` bits, reading that path's bits.
proof fn lemma_traceback_follows(encoded: Seq<u8>, steps: nat, r: nat)
    requires
        r <= steps,
    ensures
        traced_bits(encoded, steps, traceback_start(encoded, steps)).subrange(0, steps - r)
            == traced_bits(encoded, (steps - r) as nat, traceback_state(encoded, steps, r)),
    decreases r,
{
    let start = traceback_start(encoded, steps);
    lemma_traced_len(encoded, steps, start);
    if r == 0 {
        assert(traced_bits(encoded, steps, start).subrange(0, steps as int) =~= traced_bits(encoded, steps, start));
    } else {
        let q = (r - 1) as nat;
        lemma_traceback_follows(encoded, steps, q);
        let k = (steps - q) as nat;
        let s = traceback_state(encoded, steps, q);
        let t = traced_bits(encoded, k, s);
        assert(t == traced_bits(encoded, (k - 1) as nat, traces_at(encoded, (k - 1) as nat)[s as int] as usize).push((s & 1usize) as u8));
        lemma_traced_len(encoded, (k - 1) as nat, traces_at(encoded, (k - 1) as nat)[s as int] as usize);
        assert(traced_bits(encoded, steps, start).subrange(0, steps - r) =~= t.subrange(0, (k - 1) as int));
    }
}

/// The decoded bits are the bits of the path traced back from the best state.
proof fn lemma_decoded_is_traced(encoded: Seq<u8>, n: nat)
    requires
        encoded.len() == 4 * n,
    ensures
        viterbi_bits(encoded, n) == traced_bits(encoded, n, traceback_start(encoded, n)),
{
    let start = traceback_start(encoded, n);
    let t = traced_bits(encoded, n, start);
    assert(trellis_steps(encoded.len(), n) == n) by (nonlinear_arith)
        requires
            encoded.len() == 4 * n,
    ;
    lemma_traced_len(encoded, n, start);
    assert forall|i: int| 0 <= i < n implies #[trigger] viterbi_bits(encoded, n)[i] == t[i] by {
        let r = (n - 1 - i) as nat;
        lemma_traceback_follows(encoded, n, r);
        let s = traceback_state(encoded, n, r);
        let k = (n - r) as nat;
        let u = traced_bits(encoded, k, s);
        assert(u == traced_bits(encoded, (k - 1) as nat, traces_at(encoded, (k - 1) as nat)[s as int] as usize).push((s & 1usize) as u8));
        lemma_traced_len(encoded, (k - 1) as nat, traces_at(encoded, (k - 1) as nat)[s as int] as usize);
        assert(t.subrange(0, k as int)[i] == t[i]);
        assert(viterbi_bits(encoded, n)[i] == traceback_bit(encoded, n, r));
    }
    assert(viterbi_bits(encoded, n) =~= t);
}

/// The received symbol of a step holds the code bits of the message path,
/// except at the flipped position.
proof fn lemma_received_bit(m: Seq<u8>, p: int, j: nat, q: int)
    requires
        is_bit_seq(m),
        j < m.len(),
        0 <= q < 4,
    ensures
        received_symbol(flipped(convolutional_code(m), p), j)[q] == convolutional_code(m)[4 * j + q]
            || 4 * j + q == p,
        convolutional_code(m)[4 * j + q] == expected_code_bit(path_register(m, j), q),
        convolutional_code(m)[4 * j + q] <= 1,
        flipped(convolutional_code(m), p).len() == 4 * m.len(),
{
    let c = convolutional_code(m);
    assert((4 * j + q) / 4 == j && (4 * j + q) % 4 == q) by (nonlinear_arith)
        requires
            0 <= q < 4,
    ;
    assert(4 * j + q < 4 * m.len());
    lemma_path_state_small(m, j);
    let s = path_state(m, j);
    assert(m[j as int] <= 1);
    lemma_code_bits_differ(s, q);
    if m[j as int] == 0 {
        assert(path_register(m, j) == (s << 1usize) | 0usize);
    } else {
        assert(path_register(m, j) == (s << 1usize) | 1usize);
    }
}

/// The message path costs at most one: the one flipped symbol.
proof fn lemma_message_cost(m: Seq<u8>, p: int, k: nat)
    requires
        is_bit_seq(m),
        k <= m.len(),
    ensures
        path_cost(m, flipped(convolutional_code(m), p), k) <= (if 0 <= p < 4 * k {
            1int
        } else {
            0int
        }),
    decreases k,
{
    if k > 0 {
        let j = (k - 1) as nat;
        lemma_message_cost(m, p, j);
        let r = flipped(convolutional_code(m), p);
        let rx = received_symbol(r, j);
        let reg = path_register(m, j);
        lemma_branch_sum(reg, rx);
        assert forall|q: int| 0 <= q < 4 implies code_bit_mismatch(reg, rx, q) <= (if 4 * j + q == p {
            1int
        } else {
            0int
        }) by {
            lemma_received_bit(m, p, j, q);
        }
    }
}

/// A path that leaves the message path at step `j` costs at least three.
proof fn lemma_diverging_cost(m: Seq<u8>, x: Seq<u8>, p: int, j: nat)
    requires
        is_bit_seq(m),
        is_bit_seq(x),
        x.len() == m.len(),
        j < m.len(),
        forall|i: int| 0 <= i < j ==> x[i] == m[i],
        x[j as int] != m[j as int],
    ensures
        path_cost(x, flipped(convolutional_code(m), p), m.len()) >= 3,
{
    let r = flipped(convolutional_code(m), p);
    lemma_path_prefix(x, m, r, j);
    lemma_path_state_small(m, j);
    let s = path_state(m, j);
    let rx = received_symbol(r, j);
    let reg = path_register(x, j);
    lemma_branch_sum(reg, rx);
    assert(x[j as int] <= 1 && m[j as int] <= 1);
    assert forall|q: int| 0 <= q < 4 && 4 * j + q != p implies code_bit_mismatch(reg, rx, q) == 1 by {
        lemma_received_bit(m, p, j, q);
        lemma_code_bits_differ(s, q);
        if x[j as int] == 0 {
            assert(reg == (s << 1usize) | 0usize);
            assert(path_register(m, j) == (s << 1usize) | 1usize);
        } else {
            assert(reg == (s << 1usize) | 1usize);
            assert(path_register(m, j) == (s << 1usize) | 0usize);
        }
    }
    assert(branch_metric(reg, rx) >= 3) by {
        if p == 4 * j {
            assert(code_bit_mismatch(reg, rx, 1) == 1);
        } else {
            assert(code_bit_mismatch(reg, rx, 0) == 1);
        }
        if p == 4 * j + 1 {
            assert(code_bit_mismatch(reg, rx, 0) == 1);
        } else {
            assert(code_bit_mismatch(reg, rx, 1) == 1);
        }
        assert(code_bit_mismatch(reg, rx, 2) == 1 || 4 * j + 2 == p);
        assert(code_bit_mismatch(reg, rx, 3) == 1 || 4 * j + 3 == p);
    }
    lemma_cost_monotone(x, r, (j + 1) as nat, m.len());
}

/// A path of at most cost two agrees with the message on its first `k` bits.
proof fn lemma_agrees(m: Seq<u8>, x: Seq<u8>, p: int, k: nat)
    requires
        is_bit_seq(m),
        is_bit_seq(x),
        x.len() == m.len(),
        k <= m.len(),
        path_cost(x, flipped(convolutional_code(m), p), m.len()) <= 2,
    ensures
        forall|i: int| 0 <= i < k ==> x[i] == m[i],
    decreases k,
{
    if k > 0 {
        lemma_agrees(m, x, p, (k - 1) as nat);
        if x[k - 1] != m[k - 1] {
            lemma_diverging_cost(m, x, p, (k - 1) as nat);
        }
    }
}

/// Viterbi decoding inverts the DAB convolutional encoder and corrects a
/// single error: the code of a message, with at most one received symbol
/// flipped, decodes to the message packed into bytes.
pub proof fn lemma_viterbi_corrects_one_error(m: Seq<u8>, received: Seq<u8>)
    requires
        is_bit_seq(m),
        at_most_one_flip(received, convolutional_code(m)),
    ensures
        viterbi_decode_spec(received, m.len()) == packed_bits(m),
{
    let p = choose|p: int| received == flipped(convolutional_code(m), p);
    let n = m.len();
    let c = convolutional_code(m);
    assert(received.len() == 4 * n);
    lemma_message_cost(m, p, n);
    lemma_message_metric(m, received, n);
    lemma_path_state_small(m, n);
    let fin = metrics_after(received, n);
    assert(fin.len() == 64) by {
        if n > 0 {
            assert(fin == crate::dsp::error_correction::step_metrics(
                metrics_after(received, (n - 1) as nat),
                received_symbol(received, (n - 1) as nat),
            ));
        }
    }
    lemma_first_min(fin, 64);
    let start = traceback_start(received, n);
    assert(fin[start as int] <= fin[path_state(m, n) as int]);
    lemma_traced_path(received, n, start);
    let x = traced_bits(received, n, start);
    assert(is_bit_seq(x)) by {
        assert forall|i: int| 0 <= i < x.len() implies #[trigger] x[i] <= 1 by {
            lemma_decoded_is_traced(received, n);
            let r = (n - 1 - i) as nat;
            let s = traceback_state(received, n, r);
            assert(((s & 1usize) as u8) <= 1) by (bit_vector);
            assert(viterbi_bits(received, n)[i] == traceback_bit(received, n, r));
        }
    }
    lemma_agrees(m, x, p, n);
    assert(x =~= m);
    lemma_decoded_is_traced(received, n);
}

} // verus!

//! Laws that relate the operations of a generator to one another.
//!
//! They are stated over the same spec functions that the contracts of the
//! executable functions use, so each holds of whatever those functions do.

use crate::arith::{counter_add, lemma_increment_wraps, repeat};
use crate::drbg::variant::{DrbgVariant, MAX_BYTES_PER_REQUEST};
use crate::drbg::{
    chunk_len, chunk_step, counters_ok, draws_fit, fill_after, fill_done, fill_spec,
    needs_reseed, num_chunks, reseed_required, seeded, variant_generate, variant_reseed,
    variant_reseed_generate, VariantState,
};
use vstd::prelude::*;

verus! {

/// One call that fills a buffer: the buffer's length, the additional input,
/// and what the entropy source hands out while the call runs.
pub struct FillCall {
    pub n: nat,
    pub additional_input: Seq<u8>,
    pub draws: Seq<Seq<u8>>,
}

/// `states` and `outputs` are a history of `calls`: each call takes a state
/// to the next and leaves its output, as the contract of a fill that ran to
/// its end says.
pub open spec fn is_history<M: DrbgVariant>(
    pr: bool,
    calls: Seq<FillCall>,
    states: Seq<VariantState<M::V>>,
    outputs: Seq<Seq<u8>>,
) -> bool {
    &&& states.len() == calls.len() + 1
    &&& outputs.len() == calls.len()
    &&& forall|i: int|
        0 <= i < calls.len() ==> #[trigger] fill_done::<M>(
            pr,
            states[i],
            calls[i].n,
            calls[i].additional_input,
            calls[i].draws,
            states[i + 1],
            outputs[i],
        )
}

/// Determinism.  Two generators that were instantiated from the same
/// entropy, nonce and personalization string, and then served the same
/// calls while their entropy sources handed out the same bytes, went through
/// the same states and gave the same output, byte for byte.
pub proof fn lemma_determinism<M: DrbgVariant>(
    pr: bool,
    entropy_input: Seq<u8>,
    used: Seq<u8>,
    nonce: Option<&[u8]>,
    personalization_string: Seq<u8>,
    calls: Seq<FillCall>,
    states_a: Seq<VariantState<M::V>>,
    outputs_a: Seq<Seq<u8>>,
    states_b: Seq<VariantState<M::V>>,
    outputs_b: Seq<Seq<u8>>,
)
    requires
        is_history::<M>(pr, calls, states_a, outputs_a),
        is_history::<M>(pr, calls, states_b, outputs_b),
        seeded::<M>(states_a[0], entropy_input, used, nonce, personalization_string),
        seeded::<M>(states_b[0], entropy_input, used, nonce, personalization_string),
    ensures
        states_a == states_b,
        outputs_a == outputs_b,
{
    assert forall|i: int| 0 <= i <= calls.len() implies states_a[i] == states_b[i] by {
        lemma_histories_agree::<M>(pr, calls, states_a, outputs_a, states_b, outputs_b, i);
    }
    assert forall|i: int| 0 <= i < calls.len() implies outputs_a[i] == outputs_b[i] by {
        lemma_histories_agree::<M>(pr, calls, states_a, outputs_a, states_b, outputs_b, i);
        assert(fill_done::<M>(
            pr,
            states_a[i],
            calls[i].n,
            calls[i].additional_input,
            calls[i].draws,
            states_a[i + 1],
            outputs_a[i],
        ));
        assert(fill_done::<M>(
            pr,
            states_b[i],
            calls[i].n,
            calls[i].additional_input,
            calls[i].draws,
            states_b[i + 1],
            outputs_b[i],
        ));
    }
    assert(states_a =~= states_b);
    assert(outputs_a =~= outputs_b);
}

/// Two histories of the same calls that start alike are alike up to any point.
proof fn lemma_histories_agree<M: DrbgVariant>(
    pr: bool,
    calls: Seq<FillCall>,
    states_a: Seq<VariantState<M::V>>,
    outputs_a: Seq<Seq<u8>>,
    states_b: Seq<VariantState<M::V>>,
    outputs_b: Seq<Seq<u8>>,
    i: int,
)
    requires
        is_history::<M>(pr, calls, states_a, outputs_a),
        is_history::<M>(pr, calls, states_b, outputs_b),
        states_a[0] == states_b[0],
        0 <= i <= calls.len(),
    ensures
        states_a[i] == states_b[i],
    decreases i,
{
    if i > 0 {
        let j = i - 1;
        lemma_histories_agree::<M>(pr, calls, states_a, outputs_a, states_b, outputs_b, j);
        assert(fill_done::<M>(
            pr,
            states_a[j],
            calls[j].n,
            calls[j].additional_input,
            calls[j].draws,
            states_a[j + 1],
            outputs_a[j],
        ));
        assert(fill_done::<M>(
            pr,
            states_b[j],
            calls[j].n,
            calls[j].additional_input,
            calls[j].draws,
            states_b[j + 1],
            outputs_b[j],
        ));
    }
}

/// While a fill is within the first `n` bytes, and `n` is a whole number of
/// requests, it does not matter how many bytes follow.
proof fn lemma_fill_front<M: DrbgVariant>(
    pr: bool,
    state: VariantState<M::V>,
    n: nat,
    m: nat,
    additional_input: Seq<u8>,
    draws: Seq<Seq<u8>>,
    k: nat,
)
    requires
        n % (MAX_BYTES_PER_REQUEST as nat) == 0,
        k <= num_chunks(n) <= draws.len(),
    ensures
        fill_after::<M>(pr, state, n + m, additional_input, draws, k) == fill_after::<M>(
            pr,
            state,
            n,
            additional_input,
            draws.take(num_chunks(n) as int),
            k,
        ),
    decreases k,
{
    if k > 0 {
        let j = (k - 1) as nat;
        lemma_fill_front::<M>(pr, state, n, m, additional_input, draws, j);
        assert(chunk_len(n + m, j) == chunk_len(n, j));
        assert(draws.take(num_chunks(n) as int)[j as int] == draws[j as int]);
    }
}

/// Behind the first `n` bytes, a whole number of requests, a fill of
/// `n + m` bytes goes on as a fill of `m` bytes would from there.
proof fn lemma_fill_back<M: DrbgVariant>(
    pr: bool,
    state: VariantState<M::V>,
    n: nat,
    m: nat,
    additional_input: Seq<u8>,
    draws: Seq<Seq<u8>>,
    j: nat,
)
    requires
        n % (MAX_BYTES_PER_REQUEST as nat) == 0,
        num_chunks(n) + j <= draws.len(),
        j <= num_chunks(m),
    ensures
        ({
            let q = num_chunks(n);
            let (middle, front) = fill_spec::<M>(
                pr,
                state,
                n,
                additional_input,
                draws.take(q as int),
            );
            let (end, back) = fill_after::<M>(
                pr,
                middle,
                m,
                additional_input,
                draws.skip(q as int),
                j,
            );
            fill_after::<M>(pr, state, n + m, additional_input, draws, q + j) == (
                end,
                front + back,
            )
        }),
    decreases j,
{
    let q = num_chunks(n);
    let (middle, front) = fill_spec::<M>(pr, state, n, additional_input, draws.take(q as int));
    if j == 0 {
        lemma_fill_front::<M>(pr, state, n, m, additional_input, draws, q);
        assert(front + Seq::<u8>::empty() =~= front);
    } else {
        let i = (j - 1) as nat;
        lemma_fill_back::<M>(pr, state, n, m, additional_input, draws, i);
        let (before, back) = fill_after::<M>(
            pr,
            middle,
            m,
            additional_input,
            draws.skip(q as int),
            i,
        );
        assert(n == q * MAX_BYTES_PER_REQUEST);
        assert(chunk_len(n + m, q + i) == chunk_len(m, i));
        assert(draws.skip(q as int)[i as int] == draws[(q + i) as int]);
        let (after, more) = chunk_step::<M>(
            pr,
            before,
            chunk_len(m, i),
            additional_input,
            draws[(q + i) as int],
        );
        assert((front + back) + more =~= front + (back + more));
    }
}

/// Independence of chunking.  Filling `n + m` bytes in one call is filling
/// `n` bytes and then `m` bytes in two, with the same additional input, as
/// long as the first `n` bytes are a whole number of requests: the state at
/// the end is the same, and the output is the two outputs in a row.  The
/// draws of the one call are those of the two, in a row as well.
///
/// A first part that ends within a request is left out on purpose.  A
/// request ends with an update of the working state, so two short requests
/// do not give what one long request gives.
pub proof fn lemma_fill_split<M: DrbgVariant>(
    pr: bool,
    state: VariantState<M::V>,
    n: nat,
    m: nat,
    additional_input: Seq<u8>,
    draws: Seq<Seq<u8>>,
)
    requires
        n % (MAX_BYTES_PER_REQUEST as nat) == 0,
        draws.len() == num_chunks(n + m),
    ensures
        num_chunks(n + m) == num_chunks(n) + num_chunks(m),
        ({
            let q = num_chunks(n);
            let (middle, front) = fill_spec::<M>(
                pr,
                state,
                n,
                additional_input,
                draws.take(q as int),
            );
            let (end, back) = fill_spec::<M>(
                pr,
                middle,
                m,
                additional_input,
                draws.skip(q as int),
            );
            fill_spec::<M>(pr, state, n + m, additional_input, draws) == (end, front + back)
        }),
{
    let q = num_chunks(n);
    assert(n == q * MAX_BYTES_PER_REQUEST);
    assert(num_chunks(n + m) == q + num_chunks(m));
    lemma_fill_back::<M>(pr, state, n, m, additional_input, draws, num_chunks(m));
}

/// The state after `k` generate requests in a row, none of them refused
/// and no reseed between them.
pub open spec fn after_generates<M: DrbgVariant>(
    state: VariantState<M::V>,
    requests: Seq<(nat, Seq<u8>)>,
    k: nat,
) -> VariantState<M::V>
    decreases k,
{
    if k == 0 {
        state
    } else {
        let j = (k - 1) as nat;
        variant_generate::<M>(
            after_generates::<M>(state, requests, j),
            requests[j as int].0,
            requests[j as int].1,
        ).0
    }
}

/// Counter monotonicity.  Every generate request that is let through moves
/// the reseed counter up by one, so after `k` of them in a row it is `k`
/// higher; none of them touches the reseed interval; and a reseed puts the
/// counter back to one.
pub proof fn lemma_counter_monotone<M: DrbgVariant>(
    state: VariantState<M::V>,
    requests: Seq<(nat, Seq<u8>)>,
    k: nat,
    entropy_input: Seq<u8>,
    additional_input: Seq<u8>,
)
    requires
        counters_ok(state),
        k <= requests.len(),
        state.reseed_counter + k <= state.reseed_interval + 1,
    ensures
        after_generates::<M>(state, requests, k).reseed_counter == state.reseed_counter + k,
        after_generates::<M>(state, requests, k).reseed_interval == state.reseed_interval,
        forall|j: nat|
            j < k ==> !reseed_required(#[trigger] after_generates::<M>(state, requests, j)),
        variant_reseed::<M>(
            after_generates::<M>(state, requests, k),
            entropy_input,
            additional_input,
        ).reseed_counter == 1,
    decreases k,
{
    if k > 0 {
        let j = (k - 1) as nat;
        lemma_counter_monotone::<M>(state, requests, j, entropy_input, additional_input);
        assert forall|i: nat| i < k implies !reseed_required(
            #[trigger] after_generates::<M>(state, requests, i),
        ) by {
            if i < j {
            } else {
                assert(i == j);
            }
        }
    }
}

/// Reseed threshold.  A generator without prediction resistance whose
/// counter stands at one serves as many requests as its reseed interval
/// says.  The request after those finds a reseed due: it reseeds from the
/// entropy source, still hands out all the bytes asked for, and leaves the
/// counter at two.
pub proof fn lemma_reseed_threshold<M: DrbgVariant>(
    state: VariantState<M::V>,
    requests: Seq<(nat, Seq<u8>)>,
    n: nat,
    additional_input: Seq<u8>,
    draw: Seq<u8>,
)
    requires
        counters_ok(state),
        state.reseed_counter == 1,
        requests.len() == state.reseed_interval,
    ensures
        forall|j: nat|
            j < requests.len() ==> !needs_reseed(
                false,
                #[trigger] after_generates::<M>(state, requests, j),
            ),
        ({
            let worn = after_generates::<M>(state, requests, requests.len());
            let (after, out) = chunk_step::<M>(false, worn, n, additional_input, draw);
            &&& needs_reseed(false, worn)
            &&& (after, out) == variant_reseed_generate::<M>(worn, draw, n, additional_input)
            &&& out.len() == n
            &&& after.reseed_counter == 2
        }),
{
    lemma_counter_monotone::<M>(state, requests, requests.len(), draw, additional_input);
    let worn = after_generates::<M>(state, requests, requests.len());
    let reseeded = variant_reseed::<M>(worn, draw, additional_input);
    M::lemma_generate_len(reseeded.working, n, Seq::empty(), reseeded.reseed_counter);
}

/// Prediction resistance.  With prediction resistance every generate
/// request starts with a reseed, whatever the counter: the request is a
/// reseed with the entropy drawn and the additional input, followed by the
/// mechanism's generate without additional input.  So in a fill every
/// request draws from the entropy source, once, a seed's worth of bytes.
pub proof fn lemma_prediction_resistance<M: DrbgVariant>(
    state: VariantState<M::V>,
    n: nat,
    additional_input: Seq<u8>,
    draws: Seq<Seq<u8>>,
    k: nat,
)
    requires
        draws_fit::<M>(true, state, n, additional_input, draws, k),
    ensures
        draws.len() == k,
        forall|j: int| 0 <= j < k ==> (#[trigger] draws[j]).len() == M::SECURITY_STRENGTH,
        forall|at: VariantState<M::V>, len: nat, draw: Seq<u8>| #[trigger]
            chunk_step::<M>(true, at, len, additional_input, draw) == variant_reseed_generate::<
                M,
            >(at, draw, len, additional_input),
{
    reveal(draws_fit);
    assert forall|j: int| 0 <= j < k implies (#[trigger] draws[j]).len()
        == M::SECURITY_STRENGTH by {
        let i = j as nat;
        assert(draws[i as int] == draws[j]);
    }
}

/// Counter wraparound.  Incrementing a counter whose bytes are all `0xff`
/// gives the counter whose bytes are all zero, at every length.
pub proof fn lemma_counter_wraparound(n: nat)
    ensures
        counter_add(repeat(0xff, n), 1) == repeat(0x00, n),
{
    lemma_increment_wraps(n);
}

} // verus!

//! Channel-count adaptation between an input and an output device.
//!
//! The adaptation is deliberately naive: samples are replicated or dropped by
//! the integer ratio of the two channel counts, not mixed. A remainder of the
//! ratio is discarded.
use vstd::arithmetic::div_mod::lemma_fundamental_div_mod;
use vstd::prelude::*;

verus! {

/// The pair `(produce_factor, consume_factor)` for the given channel counts.
///
/// A zero count stands for an unknown or failed query.
pub open spec fn factor_spec(input_channels: int, output_channels: int) -> (int, int) {
    if input_channels == 0 || output_channels == 0 || input_channels == output_channels {
        (1, 1)
    } else if input_channels > output_channels {
        (1, input_channels / output_channels)
    } else {
        (output_channels / input_channels, 1)
    }
}

/// Computes how many times the capture path replicates each sample
/// (`produce_factor`) and how many queued samples the render path drains for
/// each output slot (`consume_factor`).
pub fn factor(input_channels: u16, output_channels: u16) -> (r: (u16, u16))
    ensures
        r.0 as int == factor_spec(input_channels as int, output_channels as int).0,
        r.1 as int == factor_spec(input_channels as int, output_channels as int).1,
{
    if input_channels == 0 || output_channels == 0 || input_channels == output_channels {
        (1, 1)
    } else if input_channels > output_channels {
        (1, input_channels / output_channels)
    } else {
        (output_channels / input_channels, 1)
    }
}

/// With either count unknown (zero), no adaptation is made: `(1, 1)`.
pub proof fn lemma_factor_unknown_count(x: u16)
    ensures
        factor_spec(0, x as int) == (1int, 1int),
        factor_spec(x as int, 0) == (1int, 1int),
{
}

/// With equal, known counts the factors cross-balance:
/// `produce_factor * output_channels == consume_factor * input_channels`.
pub proof fn lemma_factor_equal_counts_balance(i: u16, o: u16)
    requires
        i > 0,
        i == o,
    ensures
        factor_spec(i as int, o as int).0 * o == factor_spec(i as int, o as int).1 * i,
{
}

/// When one count is an exact multiple of the other, the samples produced per
/// input frame match the samples consumed per output frame:
/// `produce_factor * input_channels == consume_factor * output_channels`.
pub proof fn lemma_factor_exact_multiple_balance(i: u16, o: u16)
    requires
        i > 0,
        o > 0,
        i % o == 0 || o % i == 0,
    ensures
        factor_spec(i as int, o as int).0 * i == factor_spec(i as int, o as int).1 * o,
{
    if i > o {
        vstd::arithmetic::div_mod::lemma_small_mod(o as nat, i as nat);
        lemma_fundamental_div_mod(i as int, o as int);
        assert((i as int / o as int) * o == i) by (nonlinear_arith)
            requires
                i as int == o * (i as int / o as int) + 0,
        ;
    } else if o > i {
        vstd::arithmetic::div_mod::lemma_small_mod(i as nat, o as nat);
        lemma_fundamental_div_mod(o as int, i as int);
        assert((o as int / i as int) * i == o) by (nonlinear_arith)
            requires
                o as int == i * (o as int / i as int) + 0,
        ;
    }
}

/// When neither count is a multiple of the other, the device with more
/// channels drives a factor equal to the truncated ratio of the counts, and
/// the other factor is one.
pub proof fn lemma_factor_truncated_ratio(i: u16, o: u16)
    requires
        i > 0,
        o > 0,
        i % o != 0,
        o % i != 0,
    ensures
        i > o ==> factor_spec(i as int, o as int) == (1int, i as int / o as int),
        o > i ==> factor_spec(i as int, o as int) == (o as int / i as int, 1int),
        factor_spec(i as int, o as int).0 == 1 || factor_spec(i as int, o as int).1 == 1,
        factor_spec(i as int, o as int).0 >= 1 && factor_spec(i as int, o as int).1 >= 1,
{
    if i > o {
        vstd::arithmetic::div_mod::lemma_div_is_ordered(o as int, i as int, o as int);
        vstd::arithmetic::div_mod::lemma_div_by_self(o as int);
    } else {
        vstd::arithmetic::div_mod::lemma_div_is_ordered(i as int, o as int, i as int);
        vstd::arithmetic::div_mod::lemma_div_by_self(i as int);
    }
}

} // verus!

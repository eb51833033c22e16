//! From encoded elements to the gain settings and durations of one
//! transmission cycle.

use vstd::prelude::*;
use crate::morse::{encode, encoding_of, EncodedMessage, Message, SignalElement};

verus! {

/// Length of one Morse time unit, in milliseconds.
pub const UNIT_MS: u64 = 50;

/// Transmitter gain while keyed, in dB.
pub const GAIN_ON_DB: i64 = -10;

/// Transmitter gain while attenuated, in dB.
pub const GAIN_OFF_DB: i64 = -40;

/// A gain setting held for a duration.
#[derive(Clone, Copy, Debug, PartialEq, Eq, Structural)]
pub struct Step {
    pub gain_db: i64,
    pub duration_ms: u64,
}

/// The steps one element asks for: one for a keyed or attenuated slot, none
/// for a placeholder.
pub open spec fn element_steps(x: SignalElement) -> Seq<Step> {
    match x {
        SignalElement::KeyDown(n) => seq![Step { gain_db: GAIN_ON_DB, duration_ms: (n * UNIT_MS) as u64 }],
        SignalElement::KeyUp(n) => seq![Step { gain_db: GAIN_OFF_DB, duration_ms: (n * UNIT_MS) as u64 }],
        SignalElement::Placeholder => seq![],
    }
}

/// The steps of a run of elements, in order.
pub open spec fn elements_steps(e: Seq<SignalElement>) -> Seq<Step>
    decreases e.len(),
{
    if e.len() == 0 {
        seq![]
    } else {
        elements_steps(e.drop_last()) + element_steps(e.last())
    }
}

/// The steps of a whole encoded message, entry after entry.
pub open spec fn message_steps(m: Seq<Seq<SignalElement>>) -> Seq<Step>
    decreases m.len(),
{
    if m.len() == 0 {
        seq![]
    } else {
        message_steps(m.drop_last()) + elements_steps(m.last())
    }
}

fn push_element_steps(out: &mut Vec<Step>, x: SignalElement)
    ensures
        final(out)@ == old(out)@ + element_steps(x),
{
    match x {
        SignalElement::KeyDown(n) => {
            out.push(Step { gain_db: GAIN_ON_DB, duration_ms: n as u64 * UNIT_MS });
        },
        SignalElement::KeyUp(n) => {
            out.push(Step { gain_db: GAIN_OFF_DB, duration_ms: n as u64 * UNIT_MS });
        },
        SignalElement::Placeholder => {},
    }
    proof {
        assert(final(out)@ =~= old(out)@ + element_steps(x));
    }
}

/// The gain settings and durations of one pass over `encoded`, in order;
/// placeholders take no step.
pub fn cycle_steps(encoded: &EncodedMessage) -> (r: Vec<Step>)
    ensures
        r@ == message_steps(encoded@),
{
    let mut out: Vec<Step> = Vec::new();
    let n = encoded.len();
    let mut i: usize = 0;
    while i < n
        invariant
            n == encoded@.len(),
            i <= n,
            out@ == message_steps(encoded@.subrange(0, i as int)),
        decreases n - i,
    {
        let entry = encoded.entry(i);
        let ghost before = out@;
        let mut j: usize = 0;
        while j < entry.len()
            invariant
                entry@ == encoded@[i as int],
                j <= entry@.len(),
                out@ == before + elements_steps(entry@.subrange(0, j as int)),
            decreases entry@.len() - j,
        {
            push_element_steps(&mut out, entry[j]);
            j = j + 1;
            proof {
                let done = entry@.subrange(0, j as int);
                assert(done.drop_last() =~= entry@.subrange(0, j - 1));
                assert(before + elements_steps(done) =~= before + elements_steps(done.drop_last())
                    + element_steps(done.last()));
            }
        }
        i = i + 1;
        proof {
            let done = encoded@.subrange(0, i as int);
            assert(done.drop_last() =~= encoded@.subrange(0, i - 1));
            assert(entry@.subrange(0, j as int) =~= entry@);
            assert(out@ =~= message_steps(done));
        }
    }
    proof {
        assert(encoded@.subrange(0, i as int) =~= encoded@);
    }
    out
}

/// The steps of one pass over `msg`, derived afresh from its text; the same
/// message always gives the same steps.
pub fn message_plan(msg: &Message) -> (r: Vec<Step>)
    ensures
        r@ == message_steps(encoding_of(msg@)),
{
    let encoded = encode(msg);
    cycle_steps(&encoded)
}

} // verus!

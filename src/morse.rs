//! Text to Morse timing elements, through the `morse_codec` character table.

use vstd::prelude::*;
use morse_codec::encoder::{Encoder, SDM};
use morse_codec::message::Message as CodecMessage;

verus! {

/// Most characters a message holds after normalisation.
pub const MESSAGE_CAPACITY: usize = 64;

/// One timed slot of an encoded character, counted in time units.
#[derive(Clone, Copy, Debug, PartialEq, Eq, Structural)]
pub enum SignalElement {
    /// Transmitter keyed at full power for this many units.
    KeyDown(u8),
    /// Transmitter attenuated for this many units.
    KeyUp(u8),
    /// No action and no time: an unused slot or an unencodable character.
    Placeholder,
}

/// The message text as the codec keeps it: ASCII only, upper case, bounded.
pub uninterp spec fn normalized_of(text: Seq<char>) -> Seq<u8>;

/// The codec's duration multipliers for one character, absent where its
/// character set has no entry for it.
pub uninterp spec fn elements_of(c: u8) -> Option<Seq<SignalElement>>;

/// Relies on morse_codec's `Message::new` and `Message::as_str`: the message
/// folded to upper case, non-ASCII characters dropped, at most
/// `MESSAGE_CAPACITY` bytes kept.
#[verifier::external_body]
fn codec_normalize(text: &str) -> (r: Vec<u8>)
    ensures
        r@ == normalized_of(text@),
        r@.len() <= MESSAGE_CAPACITY,
{
    CodecMessage::<MESSAGE_CAPACITY>::new(text, true, false).as_str().as_bytes().to_vec()
}

/// Relies on morse_codec's `MorseEncoder::encode_character` (an error where
/// the character is not in the set) and `MorseEncoder::get_last_char_as_sdm`
/// (the character's duration multipliers).
#[verifier::external_body]
fn codec_char_elements(c: u8) -> (r: Option<Vec<SignalElement>>)
    ensures
        match r {
            Some(v) => elements_of(c) == Some(v@),
            None => elements_of(c) is None,
        },
{
    let mut enc = Encoder::<1>::new().build();
    if enc.encode_character(&c).is_err() {
        return None;
    }
    let mut v = Vec::new();
    for s in enc.get_last_char_as_sdm()? {
        v.push(match s {
            SDM::High(n) => SignalElement::KeyDown(n),
            SDM::Low(n) => SignalElement::KeyUp(n),
            SDM::Empty => SignalElement::Placeholder,
        });
    }
    Some(v)
}

/// A normalised message, fixed once built.
pub struct Message {
    text: Vec<u8>,
}

impl View for Message {
    type V = Seq<u8>;

    closed spec fn view(&self) -> Seq<u8> {
        self.text@
    }
}

impl Message {
    /// The message for `text`, normalised as the codec does.
    pub fn new(text: &str) -> (r: Message)
        ensures
            r@ == normalized_of(text@),
            r@.len() <= MESSAGE_CAPACITY,
    {
        Message { text: codec_normalize(text) }
    }

    /// The normalised characters, as ASCII bytes.
    pub fn as_bytes(&self) -> (r: &[u8])
        ensures
            r@ == self@,
    {
        self.text.as_slice()
    }
}

/// What a character contributes to an encoded message: its elements, or a
/// single placeholder where it cannot be encoded.
pub open spec fn char_entry(c: u8) -> Seq<SignalElement> {
    match elements_of(c) {
        Some(e) => e,
        None => seq![SignalElement::Placeholder],
    }
}

/// The encoded form of a normalised message: one entry per character, in order.
pub open spec fn encoding_of(msg: Seq<u8>) -> Seq<Seq<SignalElement>> {
    msg.map_values(|c: u8| char_entry(c))
}

/// The per-character element sequences of a message.
pub struct EncodedMessage {
    entries: Vec<Vec<SignalElement>>,
}

pub open spec fn entries_view(v: Seq<Vec<SignalElement>>) -> Seq<Seq<SignalElement>> {
    v.map_values(|e: Vec<SignalElement>| e@)
}

impl View for EncodedMessage {
    type V = Seq<Seq<SignalElement>>;

    closed spec fn view(&self) -> Seq<Seq<SignalElement>> {
        entries_view(self.entries@)
    }
}

impl EncodedMessage {
    /// Number of entries, one per character of the message.
    pub fn len(&self) -> (r: usize)
        ensures
            r == self@.len(),
    {
        self.entries.len()
    }

    /// The elements of the entry at `i`.
    pub fn entry(&self, i: usize) -> (r: &[SignalElement])
        requires
            i < self@.len(),
        ensures
            r@ == self@[i as int],
    {
        self.entries[i].as_slice()
    }
}

/// Encodes every character of `msg`; unencodable characters become
/// placeholders and do not stop the encoding.
pub fn encode(msg: &Message) -> (r: EncodedMessage)
    ensures
        r@ == encoding_of(msg@),
{
    let bytes = msg.as_bytes();
    let mut out: Vec<Vec<SignalElement>> = Vec::new();
    let mut i: usize = 0;
    while i < bytes.len()
        invariant
            bytes@ == msg@,
            i <= bytes@.len(),
            entries_view(out@) == encoding_of(msg@.subrange(0, i as int)),
        decreases bytes@.len() - i,
    {
        let entry = match codec_char_elements(bytes[i]) {
            Some(v) => v,
            None => vec![SignalElement::Placeholder],
        };
        proof {
            assert(entry@ == char_entry(bytes@[i as int]));
        }
        let ghost prev = out@;
        out.push(entry);
        i = i + 1;
        proof {
            let done = msg@.subrange(0, i as int);
            assert(done.drop_last() =~= msg@.subrange(0, i - 1));
            assert(entries_view(out@) =~= entries_view(prev).push(entry@));
            assert(encoding_of(done) =~= encoding_of(done.drop_last()).push(char_entry(done.last())));
        }
    }
    proof {
        assert(msg@.subrange(0, i as int) =~= msg@);
    }
    EncodedMessage { entries: out }
}

/// Every character of a message has exactly one entry, at its own position:
/// the codec's elements where it has them, a lone placeholder where not.
pub proof fn lemma_encoding_aligned(msg: Seq<u8>)
    ensures
        encoding_of(msg).len() == msg.len(),
        forall|i: int|
            0 <= i < msg.len() && elements_of(msg[i]) is Some ==> #[trigger] encoding_of(msg)[i]
                == elements_of(msg[i]).unwrap(),
        forall|i: int|
            0 <= i < msg.len() && elements_of(msg[i]) is None ==> #[trigger] encoding_of(msg)[i]
                == seq![SignalElement::Placeholder],
{
}

/// Printable notation of one element: `.` for a one-unit key, `-` for a
/// longer one, `/` for a word gap, nothing otherwise.
pub open spec fn element_text(x: SignalElement) -> Seq<u8> {
    match x {
        SignalElement::KeyDown(n) => if n == 1 {
            seq![46u8]
        } else {
            seq![45u8]
        },
        SignalElement::KeyUp(n) => if n == 7 {
            seq![47u8]
        } else {
            seq![]
        },
        SignalElement::Placeholder => seq![],
    }
}

pub open spec fn entry_text(e: Seq<SignalElement>) -> Seq<u8>
    decreases e.len(),
{
    if e.len() == 0 {
        seq![]
    } else {
        entry_text(e.drop_last()) + element_text(e.last())
    }
}

/// Printable notation of an encoded message: each entry that shows anything,
/// followed by a space; entries of placeholders only are left out.
pub open spec fn message_text(m: Seq<Seq<SignalElement>>) -> Seq<u8>
    decreases m.len(),
{
    if m.len() == 0 {
        seq![]
    } else if entry_text(m.last()).len() == 0 {
        message_text(m.drop_last())
    } else {
        message_text(m.drop_last()) + entry_text(m.last()).push(32u8)
    }
}

fn push_element_text(out: &mut Vec<u8>, x: SignalElement)
    ensures
        final(out)@ == old(out)@ + element_text(x),
{
    match x {
        SignalElement::KeyDown(n) => {
            if n == 1 {
                out.push(46u8);
            } else {
                out.push(45u8);
            }
        },
        SignalElement::KeyUp(n) => {
            if n == 7 {
                out.push(47u8);
            }
        },
        SignalElement::Placeholder => {},
    }
    proof {
        assert(final(out)@ =~= old(out)@ + element_text(x));
    }
}

/// Renders `encoded` in dot-dash notation, as ASCII bytes, skipping
/// placeholders.
pub fn render(encoded: &EncodedMessage) -> (r: Vec<u8>)
    ensures
        r@ == message_text(encoded@),
{
    let mut out: Vec<u8> = Vec::new();
    let n = encoded.len();
    let mut i: usize = 0;
    while i < n
        invariant
            n == encoded@.len(),
            i <= n,
            out@ == message_text(encoded@.subrange(0, i as int)),
        decreases n - i,
    {
        let entry = encoded.entry(i);
        let mut text: Vec<u8> = Vec::new();
        let mut j: usize = 0;
        while j < entry.len()
            invariant
                entry@ == encoded@[i as int],
                j <= entry@.len(),
                text@ == entry_text(entry@.subrange(0, j as int)),
            decreases entry@.len() - j,
        {
            push_element_text(&mut text, entry[j]);
            j = j + 1;
            proof {
                assert(entry@.subrange(0, j as int).drop_last() =~= entry@.subrange(0, j - 1));
            }
        }
        proof {
            assert(entry@.subrange(0, j as int) =~= entry@);
        }
        let ghost before = out@;
        if text.len() > 0 {
            text.push(32u8);
            out.append(&mut text);
        }
        i = i + 1;
        proof {
            let done = encoded@.subrange(0, i as int);
            assert(done.drop_last() =~= encoded@.subrange(0, i - 1));
            assert(done.last() == entry@);
            assert(out@ =~= message_text(done));
        }
    }
    proof {
        assert(encoded@.subrange(0, i as int) =~= encoded@);
    }
    out
}

} // verus!

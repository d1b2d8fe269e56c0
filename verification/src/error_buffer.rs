//! The text of an error as it is handed to a caller that owns a buffer of a
//! fixed capacity and reads text up to the first zero byte.

use vstd::prelude::*;
use vstd::string::*;
use vstd::utf8::encode_utf8;
use crate::flags::BufferUsages;

verus! {

/// The text that stands between an error and its cause.
pub open spec fn caused_by() -> Seq<char> {
    ", caused by: "@
}

/// The text of an error and its causes: the message of the error, and behind
/// it, for each cause in turn, `, caused by: ` and the message of the cause.
pub open spec fn chain_text(messages: Seq<String>) -> Seq<char>
    decreases messages.len(),
{
    if messages.len() == 0 {
        Seq::empty()
    } else if messages.len() == 1 {
        messages[0]@
    } else {
        chain_text(messages.drop_last()) + caused_by() + messages.last()@
    }
}

/// The text of an error and its causes, of which `messages` holds the messages
/// in order, the error first.
pub fn error_text(messages: &Vec<String>) -> (r: String)
    ensures
        r@ == chain_text(messages@),
{
    if messages.len() == 0 {
        return String::new();
    }
    let mut text = messages[0].clone();
    let mut i: usize = 1;
    proof {
        assert(messages@.take(1).len() == 1);
        assert(messages@.take(1)[0] == messages@[0]);
    }
    while i < messages.len()
        invariant
            1 <= i <= messages@.len(),
            text@ == chain_text(messages@.take(i as int)),
        decreases messages@.len() - i,
    {
        proof {
            assert(messages@.take(i as int + 1).drop_last() =~= messages@.take(i as int));
            assert(messages@.take(i as int + 1).last() == messages@[i as int]);
        }
        text.append(", caused by: ");
        text.append(messages[i].as_str());
        i += 1;
    }
    proof {
        assert(messages@.take(i as int) =~= messages@);
    }
    text
}

/// The number of bytes of a message of `length` bytes that a buffer of
/// `capacity` bytes takes: all of them if a zero byte fits behind them, else one
/// less than the capacity.
pub open spec fn spec_truncated_length(length: usize, capacity: usize) -> usize {
    if length >= capacity {
        (capacity - 1) as usize
    } else {
        length
    }
}

/// The number of bytes of a message of `length` bytes that a buffer of
/// `capacity` bytes takes.
#[verifier::when_used_as_spec(spec_truncated_length)]
pub fn truncated_length(length: usize, capacity: usize) -> (r: usize)
    requires
        capacity != 0,
    ensures
        r == spec_truncated_length(length, capacity),
{
    if length >= capacity {
        capacity - 1
    } else {
        length
    }
}

/// The bytes that a buffer of `capacity` bytes holds once it is filled with a
/// message: as many bytes of the message as fit, and a zero byte.
pub open spec fn terminated(message: Seq<u8>, capacity: usize) -> Seq<u8> {
    message.take(spec_truncated_length(message.len() as usize, capacity) as int).push(0)
}

/// A buffer of a fixed capacity that takes the text of an error. It holds the
/// text up to its first zero byte; before any error it holds the zero byte alone.
#[derive(Clone, Debug, PartialEq, Eq)]
pub struct ErrorBuffer {
    pub string: Vec<u8>,
    pub capacity: usize,
}

impl ErrorBuffer {
    /// A buffer of the given capacity that holds no text.
    pub fn new(capacity: usize) -> (r: Self)
        requires
            capacity != 0,
        ensures
            r.capacity == capacity,
            r.string@ == seq![0u8],
    {
        let mut string: Vec<u8> = Vec::new();
        string.push(0);
        ErrorBuffer { string, capacity }
    }

    /// Fills the buffer with the text of an error and its causes, of which
    /// `messages` holds the messages in order, the error first. Text that is too
    /// long is cut; a zero byte ends it either way.
    pub fn init(&mut self, messages: &Vec<String>)
        requires
            old(self).capacity != 0,
        ensures
            final(self).capacity == old(self).capacity,
            final(self).string@ == terminated(
                encode_utf8(chain_text(messages@)),
                old(self).capacity,
            ),
            final(self).string@.len() <= old(self).capacity,
    {
        let string = error_text(messages);
        self.init_str(string.as_str());
    }

    /// Fills the buffer with a message. A message that is too long is cut; a
    /// zero byte ends it either way.
    pub fn init_str(&mut self, message: &str)
        requires
            old(self).capacity != 0,
        ensures
            final(self).capacity == old(self).capacity,
            final(self).string@ == terminated(encode_utf8(message@), old(self).capacity),
            final(self).string@.len() <= old(self).capacity,
    {
        let length = truncated_length(message.len(), self.capacity);
        let bytes = message.as_bytes();
        let mut string: Vec<u8> = Vec::new();
        let mut i: usize = 0;
        while i < length
            invariant
                i <= length <= bytes@.len(),
                string@ == bytes@.take(i as int),
            decreases length - i,
        {
            string.push(bytes[i]);
            proof {
                assert(bytes@.take(i as int + 1) =~= bytes@.take(i as int).push(bytes@[i as int]));
            }
            i += 1;
        }
        string.push(0);
        self.string = string;
    }
}

/// The first place of the adapter that was chosen in the list of those to
/// choose from.
pub fn adapter_index(ids: &[u64], chosen: u64) -> (r: usize)
    requires
        ids@.contains(chosen),
    ensures
        r < ids@.len(),
        ids@[r as int] == chosen,
        forall|j: int| 0 <= j < r ==> ids@[j] != chosen,
{
    let mut i: usize = 0;
    while i < ids.len()
        invariant
            i <= ids@.len(),
            ids@.contains(chosen),
            forall|j: int| 0 <= j < i ==> ids@[j] != chosen,
        decreases ids@.len() - i,
    {
        if ids[i] == chosen {
            return i;
        }
        i += 1;
    }
    proof {
        let w = choose|w: int| 0 <= w < ids@.len() && ids@[w] == chosen;
        assert(ids@[w] != chosen);
    }
    0
}

/// The character of a digit.
pub open spec fn digit(d: nat) -> char {
    if d == 0 {
        '0'
    } else if d == 1 {
        '1'
    } else if d == 2 {
        '2'
    } else if d == 3 {
        '3'
    } else if d == 4 {
        '4'
    } else if d == 5 {
        '5'
    } else if d == 6 {
        '6'
    } else if d == 7 {
        '7'
    } else if d == 8 {
        '8'
    } else {
        '9'
    }
}

/// A number in decimal digits, without leading zeros.
pub open spec fn decimal(n: nat) -> Seq<char>
    decreases n,
{
    if n < 10 {
        seq![digit(n)]
    } else {
        decimal(n / 10).push(digit(n % 10))
    }
}

/// The text of a digit.
fn digit_text(d: u32) -> (r: &'static str)
    requires
        d < 10,
    ensures
        r@ == seq![digit(d as nat)],
{
    proof {
        reveal_strlit("0");
        reveal_strlit("1");
        reveal_strlit("2");
        reveal_strlit("3");
        reveal_strlit("4");
        reveal_strlit("5");
        reveal_strlit("6");
        reveal_strlit("7");
        reveal_strlit("8");
        reveal_strlit("9");
    }
    let r = if d == 0 {
        "0"
    } else if d == 1 {
        "1"
    } else if d == 2 {
        "2"
    } else if d == 3 {
        "3"
    } else if d == 4 {
        "4"
    } else if d == 5 {
        "5"
    } else if d == 6 {
        "6"
    } else if d == 7 {
        "7"
    } else if d == 8 {
        "8"
    } else {
        "9"
    };
    assert(r@ =~= seq![digit(d as nat)]);
    r
}

/// A number in decimal digits.
pub fn decimal_text(n: u32) -> (r: String)
    ensures
        r@ == decimal(n as nat),
    decreases n,
{
    if n < 10 {
        String::from_str(digit_text(n))
    } else {
        let mut text = decimal_text(n / 10);
        text.append(digit_text(n % 10));
        proof {
            assert(decimal((n / 10) as nat) + seq![digit((n % 10) as nat)] =~= decimal(
                (n / 10) as nat,
            ).push(digit((n % 10) as nat)));
        }
        text
    }
}

/// The directory that the trace of the device with the given number is written
/// to, under the directory `base`: `base`, a slash, the number, and a slash.
pub fn trace_path(base: &str, index: u32) -> (r: String)
    ensures
        r@ == base@ + seq!['/'] + decimal(index as nat) + seq!['/'],
{
    proof {
        reveal_strlit("/");
    }
    let mut path = String::from_str(base);
    path.append("/");
    let number = decimal_text(index);
    path.append(number.as_str());
    path.append("/");
    proof {
        assert("/"@ =~= seq!['/']);
    }
    path
}

/// Every usage that a buffer can be created for.
pub const BUFFER_USAGE_ALL: u32 = 0x1ff;

/// The message for a buffer that is to be created for usages that there are not.
pub open spec fn invalid_usage_message() -> &'static str {
    "GPUBufferDescriptor's 'usage' includes invalid unimplemented bits or unimplemented usages"
}

/// The usages that a buffer is to be created for, from their bits; or the
/// message of the error, where a bit is set that stands for no usage.
pub fn buffer_usage_from_bits(bits: u32) -> (r: Result<BufferUsages, &'static str>)
    ensures
        bits & !BUFFER_USAGE_ALL == 0 ==> r == Ok::<BufferUsages, &'static str>(
            BufferUsages { bits },
        ),
        bits & !BUFFER_USAGE_ALL != 0 ==> r == Err::<BufferUsages, &'static str>(
            invalid_usage_message(),
        ),
{
    if bits & !BUFFER_USAGE_ALL == 0 {
        Ok(BufferUsages { bits })
    } else {
        Err("GPUBufferDescriptor's 'usage' includes invalid unimplemented bits or unimplemented usages")
    }
}

} // verus!

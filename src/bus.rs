//! The capabilities the driver needs from its environment. Each channel keeps,
//! as a view, the record of the requests made of it, with their outcome.
use vstd::prelude::*;

verus! {

/// Bus address of the sensor on the register channel.
pub const I2C_ADDRESS: u8 = 0x60;

/// One request made of a register channel.
pub enum I2cRequest {
    /// `bytes` written to the device at `address`; `ok` when the write succeeded.
    Write { address: u8, bytes: Seq<u8>, ok: bool },
    /// `bytes` written to the device at `address`, then a read; `reply` holds the
    /// bytes read when the request succeeded.
    WriteRead { address: u8, bytes: Seq<u8>, reply: Option<Seq<u8>> },
}

/// One request made of a streaming channel.
pub enum SpiRequest {
    /// `words` sent; `ok` when the transfer succeeded.
    Write { words: Seq<u8>, ok: bool },
    /// `words` sent in place; `reply` holds the words received when it succeeded.
    Transfer { words: Seq<u8>, reply: Option<Seq<u8>> },
}

/// The record of a register channel, oldest request first.
pub type I2cRecord = Seq<I2cRequest>;

/// The record of a streaming channel, oldest request first.
pub type SpiRecord = Seq<SpiRequest>;

/// The record of the waits made, in milliseconds, oldest first.
pub type WaitRecord = Seq<u32>;

/// Addressed byte-oriented register channel (an I2C bus).
pub trait RegisterBus {
    type Error;

    /// Every request made of this channel, in order.
    spec fn requests(&self) -> I2cRecord;

    /// Writes `bytes` to the device at `address`.
    fn write(&mut self, address: u8, bytes: &[u8]) -> (r: Result<(), Self::Error>)
        ensures
            final(self).requests() == old(self).requests().push(
                I2cRequest::Write { address, bytes: bytes@, ok: r is Ok },
            ),
    ;

    /// Writes `bytes` to the device at `address`, then reads into `buffer`.
    fn write_read(&mut self, address: u8, bytes: &[u8], buffer: &mut [u8]) -> (r: Result<(), Self::Error>)
        ensures
            final(buffer)@.len() == old(buffer)@.len(),
            final(self).requests() == old(self).requests().push(
                I2cRequest::WriteRead {
                    address,
                    bytes: bytes@,
                    reply: if r is Ok { Some(final(buffer)@) } else { None },
                },
            ),
    ;
}

/// Streaming channel with a chip select of its own (an SPI device).
pub trait StreamBus {
    type Error;

    /// Every request made of this channel, in order.
    spec fn requests(&self) -> SpiRecord;

    /// Sends `words`.
    fn write(&mut self, words: &[u8]) -> (r: Result<(), Self::Error>)
        ensures
            final(self).requests() == old(self).requests().push(SpiRequest::Write { words: words@, ok: r is Ok }),
    ;

    /// Sends `words` and replaces them with the words received meanwhile.
    fn transfer_in_place(&mut self, words: &mut [u8]) -> (r: Result<(), Self::Error>)
        ensures
            final(words)@.len() == old(words)@.len(),
            final(self).requests() == old(self).requests().push(
                SpiRequest::Transfer { words: old(words)@, reply: if r is Ok { Some(final(words)@) } else { None } },
            ),
    ;
}

/// Blocking wait.
pub trait Delay {
    /// Every wait made, in milliseconds, in order.
    spec fn waited(&self) -> WaitRecord;

    fn delay_ms(&mut self, ms: u32)
        ensures
            final(self).waited() == old(self).waited().push(ms),
    ;
}

/// The successful register-channel writes of a list of `(register, value)` pairs.
pub open spec fn register_writes(pairs: Seq<(u8, u8)>) -> Seq<I2cRequest> {
    pairs.map_values(|p: (u8, u8)| I2cRequest::Write { address: I2C_ADDRESS, bytes: seq![p.0, p.1], ok: true })
}

/// A register-channel write of `p` that failed.
pub open spec fn failed_write(p: (u8, u8)) -> I2cRequest {
    I2cRequest::Write { address: I2C_ADDRESS, bytes: seq![p.0, p.1], ok: false }
}

/// `after` is `before` followed by the writes of `pairs` up to one that failed.
pub open spec fn stopped_within(before: Seq<I2cRequest>, after: Seq<I2cRequest>, pairs: Seq<(u8, u8)>) -> bool {
    exists|k: int|
        0 <= k < pairs.len() && after == before + #[trigger] register_writes(pairs.take(k)).push(failed_write(pairs[k]))
}

/// The writes of two lists one after the other are the writes of the joined list.
pub proof fn lemma_register_writes_add(a: Seq<(u8, u8)>, b: Seq<(u8, u8)>)
    ensures
        register_writes(a + b) == register_writes(a) + register_writes(b),
{
    assert(register_writes(a + b) =~= register_writes(a) + register_writes(b));
}

/// A sequence that stopped inside one part of a list stopped inside the whole list.
pub proof fn lemma_stopped_in_part(
    before: Seq<I2cRequest>,
    after: Seq<I2cRequest>,
    done: Seq<(u8, u8)>,
    step: Seq<(u8, u8)>,
    rest: Seq<(u8, u8)>,
)
    requires
        stopped_within(before + register_writes(done), after, step),
    ensures
        stopped_within(before, after, done + step + rest),
{
    let k = choose|k: int|
        0 <= k < step.len() && after == (before + register_writes(done)) + #[trigger] register_writes(step.take(k)).push(failed_write(step[k]));
    let whole = done + step + rest;
    let j = done.len() + k;
    assert(whole.take(j) =~= done + step.take(k));
    assert(whole[j] == step[k]);
    lemma_register_writes_add(done, step.take(k));
    assert(after =~= before + register_writes(whole.take(j)).push(failed_write(whole[j])));
}

} // verus!

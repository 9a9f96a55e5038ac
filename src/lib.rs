//! Driver for the OV2640 camera module: a register channel programs the sensor,
//! a streaming channel reads the captured frame out of its frame buffer.
use vstd::prelude::*;

pub mod bus;
pub mod config;
pub mod error;
pub mod sequencer;

pub use bus::{
    Delay, I2cRecord, I2cRequest, RegisterBus, SpiRecord, SpiRequest, StreamBus, WaitRecord, I2C_ADDRESS,
};
pub use config::{
    Brightness, Configuration, ConfigurationBuilder, Contrast, ImageFormat, LightMode, Resolution,
    Saturation, SpecialEffect,
};
pub use error::OV2640Error;
pub use sequencer::RegisterTables;

use bus::{failed_write, lemma_register_writes_add, lemma_stopped_in_part, register_writes, stopped_within};
use sequencer::{
    brightness_sequence, brightness_writes, contrast_sequence, contrast_writes, light_mode_sequence,
    light_mode_writes, saturation_sequence, saturation_writes, special_effect_sequence,
    special_effect_writes,
};

verus! {

/// Maximum frame-buffer size in bytes.
pub const MAX_FIFO_SIZE: usize = 0x5FFFF;
/// Value written to the frame-buffer control register to clear it.
pub const FIFO_CLEAR_MASK: u8 = 0x00;
/// Value written to the frame-buffer control register to start a capture.
pub const FIFO_START_MASK: u8 = 0x00;
/// Bit of the trigger register that is set once a capture is complete.
pub const CAPTURE_COMPLETE_MASK: u8 = 0x08;
/// Marker that makes the frame buffer stream out in one burst.
pub const FIFO_BURST: u8 = 0x3C;

/// Streaming-channel scratch register, used to test the channel.
pub const TEST_REGISTER: u8 = 0x00;
/// Streaming-channel frame-buffer control register.
pub const FIFO: u8 = 0x04;
/// Streaming-channel trigger and status register.
pub const TRIGGER: u8 = 0x41;
/// Streaming-channel registers of the image length, least significant byte first.
pub const FIFO_SIZE_1: u8 = 0x42;
pub const FIFO_SIZE_2: u8 = 0x43;
pub const FIFO_SIZE_3: u8 = 0x44;
/// Register-channel registers of the sensor's product id.
pub const CHIP_ID_HIGH: u8 = 0x0A;
pub const CHIP_ID_LOW: u8 = 0x0B;


/// The register-channel outcome of writing `pairs` in order until the first
/// failure: every write made and successful, or the writes up to one that failed.
pub open spec fn wrote<E, S>(
    before: Seq<I2cRequest>,
    after: Seq<I2cRequest>,
    pairs: Seq<(u8, u8)>,
    r: Result<(), OV2640Error<E, S>>,
) -> bool {
    match r {
        Ok(()) => after == before + register_writes(pairs),
        Err(OV2640Error::I2CError(_)) => stopped_within(before, after, pairs),
        _ => false,
    }
}

/// A failure inside one part of a list is a failure of the whole list.
pub proof fn lemma_wrote_in_part<E, S>(
    before: Seq<I2cRequest>,
    after: Seq<I2cRequest>,
    done: Seq<(u8, u8)>,
    step: Seq<(u8, u8)>,
    rest: Seq<(u8, u8)>,
    r: Result<(), OV2640Error<E, S>>,
)
    requires
        r is Err,
        wrote(before + register_writes(done), after, step, r),
    ensures
        wrote(before, after, done + step + rest, r),
{
    lemma_stopped_in_part(before, after, done, step, rest);
}

/// A record written to only grows.
pub proof fn lemma_wrote_extends<E, S>(
    before: Seq<I2cRequest>,
    after: Seq<I2cRequest>,
    pairs: Seq<(u8, u8)>,
    r: Result<(), OV2640Error<E, S>>,
)
    requires
        wrote(before, after, pairs, r),
    ensures
        after.len() >= before.len(),
        after.take(before.len() as int) == before,
{
    match r {
        Ok(()) => {
            assert(after.take(before.len() as int) =~= before);
        },
        _ => {
            let k = choose|k: int|
                0 <= k < pairs.len() && after == before + #[trigger] register_writes(pairs.take(k)).push(failed_write(pairs[k]));
            assert(after.take(before.len() as int) =~= before);
        },
    }
}

/// Page select and sensor reset, the writes that precede the settling delay.
pub open spec fn reset_pairs() -> Seq<(u8, u8)> {
    seq![(0xFF, 0x01), (0x12, 0x80)]
}

/// The page select and the reset were both written successfully right after `before`.
pub open spec fn reset_made(before: Seq<I2cRequest>, after: Seq<I2cRequest>) -> bool {
    after.len() >= before.len() + 2 && after.subrange(before.len() as int, before.len() as int + 2) == register_writes(reset_pairs())
}

/// Writes that follow keep a reset that was made.
proof fn lemma_reset_kept(before: Seq<I2cRequest>, mid: Seq<I2cRequest>, after: Seq<I2cRequest>)
    requires
        reset_made(before, mid),
        after.len() >= mid.len(),
        after.take(mid.len() as int) == mid,
    ensures
        reset_made(before, after),
{
    assert(after.subrange(before.len() as int, before.len() as int + 2) =~= mid.subrange(before.len() as int, before.len() as int + 2));
}

/// The register writes of a format switch: page select and reset, then the
/// format's bulk tables; JPEG also reloads the resolution table.
pub open spec fn format_pairs(format: ImageFormat, resolution: Resolution, tables: RegisterTables) -> Seq<(u8, u8)> {
    match format {
        ImageFormat::JPEG => reset_pairs() + tables.jpeg_init@ + tables.yuv422@ + tables.jpeg@
            + seq![(0xFF, 0x01), (0x15, 0x00)] + tables.resolution_table(resolution),
        ImageFormat::QVGA => reset_pairs() + tables.qvga@,
    }
}

/// The register writes of a full initialisation in JPEG format: the format
/// switch, then each remaining setting in the fixed order.
pub open spec fn init_pairs(c: Configuration, tables: RegisterTables) -> Seq<(u8, u8)> {
    format_pairs(ImageFormat::JPEG, c.resolution, tables) + tables.resolution_table(c.resolution)
        + light_mode_writes(c.light_mode) + saturation_writes(c.saturation) + brightness_writes(c.brightness)
        + contrast_writes(c.contrast) + special_effect_writes(c.special_effect)
}

/// What `init` writes from configuration `c`: in JPEG format, the whole list; in
/// QVGA, the format switch, after which the resolution is refused.
pub open spec fn initialised<E, S>(
    before: Seq<I2cRequest>,
    after: Seq<I2cRequest>,
    c: Configuration,
    tables: RegisterTables,
    r: Result<(), OV2640Error<E, S>>,
) -> bool {
    match c.image_format {
        ImageFormat::JPEG => wrote(before, after, init_pairs(c, tables), r),
        ImageFormat::QVGA => match r {
            Ok(()) => false,
            Err(OV2640Error::CannotSetImageSizeOnNonJPEG) => after == before
                + register_writes(format_pairs(ImageFormat::QVGA, c.resolution, tables)),
            _ => wrote(before, after, format_pairs(ImageFormat::QVGA, c.resolution, tables), r),
        },
    }
}

/// The waits of a format switch: the settling delay once, exactly when the
/// page select and the reset went through.
pub open spec fn settled(
    before: Seq<I2cRequest>,
    after: Seq<I2cRequest>,
    waited_before: Seq<u32>,
    waited_after: Seq<u32>,
) -> bool {
    waited_after == if reset_made(before, after) { waited_before.push(100) } else { waited_before }
}

/// A format switch that succeeded made the page select and the reset first.
pub proof fn lemma_successful_switch_resets_first(
    before: Seq<I2cRequest>,
    after: Seq<I2cRequest>,
    format: ImageFormat,
    resolution: Resolution,
    tables: RegisterTables,
)
    requires
        after == before + register_writes(format_pairs(format, resolution, tables)),
    ensures
        reset_made(before, after),
{
    let p = format_pairs(format, resolution, tables);
    assert(p =~= reset_pairs() + p.skip(2));
    lemma_register_writes_add(reset_pairs(), p.skip(2));
    assert(after.subrange(before.len() as int, before.len() as int + 2) =~= register_writes(reset_pairs()));
}

/// The streaming-channel write of `[address | 0x80, value]`.
pub open spec fn stream_write(address: u8, value: u8, ok: bool) -> SpiRequest {
    SpiRequest::Write { words: seq![address | 0x80, value], ok }
}

/// The streaming-channel read of `address`, with the byte received if it succeeded.
pub open spec fn stream_read(address: u8, reply: Option<u8>) -> SpiRequest {
    SpiRequest::Transfer {
        words: seq![address],
        reply: match reply {
            Some(b) => Some(seq![b]),
            None => None,
        },
    }
}

/// The register-channel read of `register`, with the byte received if it succeeded.
pub open spec fn register_read(register: u8, reply: Option<u8>) -> I2cRequest {
    I2cRequest::WriteRead {
        address: I2C_ADDRESS,
        bytes: seq![register],
        reply: match reply {
            Some(b) => Some(seq![b]),
            None => None,
        },
    }
}

/// The image length held in the three length registers, read least significant first.
pub open spec fn fifo_length_of(b1: u8, b2: u8, b3: u8) -> nat {
    b3 as nat * 0x10000 + b2 as nat * 0x100 + b1 as nat
}

/// The three reads of the length registers, with the bytes received.
pub open spec fn size_reads(b1: u8, b2: u8, b3: u8) -> Seq<SpiRequest> {
    seq![stream_read(FIFO_SIZE_1, Some(b1)), stream_read(FIFO_SIZE_2, Some(b2)), stream_read(FIFO_SIZE_3, Some(b3))]
}

/// The reads of the length registers up to the `k`-th, which failed.
pub open spec fn size_reads_cut(b1: u8, b2: u8, k: int) -> Seq<SpiRequest> {
    if k == 0 {
        seq![stream_read(FIFO_SIZE_1, None)]
    } else if k == 1 {
        seq![stream_read(FIFO_SIZE_1, Some(b1)), stream_read(FIFO_SIZE_2, None)]
    } else {
        seq![stream_read(FIFO_SIZE_1, Some(b1)), stream_read(FIFO_SIZE_2, Some(b2)), stream_read(FIFO_SIZE_3, None)]
    }
}

/// The burst-read marker sent on the streaming channel.
pub open spec fn burst_marker(ok: bool) -> SpiRequest {
    SpiRequest::Write { words: seq![FIFO_BURST], ok }
}

/// Page select, then the reads of the two product-id registers.
pub open spec fn chip_id_exchange(high: u8, low: u8) -> Seq<I2cRequest> {
    seq![
        register_writes(seq![(0xFF, 0x01)])[0],
        register_read(CHIP_ID_HIGH, Some(high)),
        register_read(CHIP_ID_LOW, Some(low)),
    ]
}

/// Page select and the read of the high id byte, then a failed read of the low one.
pub open spec fn chip_id_low_failed(high: u8) -> Seq<I2cRequest> {
    seq![
        register_writes(seq![(0xFF, 0x01)])[0],
        register_read(CHIP_ID_HIGH, Some(high)),
        register_read(CHIP_ID_LOW, None),
    ]
}

/// The product id that identifies an OV2640.
pub open spec fn chip_id_valid(high: u8, low: u8) -> bool {
    low == 0x26 && (high == 0x41 || high == 0x42)
}

/// The image length from the bytes of the three length registers in the order
/// read: the third byte is the most significant.
pub fn fifo_length(b1: u8, b2: u8, b3: u8) -> (r: usize)
    ensures
        r == fifo_length_of(b1, b2, b3),
{
    (b3 as usize) * 0x10000 + (b2 as usize) * 0x100 + (b1 as usize)
}

/// The length is the big-endian composition of the third, second and first byte.
pub proof fn lemma_fifo_length_bits(b1: u8, b2: u8, b3: u8)
    ensures
        fifo_length_of(b1, b2, b3) == ((b3 as u32) << 16u32 | (b2 as u32) << 8u32 | b1 as u32) as nat,
        fifo_length_of(b1, b2, b3) <= 0xFFFFFF,
{
    let x = b1 as u32;
    let y = b2 as u32;
    let z = b3 as u32;
    assert(z * 0x10000 + y * 0x100 + x == (z << 16u32 | y << 8u32 | x)) by (bit_vector)
        requires
            x < 256,
            y < 256,
            z < 256,
    ;
}

/// Writes `value` to `register` over the register channel.
fn write_register<I2C: RegisterBus<Error = E>, E, S>(bus: &mut I2C, register: u8, value: u8) -> (r: Result<(), OV2640Error<E, S>>)
    ensures
        r is Ok ==> final(bus).requests() == old(bus).requests() + register_writes(seq![(register, value)]),
        r is Err ==> (r matches Err(OV2640Error::I2CError(_))),
        r is Err ==> final(bus).requests() == old(bus).requests().push(failed_write((register, value))),
        wrote(old(bus).requests(), final(bus).requests(), seq![(register, value)], r),
{
    let bytes = [register, value];
    let res = bus.write(I2C_ADDRESS, &bytes);
    proof {
        assert(bytes@ =~= seq![register, value]);
        assert(register_writes(seq![(register, value)]) =~= seq![I2cRequest::Write { address: I2C_ADDRESS, bytes: seq![register, value], ok: true }]);
        assert(register_writes(seq![(register, value)].take(0)) =~= Seq::<I2cRequest>::empty());
        assert(bus.requests() == old(bus).requests() + register_writes(seq![(register, value)].take(0)).push(failed_write(seq![(register, value)][0])) || res is Ok);
    }
    match res {
        Ok(()) => {
            assert(bus.requests() =~= old(bus).requests() + register_writes(seq![(register, value)]));
            Ok(())
        },
        Err(e) => Err(OV2640Error::I2CError(e)),
    }
}

/// Writes each `(register, value)` pair in order, stopping at the first failure.
fn write_registers<I2C: RegisterBus<Error = E>, E, S>(bus: &mut I2C, pairs: &[(u8, u8)]) -> (r: Result<(), OV2640Error<E, S>>)
    ensures
        wrote(old(bus).requests(), final(bus).requests(), pairs@, r),
{
    let ghost before = bus.requests();
    let mut i: usize = 0;
    while i < pairs.len()
        invariant
            i <= pairs.len(),
            before == old(bus).requests(),
            bus.requests() == before + register_writes(pairs@.take(i as int)),
        decreases pairs.len() - i,
    {
        let (register, value) = pairs[i];
        let r = write_register::<I2C, E, S>(bus, register, value);
        if let Err(e) = r {
            proof {
                assert(bus.requests() == before + register_writes(pairs@.take(i as int)).push(failed_write(pairs@[i as int])));
            }
            return Err(e);
        }
        proof {
            assert(pairs@.take(i as int + 1) =~= pairs@.take(i as int) + seq![(register, value)]);
            lemma_register_writes_add(pairs@.take(i as int), seq![(register, value)]);
            assert(bus.requests() =~= before + register_writes(pairs@.take(i as int + 1)));
        }
        i = i + 1;
    }
    proof {
        assert(pairs@.take(pairs@.len() as int) =~= pairs@);
    }
    Ok(())
}

/// Reads `register` over the register channel.
fn read_register<I2C: RegisterBus<Error = E>, E, S>(bus: &mut I2C, register: u8) -> (r: Result<u8, OV2640Error<E, S>>)
    ensures
        match r {
            Ok(b) => final(bus).requests() == old(bus).requests().push(register_read(register, Some(b))),
            Err(OV2640Error::I2CError(_)) => final(bus).requests() == old(bus).requests().push(register_read(register, None)),
            _ => false,
        },
{
    let bytes = [register];
    let mut buffer = [0u8];
    let res = bus.write_read(I2C_ADDRESS, &bytes, &mut buffer);
    assert(bytes@ =~= seq![register]);
    match res {
        Ok(()) => {
            assert(buffer@ =~= seq![buffer[0]]);
            Ok(buffer[0])
        },
        Err(e) => Err(OV2640Error::I2CError(e)),
    }
}

/// Writes `[address | 0x80, value]` over the streaming channel.
fn write_spi<SPI: StreamBus<Error = S>, E, S>(bus: &mut SPI, address: u8, value: u8) -> (r: Result<(), OV2640Error<E, S>>)
    ensures
        final(bus).requests() == old(bus).requests().push(stream_write(address, value, r is Ok)),
        r is Err ==> (r matches Err(OV2640Error::SpiError(_))),
{
    let words = [address | 0x80, value];
    let res = bus.write(&words);
    assert(words@ =~= seq![address | 0x80, value]);
    match res {
        Ok(()) => Ok(()),
        Err(e) => Err(OV2640Error::SpiError(e)),
    }
}

/// Reads `address` over the streaming channel.
fn read_spi<SPI: StreamBus<Error = S>, E, S>(bus: &mut SPI, address: u8) -> (r: Result<u8, OV2640Error<E, S>>)
    ensures
        match r {
            Ok(b) => final(bus).requests() == old(bus).requests().push(stream_read(address, Some(b))),
            Err(OV2640Error::SpiError(_)) => final(bus).requests() == old(bus).requests().push(stream_read(address, None)),
            _ => false,
        },
{
    let mut buffer = [address];
    assert(buffer@ =~= seq![address]);
    let res = bus.transfer_in_place(&mut buffer);
    match res {
        Ok(()) => {
            assert(buffer@ =~= seq![buffer[0]]);
            Ok(buffer[0])
        },
        Err(e) => Err(OV2640Error::SpiError(e)),
    }
}


/// How `read_image` can fail on the streaming channel: a failed length read;
/// or, with a length that fits, a failed burst marker; or a failed transfer.
pub open spec fn read_image_failed(
    before: Seq<SpiRequest>,
    after: Seq<SpiRequest>,
    old_buffer: Seq<u8>,
    new_buffer: Seq<u8>,
) -> bool {
    ||| new_buffer == old_buffer && exists|b1: u8, b2: u8, k: int|
        0 <= k < 3 && after == before + #[trigger] size_reads_cut(b1, b2, k)
    ||| exists|b1: u8, b2: u8, b3: u8| {
        &&& fifo_length_of(b1, b2, b3) <= old_buffer.len()
        &&& {
            ||| new_buffer == old_buffer && after == before + #[trigger] size_reads(b1, b2, b3) + seq![burst_marker(false)]
            ||| after == before + size_reads(b1, b2, b3) + seq![
                burst_marker(true),
                SpiRequest::Transfer { words: old_buffer, reply: None },
            ]
        }
    }
}

/// Reads the three length registers, least significant first.
fn length_bytes<SPI: StreamBus<Error = S>, E, S>(bus: &mut SPI) -> (r: Result<(u8, u8, u8), OV2640Error<E, S>>)
    ensures
        match r {
            Ok((b1, b2, b3)) => final(bus).requests() == old(bus).requests() + size_reads(b1, b2, b3),
            Err(OV2640Error::SpiError(_)) => exists|b1: u8, b2: u8, k: int|
                0 <= k < 3 && final(bus).requests() == old(bus).requests() + #[trigger] size_reads_cut(b1, b2, k),
            _ => false,
        },
{
    let ghost before = bus.requests();
    let len1 = match read_spi(bus, FIFO_SIZE_1) {
        Ok(b) => b,
        Err(e) => {
            assert(bus.requests() =~= before + size_reads_cut(0, 0, 0));
            return Err(e);
        },
    };
    let len2 = match read_spi(bus, FIFO_SIZE_2) {
        Ok(b) => b,
        Err(e) => {
            assert(bus.requests() =~= before + size_reads_cut(len1, 0, 1));
            return Err(e);
        },
    };
    let len3 = match read_spi(bus, FIFO_SIZE_3) {
        Ok(b) => b,
        Err(e) => {
            assert(bus.requests() =~= before + size_reads_cut(len1, len2, 2));
            return Err(e);
        },
    };
    assert(bus.requests() =~= before + size_reads(len1, len2, len3));
    Ok((len1, len2, len3))
}

/// A failure within a list is a failure within any longer list that starts with it.
pub proof fn lemma_wrote_err_extend<E, S>(
    before: Seq<I2cRequest>,
    after: Seq<I2cRequest>,
    pairs: Seq<(u8, u8)>,
    rest: Seq<(u8, u8)>,
    r: Result<(), OV2640Error<E, S>>,
)
    requires
        r is Err,
        wrote(before, after, pairs, r),
    ensures
        wrote(before, after, pairs + rest, r),
{
    assert(register_writes(Seq::<(u8, u8)>::empty()) =~= Seq::<I2cRequest>::empty());
    assert(before + register_writes(Seq::<(u8, u8)>::empty()) =~= before);
    lemma_stopped_in_part(before, after, Seq::<(u8, u8)>::empty(), pairs, rest);
    assert(Seq::<(u8, u8)>::empty() + pairs + rest =~= pairs + rest);
}

/// A record that starts, after `before`, with the writes of a list that starts
/// with the page select and the reset shows the reset made.
proof fn lemma_reset_in_prefix(before: Seq<I2cRequest>, after: Seq<I2cRequest>, done: Seq<(u8, u8)>)
    requires
        done.len() >= 2,
        done.take(2) == reset_pairs(),
        after.len() >= before.len() + done.len(),
        after.take(before.len() + done.len() as int) == before + register_writes(done),
    ensures
        reset_made(before, after),
{
    let b = before.len() as int;
    assert(after.subrange(b, b + 2) =~= (before + register_writes(done)).subrange(b, b + 2));
    assert(done =~= reset_pairs() + done.skip(2));
    lemma_register_writes_add(reset_pairs(), done.skip(2));
    assert((before + register_writes(done)).subrange(b, b + 2) =~= register_writes(reset_pairs()));
}

/// Writes `pairs` after a list `done` that began with the reset.
fn write_part<I2C: RegisterBus<Error = E>, E, S>(
    bus: &mut I2C,
    pairs: &[(u8, u8)],
    Ghost(before): Ghost<Seq<I2cRequest>>,
    Ghost(done): Ghost<Seq<(u8, u8)>>,
) -> (r: Result<(), OV2640Error<E, S>>)
    requires
        old(bus).requests() == before + register_writes(done),
        done.len() >= 2,
        done.take(2) == reset_pairs(),
    ensures
        r is Ok ==> final(bus).requests() == before + register_writes(done + pairs@),
        r is Err ==> wrote(before, final(bus).requests(), done + pairs@, r),
        reset_made(before, final(bus).requests()),
{
    let r = write_registers(bus, pairs);
    proof {
        lemma_register_writes_add(done, pairs@);
        lemma_wrote_extends(before + register_writes(done), bus.requests(), pairs@, r);
        assert((before + register_writes(done)).len() == before.len() + done.len());
        assert(bus.requests().take(before.len() + done.len() as int) =~= bus.requests().take((before + register_writes(done)).len() as int));
        lemma_reset_in_prefix(before, bus.requests(), done);
        if r is Err {
            lemma_wrote_in_part(before, bus.requests(), done, pairs@, Seq::<(u8, u8)>::empty(), r);
            assert(done + pairs@ + Seq::<(u8, u8)>::empty() =~= done + pairs@);
        } else {
            assert(bus.requests() =~= before + register_writes(done + pairs@));
        }
    }
    r
}

/// Page select, sensor reset, the settling delay, then the format's tables; in
/// JPEG the resolution table follows.
fn load_format<I2C: RegisterBus<Error = E>, E, S, D: Delay>(
    bus: &mut I2C,
    delay: &mut D,
    tables: &RegisterTables,
    format: ImageFormat,
    resolution: Resolution,
) -> (r: Result<(), OV2640Error<E, S>>)
    ensures
        wrote(old(bus).requests(), final(bus).requests(), format_pairs(format, resolution, *tables), r),
        settled(old(bus).requests(), final(bus).requests(), old(delay).waited(), final(delay).waited()),
{
    let ghost before = bus.requests();
    let ghost plan = format_pairs(format, resolution, *tables);
    let ghost b = before.len() as int;
    assert(plan.take(2) =~= reset_pairs());
    assert(reset_pairs().take(2) =~= reset_pairs());
    let r = write_register(bus, 0xFF, 0x01);
    if let Err(e) = r {
        proof {
            assert(before + register_writes(Seq::<(u8, u8)>::empty()) =~= before);
            lemma_wrote_in_part(before, bus.requests(), Seq::<(u8, u8)>::empty(), seq![(0xFFu8, 0x01u8)], plan.skip(1), r);
            assert(Seq::<(u8, u8)>::empty() + seq![(0xFFu8, 0x01u8)] + plan.skip(1) =~= plan);
        }
        return Err(e);
    }
    let ghost mid = bus.requests();
    let r = write_register(bus, 0x12, 0x80);
    if let Err(e) = r {
        proof {
            lemma_wrote_in_part(before, bus.requests(), seq![(0xFFu8, 0x01u8)], seq![(0x12u8, 0x80u8)], plan.skip(2), r);
            assert(seq![(0xFFu8, 0x01u8)] + seq![(0x12u8, 0x80u8)] + plan.skip(2) =~= plan);
            assert(bus.requests().subrange(b, b + 2)[1] == failed_write((0x12, 0x80)));
            assert(register_writes(reset_pairs())[1] != failed_write((0x12, 0x80)));
        }
        return Err(e);
    }
    proof {
        assert(seq![(0xFFu8, 0x01u8)] + seq![(0x12u8, 0x80u8)] =~= reset_pairs());
        lemma_register_writes_add(seq![(0xFFu8, 0x01u8)], seq![(0x12u8, 0x80u8)]);
        assert(bus.requests() =~= before + register_writes(reset_pairs()));
        assert(bus.requests().take(before.len() as int + 2) =~= bus.requests());
        lemma_reset_in_prefix(before, bus.requests(), reset_pairs());
    }
    delay.delay_ms(100);
    match format {
        ImageFormat::JPEG => {
            let ghost d0 = reset_pairs();
            let ghost d1 = d0 + tables.jpeg_init@;
            let ghost d2 = d1 + tables.yuv422@;
            let ghost d3 = d2 + tables.jpeg@;
            let ghost d4 = d3 + seq![(0xFFu8, 0x01u8), (0x15u8, 0x00u8)];
            let ghost d5 = d4 + tables.resolution_table(resolution);
            assert(d1.take(2) =~= reset_pairs());
            assert(d2.take(2) =~= reset_pairs());
            assert(d3.take(2) =~= reset_pairs());
            assert(d4.take(2) =~= reset_pairs());
            assert(d5 =~= plan);
            let r = write_part(bus, tables.jpeg_init.as_slice(), Ghost(before), Ghost(d0));
            if let Err(e) = r {
                proof {
                    lemma_wrote_err_extend(before, bus.requests(), d1, plan.skip(d1.len() as int), r);
                    assert(d1 + plan.skip(d1.len() as int) =~= plan);
                }
                return Err(e);
            }
            let r = write_part(bus, tables.yuv422.as_slice(), Ghost(before), Ghost(d1));
            if let Err(e) = r {
                proof {
                    lemma_wrote_err_extend(before, bus.requests(), d2, plan.skip(d2.len() as int), r);
                    assert(d2 + plan.skip(d2.len() as int) =~= plan);
                }
                return Err(e);
            }
            let r = write_part(bus, tables.jpeg.as_slice(), Ghost(before), Ghost(d2));
            if let Err(e) = r {
                proof {
                    lemma_wrote_err_extend(before, bus.requests(), d3, plan.skip(d3.len() as int), r);
                    assert(d3 + plan.skip(d3.len() as int) =~= plan);
                }
                return Err(e);
            }
            let select = [(0xFFu8, 0x01u8), (0x15u8, 0x00u8)];
            assert(select@ =~= seq![(0xFFu8, 0x01u8), (0x15u8, 0x00u8)]);
            let r = write_part(bus, &select, Ghost(before), Ghost(d3));
            if let Err(e) = r {
                proof {
                    lemma_wrote_err_extend(before, bus.requests(), d4, plan.skip(d4.len() as int), r);
                    assert(d4 + plan.skip(d4.len() as int) =~= plan);
                }
                return Err(e);
            }
            let r = write_part(bus, tables.table_for(resolution), Ghost(before), Ghost(d4));
            if let Err(e) = r {
                return Err(e);
            }
        },
        ImageFormat::QVGA => {
            let r = write_part(bus, tables.qvga.as_slice(), Ghost(before), Ghost(reset_pairs()));
            if let Err(e) = r {
                return Err(e);
            }
        },
    }
    Ok(())
}

/// The sensor driver: the settings last applied successfully, the bulk tables,
/// and each channel if it has not been withdrawn.
///
/// A transport failure in the middle of a sequence leaves the writes made before
/// it applied on the sensor while the settings keep their last committed value;
/// `init` brings the two back in line.
pub struct OV2640<I2C, SPI> {
    configuration: Configuration,
    tables: RegisterTables,
    i2c: Option<I2C>,
    spi: Option<SPI>,
}

impl<I2C, SPI, I2CErr, SPIErr> OV2640<I2C, SPI> where
    I2C: RegisterBus<Error = I2CErr>,
    SPI: StreamBus<Error = SPIErr>,
 {
    /// The configuration channel the driver holds, if any.
    pub closed spec fn i2c_slot(&self) -> Option<I2C> {
        self.i2c
    }

    /// The streaming channel the driver holds, if any.
    pub closed spec fn spi_slot(&self) -> Option<SPI> {
        self.spi
    }

    /// The settings last applied successfully.
    pub closed spec fn config(&self) -> Configuration {
        self.configuration
    }

    /// The bulk tables the driver loads.
    pub closed spec fn tables(&self) -> RegisterTables {
        self.tables
    }

    /// The requests made of the configuration channel held.
    pub open spec fn i2c_requests(&self) -> Seq<I2cRequest> {
        self.i2c_slot()->Some_0.requests()
    }

    /// The requests made of the streaming channel held.
    pub open spec fn spi_requests(&self) -> Seq<SpiRequest> {
        self.spi_slot()->Some_0.requests()
    }

    /// The effect of writing `pairs` over the configuration channel: without it,
    /// the missing-channel error and nothing changed; with it, the writes made up
    /// to the first failure. The streaming channel and the tables stay as they were.
    pub open spec fn register_step(&self, before: &Self, pairs: Seq<(u8, u8)>, r: Result<(), OV2640Error<I2CErr, SPIErr>>) -> bool {
        &&& self.spi_slot() == before.spi_slot()
        &&& self.tables() == before.tables()
        &&& before.i2c_slot() is None ==> (r matches Err(OV2640Error::NoI2cPeripheral) && *self == *before)
        &&& before.i2c_slot() is Some ==> (self.i2c_slot() is Some && wrote(before.i2c_requests(), self.i2c_requests(), pairs, r))
    }

    /// Everything but the streaming channel's record stays as it was.
    pub open spec fn stream_step(&self, before: &Self) -> bool {
        &&& self.i2c_slot() == before.i2c_slot()
        &&& self.tables() == before.tables()
        &&& self.config() == before.config()
        &&& (self.spi_slot() is Some) == (before.spi_slot() is Some)
    }

    /// Writes the pairs of a short sequence, then commits the setting.
    pub fn set_light_mode(&mut self, light_mode: LightMode) -> (r: Result<(), OV2640Error<I2CErr, SPIErr>>)
        ensures
            final(self).register_step(old(self), light_mode_writes(light_mode), r),
            r is Ok ==> final(self).config() == (Configuration { light_mode, ..old(self).config() }),
            r is Err ==> final(self).config() == old(self).config(),
    {
        let pairs = light_mode_sequence(light_mode);
        let r = match &mut self.i2c {
            Some(bus) => write_registers(bus, pairs.as_slice()),
            None => {
                return Err(OV2640Error::NoI2cPeripheral);
            },
        };
        match r {
            Ok(()) => {
                self.configuration.light_mode = light_mode;
                Ok(())
            },
            Err(e) => Err(e),
        }
    }

    /// Writes the pairs of a short sequence, then commits the setting.
    pub fn set_saturation(&mut self, saturation: Saturation) -> (r: Result<(), OV2640Error<I2CErr, SPIErr>>)
        ensures
            final(self).register_step(old(self), saturation_writes(saturation), r),
            r is Ok ==> final(self).config() == (Configuration { saturation, ..old(self).config() }),
            r is Err ==> final(self).config() == old(self).config(),
    {
        let pairs = saturation_sequence(saturation);
        let r = match &mut self.i2c {
            Some(bus) => write_registers(bus, pairs.as_slice()),
            None => {
                return Err(OV2640Error::NoI2cPeripheral);
            },
        };
        match r {
            Ok(()) => {
                self.configuration.saturation = saturation;
                Ok(())
            },
            Err(e) => Err(e),
        }
    }

    /// Writes the pairs of a short sequence, then commits the setting.
    pub fn set_brightness(&mut self, brightness: Brightness) -> (r: Result<(), OV2640Error<I2CErr, SPIErr>>)
        ensures
            final(self).register_step(old(self), brightness_writes(brightness), r),
            r is Ok ==> final(self).config() == (Configuration { brightness, ..old(self).config() }),
            r is Err ==> final(self).config() == old(self).config(),
    {
        let pairs = brightness_sequence(brightness);
        let r = match &mut self.i2c {
            Some(bus) => write_registers(bus, pairs.as_slice()),
            None => {
                return Err(OV2640Error::NoI2cPeripheral);
            },
        };
        match r {
            Ok(()) => {
                self.configuration.brightness = brightness;
                Ok(())
            },
            Err(e) => Err(e),
        }
    }

    /// Writes the pairs of a short sequence, then commits the setting.
    pub fn set_contrast(&mut self, contrast: Contrast) -> (r: Result<(), OV2640Error<I2CErr, SPIErr>>)
        ensures
            final(self).register_step(old(self), contrast_writes(contrast), r),
            r is Ok ==> final(self).config() == (Configuration { contrast, ..old(self).config() }),
            r is Err ==> final(self).config() == old(self).config(),
    {
        let pairs = contrast_sequence(contrast);
        let r = match &mut self.i2c {
            Some(bus) => write_registers(bus, pairs.as_slice()),
            None => {
                return Err(OV2640Error::NoI2cPeripheral);
            },
        };
        match r {
            Ok(()) => {
                self.configuration.contrast = contrast;
                Ok(())
            },
            Err(e) => Err(e),
        }
    }

    /// Writes the pairs of a short sequence, then commits the setting.
    pub fn set_special_effect(&mut self, special_effect: SpecialEffect) -> (r: Result<(), OV2640Error<I2CErr, SPIErr>>)
        ensures
            final(self).register_step(old(self), special_effect_writes(special_effect), r),
            r is Ok ==> final(self).config() == (Configuration { special_effect, ..old(self).config() }),
            r is Err ==> final(self).config() == old(self).config(),
    {
        let pairs = special_effect_sequence(special_effect);
        let r = match &mut self.i2c {
            Some(bus) => write_registers(bus, pairs.as_slice()),
            None => {
                return Err(OV2640Error::NoI2cPeripheral);
            },
        };
        match r {
            Ok(()) => {
                self.configuration.special_effect = special_effect;
                Ok(())
            },
            Err(e) => Err(e),
        }
    }

    /// A driver with the default configuration and the given channels and tables.
    pub fn new(i2c: Option<I2C>, spi: Option<SPI>, tables: RegisterTables) -> (r: Self)
        ensures
            r.config() == config::default_configuration(),
            r.i2c_slot() == i2c,
            r.spi_slot() == spi,
            r.tables() == tables,
    {
        Self { configuration: ConfigurationBuilder::new().build(), tables, i2c, spi }
    }

    /// A driver with the given configuration, channels and tables; nothing is
    /// written until `init`.
    pub fn with_configuration(
        configuration: Configuration,
        i2c: Option<I2C>,
        spi: Option<SPI>,
        tables: RegisterTables,
    ) -> (r: Self)
        ensures
            r.config() == configuration,
            r.i2c_slot() == i2c,
            r.spi_slot() == spi,
            r.tables() == tables,
    {
        Self { configuration, tables, i2c, spi }
    }

    /// Switches the output format: page select, sensor reset, the settling
    /// delay, then the format's tables; in JPEG the configured resolution is
    /// reloaded after them. Commits the format once every write succeeded.
    pub fn set_image_format<D: Delay>(&mut self, image_format: ImageFormat, delay: &mut D) -> (r: Result<(), OV2640Error<I2CErr, SPIErr>>)
        ensures
            final(self).register_step(old(self), format_pairs(image_format, old(self).config().resolution, old(self).tables()), r),
            old(self).i2c_slot() is None ==> final(delay).waited() == old(delay).waited(),
            old(self).i2c_slot() is Some ==> settled(old(self).i2c_requests(), final(self).i2c_requests(), old(delay).waited(), final(delay).waited()),
            r is Ok ==> final(delay).waited() == old(delay).waited().push(100),
            r is Ok ==> final(self).config() == (Configuration { image_format, ..old(self).config() }),
            r is Err ==> final(self).config() == old(self).config(),
    {
        let r = match &mut self.i2c {
            Some(bus) => load_format(bus, delay, &self.tables, image_format, self.configuration.resolution),
            None => {
                return Err(OV2640Error::NoI2cPeripheral);
            },
        };
        proof {
            if r is Ok {
                lemma_successful_switch_resets_first(old(self).i2c_requests(), self.i2c_requests(), image_format,
                    self.configuration.resolution, self.tables);
            }
        }
        match r {
            Ok(()) => {
                self.configuration.image_format = image_format;
                Ok(())
            },
            Err(e) => Err(e),
        }
    }

    /// Loads the bulk table of `resolution`; defined only in JPEG format.
    pub fn set_resolution(&mut self, resolution: Resolution) -> (r: Result<(), OV2640Error<I2CErr, SPIErr>>)
        ensures
            old(self).config().image_format != ImageFormat::JPEG ==> {
                &&& r matches Err(OV2640Error::CannotSetImageSizeOnNonJPEG)
                &&& *final(self) == *old(self)
            },
            old(self).config().image_format == ImageFormat::JPEG ==> final(self).register_step(
                old(self),
                old(self).tables().resolution_table(resolution),
                r,
            ),
            r is Ok ==> final(self).config() == (Configuration { resolution, ..old(self).config() }),
            r is Err ==> final(self).config() == old(self).config(),
    {
        match self.configuration.image_format {
            ImageFormat::JPEG => {},
            _ => {
                return Err(OV2640Error::CannotSetImageSizeOnNonJPEG);
            },
        }
        let r = match &mut self.i2c {
            Some(bus) => write_registers(bus, self.tables.table_for(resolution)),
            None => {
                return Err(OV2640Error::NoI2cPeripheral);
            },
        };
        match r {
            Ok(()) => {
                self.configuration.resolution = resolution;
                Ok(())
            },
            Err(e) => Err(e),
        }
    }

    /// Applies every setting of the configuration: the format, then the
    /// resolution, light mode, saturation, brightness, contrast and special
    /// effect, stopping at the first failure.
    #[verifier::rlimit(100)]
    pub fn init<D: Delay>(&mut self, delay: &mut D) -> (r: Result<(), OV2640Error<I2CErr, SPIErr>>)
        ensures
            final(self).spi_slot() == old(self).spi_slot(),
            final(self).tables() == old(self).tables(),
            final(self).config() == old(self).config(),
            old(self).i2c_slot() is None ==> {
                &&& r matches Err(OV2640Error::NoI2cPeripheral)
                &&& *final(self) == *old(self)
                &&& final(delay).waited() == old(delay).waited()
            },
            old(self).i2c_slot() is Some ==> {
                &&& final(self).i2c_slot() is Some
                &&& initialised(old(self).i2c_requests(), final(self).i2c_requests(), old(self).config(), old(self).tables(), r)
                &&& settled(old(self).i2c_requests(), final(self).i2c_requests(), old(delay).waited(), final(delay).waited())
            },
    {
        let ghost before = self.i2c_requests();
        let c = self.configuration;
        let ghost tables = self.tables;
        let ghost p0 = format_pairs(c.image_format, c.resolution, tables);
        let ghost p1 = tables.resolution_table(c.resolution);
        let ghost p2 = light_mode_writes(c.light_mode);
        let ghost p3 = saturation_writes(c.saturation);
        let ghost p4 = brightness_writes(c.brightness);
        let ghost p5 = contrast_writes(c.contrast);
        let ghost p6 = special_effect_writes(c.special_effect);
        let ghost plan = init_pairs(c, tables);

        let r = self.set_image_format(c.image_format, delay);
        if let Err(e) = r {
            proof {
                if c.image_format == ImageFormat::JPEG && old(self).i2c_slot() is Some {
                    lemma_wrote_err_extend(before, self.i2c_requests(), p0, p1 + p2 + p3 + p4 + p5 + p6, r);
                    assert(p0 + (p1 + p2 + p3 + p4 + p5 + p6) =~= plan);
                }
            }
            return Err(e);
        }
        let ghost m0 = self.i2c_requests();
        proof {
            lemma_successful_switch_resets_first(before, m0, c.image_format, c.resolution, tables);
        }
        let r = self.set_resolution(c.resolution);
        if let Err(e) = r {
            proof {
                if c.image_format == ImageFormat::JPEG {
                    lemma_wrote_in_part(before, self.i2c_requests(), p0, p1, p2 + p3 + p4 + p5 + p6, r);
                    assert(p0 + p1 + (p2 + p3 + p4 + p5 + p6) =~= plan);
                    lemma_wrote_extends(m0, self.i2c_requests(), p1, r);
                    lemma_reset_kept(before, m0, self.i2c_requests());
                }
            }
            return Err(e);
        }
        let ghost m1 = self.i2c_requests();
        proof {
            lemma_register_writes_add(p0, p1);
            assert(m1 =~= before + register_writes(p0 + p1));
            lemma_wrote_extends(m0, m1, p1, r);
            lemma_reset_kept(before, m0, m1);
        }
        let r = self.set_light_mode(c.light_mode);
        if let Err(e) = r {
            proof {
                lemma_wrote_in_part(before, self.i2c_requests(), p0 + p1, p2, p3 + p4 + p5 + p6, r);
                assert(p0 + p1 + p2 + (p3 + p4 + p5 + p6) =~= plan);
                lemma_wrote_extends(m1, self.i2c_requests(), p2, r);
                lemma_reset_kept(before, m1, self.i2c_requests());
            }
            return Err(e);
        }
        let ghost m2 = self.i2c_requests();
        proof {
            lemma_register_writes_add(p0 + p1, p2);
            assert(m2 =~= before + register_writes(p0 + p1 + p2));
            lemma_wrote_extends(m1, m2, p2, r);
            lemma_reset_kept(before, m1, m2);
        }
        let r = self.set_saturation(c.saturation);
        if let Err(e) = r {
            proof {
                lemma_wrote_in_part(before, self.i2c_requests(), p0 + p1 + p2, p3, p4 + p5 + p6, r);
                assert(p0 + p1 + p2 + p3 + (p4 + p5 + p6) =~= plan);
                lemma_wrote_extends(m2, self.i2c_requests(), p3, r);
                lemma_reset_kept(before, m2, self.i2c_requests());
            }
            return Err(e);
        }
        let ghost m3 = self.i2c_requests();
        proof {
            lemma_register_writes_add(p0 + p1 + p2, p3);
            assert(m3 =~= before + register_writes(p0 + p1 + p2 + p3));
            lemma_wrote_extends(m2, m3, p3, r);
            lemma_reset_kept(before, m2, m3);
        }
        let r = self.set_brightness(c.brightness);
        if let Err(e) = r {
            proof {
                lemma_wrote_in_part(before, self.i2c_requests(), p0 + p1 + p2 + p3, p4, p5 + p6, r);
                assert(p0 + p1 + p2 + p3 + p4 + (p5 + p6) =~= plan);
                lemma_wrote_extends(m3, self.i2c_requests(), p4, r);
                lemma_reset_kept(before, m3, self.i2c_requests());
            }
            return Err(e);
        }
        let ghost m4 = self.i2c_requests();
        proof {
            lemma_register_writes_add(p0 + p1 + p2 + p3, p4);
            assert(m4 =~= before + register_writes(p0 + p1 + p2 + p3 + p4));
            lemma_wrote_extends(m3, m4, p4, r);
            lemma_reset_kept(before, m3, m4);
        }
        let r = self.set_contrast(c.contrast);
        if let Err(e) = r {
            proof {
                lemma_wrote_in_part(before, self.i2c_requests(), p0 + p1 + p2 + p3 + p4, p5, p6, r);
                lemma_wrote_extends(m4, self.i2c_requests(), p5, r);
                lemma_reset_kept(before, m4, self.i2c_requests());
            }
            return Err(e);
        }
        let ghost m5 = self.i2c_requests();
        proof {
            lemma_register_writes_add(p0 + p1 + p2 + p3 + p4, p5);
            assert(m5 =~= before + register_writes(p0 + p1 + p2 + p3 + p4 + p5));
            lemma_wrote_extends(m4, m5, p5, r);
            lemma_reset_kept(before, m4, m5);
        }
        let r = self.set_special_effect(c.special_effect);
        proof {
            lemma_wrote_extends(m5, self.i2c_requests(), p6, r);
            lemma_reset_kept(before, m5, self.i2c_requests());
            if r is Err {
                lemma_wrote_in_part(before, self.i2c_requests(), p0 + p1 + p2 + p3 + p4 + p5, p6, Seq::<(u8, u8)>::empty(), r);
                assert(p0 + p1 + p2 + p3 + p4 + p5 + p6 + Seq::<(u8, u8)>::empty() =~= plan);
            } else {
                lemma_register_writes_add(p0 + p1 + p2 + p3 + p4 + p5, p6);
                assert(self.i2c_requests() =~= before + register_writes(plan));
            }
        }
        r
    }

    /// Replaces the configuration, then applies it as `init` does.
    pub fn set_configuration<D: Delay>(&mut self, configuration: Configuration, delay: &mut D) -> (r: Result<(), OV2640Error<I2CErr, SPIErr>>)
        ensures
            final(self).spi_slot() == old(self).spi_slot(),
            final(self).tables() == old(self).tables(),
            final(self).config() == configuration,
            old(self).i2c_slot() is None ==> {
                &&& r matches Err(OV2640Error::NoI2cPeripheral)
                &&& final(self).i2c_slot() == old(self).i2c_slot()
                &&& final(delay).waited() == old(delay).waited()
            },
            old(self).i2c_slot() is Some ==> {
                &&& final(self).i2c_slot() is Some
                &&& initialised(old(self).i2c_requests(), final(self).i2c_requests(), configuration, old(self).tables(), r)
                &&& settled(old(self).i2c_requests(), final(self).i2c_requests(), old(delay).waited(), final(delay).waited())
            },
    {
        self.configuration = configuration;
        self.init(delay)
    }

    /// Tests the streaming channel: writes a pattern to the scratch register and
    /// reads it back.
    pub fn i2c_connected(&mut self) -> (r: Result<bool, OV2640Error<I2CErr, SPIErr>>)
        ensures
            final(self).stream_step(old(self)),
            old(self).spi_slot() is None ==> (r matches Err(OV2640Error::NoSpiPeripheral) && *final(self) == *old(self)),
            old(self).spi_slot() is Some ==> match r {
                Ok(ok) => exists|b: u8|
                    final(self).spi_requests() == old(self).spi_requests() + #[trigger] seq![
                        stream_write(TEST_REGISTER, 0x52, true),
                        stream_read(TEST_REGISTER, Some(b)),
                    ] && ok == (b == 0x52),
                Err(OV2640Error::SpiError(_)) => final(self).spi_requests() == old(self).spi_requests().push(stream_write(TEST_REGISTER, 0x52, false))
                    || final(self).spi_requests() == old(self).spi_requests() + seq![
                        stream_write(TEST_REGISTER, 0x52, true),
                        stream_read(TEST_REGISTER, None),
                    ],
                _ => false,
            },
    {
        match &mut self.spi {
            Some(bus) => {
                let ghost before = bus.requests();
                let r = write_spi(bus, TEST_REGISTER, 0x52);
                if let Err(e) = r {
                    return Err(e);
                }
                let r = read_spi(bus, TEST_REGISTER);
                match r {
                    Ok(b) => {
                        assert(bus.requests() =~= before + seq![
                            stream_write(TEST_REGISTER, 0x52, true),
                            stream_read(TEST_REGISTER, Some(b)),
                        ]);
                        Ok(b == 0x52)
                    },
                    Err(e) => {
                        assert(bus.requests() =~= before + seq![
                            stream_write(TEST_REGISTER, 0x52, true),
                            stream_read(TEST_REGISTER, None),
                        ]);
                        Err(e)
                    },
                }
            },
            None => Err(OV2640Error::NoSpiPeripheral),
        }
    }

    /// Tests the configuration channel: selects the sensor page and reads the
    /// product id.
    pub fn spi_connected(&mut self) -> (r: Result<bool, OV2640Error<I2CErr, SPIErr>>)
        ensures
            final(self).spi_slot() == old(self).spi_slot(),
            final(self).tables() == old(self).tables(),
            final(self).config() == old(self).config(),
            old(self).i2c_slot() is None ==> (r matches Err(OV2640Error::NoI2cPeripheral) && *final(self) == *old(self)),
            old(self).i2c_slot() is Some ==> final(self).i2c_slot() is Some && match r {
                Ok(ok) => exists|high: u8, low: u8|
                    final(self).i2c_requests() == old(self).i2c_requests() + #[trigger] chip_id_exchange(high, low)
                    && ok == chip_id_valid(high, low),
                Err(OV2640Error::I2CError(_)) => final(self).i2c_requests() == old(self).i2c_requests().push(failed_write((0xFF, 0x01)))
                    || final(self).i2c_requests() == old(self).i2c_requests() + seq![
                        register_writes(seq![(0xFF, 0x01)])[0],
                        register_read(CHIP_ID_HIGH, None),
                    ]
                    || exists|high: u8| final(self).i2c_requests() == old(self).i2c_requests() + #[trigger] chip_id_low_failed(high),
                _ => false,
            },
    {
        match &mut self.i2c {
            Some(bus) => {
                let ghost before = bus.requests();
                let r = write_register(bus, 0xFF, 0x01);
                if let Err(e) = r {
                    return Err(e);
                }
                let high = match read_register(bus, CHIP_ID_HIGH) {
                    Ok(b) => b,
                    Err(e) => {
                        assert(bus.requests() =~= before + seq![
                            register_writes(seq![(0xFFu8, 0x01u8)])[0],
                            register_read(CHIP_ID_HIGH, None),
                        ]);
                        return Err(e);
                    },
                };
                let low = match read_register(bus, CHIP_ID_LOW) {
                    Ok(b) => b,
                    Err(e) => {
                        assert(bus.requests() =~= before + chip_id_low_failed(high));
                        return Err(e);
                    },
                };
                assert(bus.requests() =~= before + chip_id_exchange(high, low));
                Ok(low == 0x26 && (high == 0x41 || high == 0x42))
            },
            None => Err(OV2640Error::NoI2cPeripheral),
        }
    }

    /// Clears the frame buffer.
    pub fn flush_fifo(&mut self) -> (r: Result<(), OV2640Error<I2CErr, SPIErr>>)
        ensures
            final(self).stream_step(old(self)),
            old(self).spi_slot() is None ==> (r matches Err(OV2640Error::NoSpiPeripheral) && *final(self) == *old(self)),
            old(self).spi_slot() is Some ==> (r is Err ==> (r matches Err(OV2640Error::SpiError(_))))
                && final(self).spi_requests() == old(self).spi_requests().push(stream_write(FIFO, FIFO_CLEAR_MASK, r is Ok)),
    {
        match &mut self.spi {
            Some(bus) => write_spi(bus, FIFO, FIFO_CLEAR_MASK),
            None => Err(OV2640Error::NoSpiPeripheral),
        }
    }

    /// Clears the frame buffer, then starts a capture into it.
    pub fn start_capture(&mut self) -> (r: Result<(), OV2640Error<I2CErr, SPIErr>>)
        ensures
            final(self).stream_step(old(self)),
            old(self).spi_slot() is None ==> (r matches Err(OV2640Error::NoSpiPeripheral) && *final(self) == *old(self)),
            old(self).spi_slot() is Some ==> match r {
                Ok(()) => final(self).spi_requests() == old(self).spi_requests() + seq![
                    stream_write(FIFO, FIFO_CLEAR_MASK, true),
                    stream_write(FIFO, FIFO_START_MASK, true),
                ],
                Err(OV2640Error::SpiError(_)) => final(self).spi_requests() == old(self).spi_requests().push(stream_write(FIFO, FIFO_CLEAR_MASK, false))
                    || final(self).spi_requests() == old(self).spi_requests() + seq![
                        stream_write(FIFO, FIFO_CLEAR_MASK, true),
                        stream_write(FIFO, FIFO_START_MASK, false),
                    ],
                _ => false,
            },
    {
        match &mut self.spi {
            Some(bus) => {
                let ghost before = bus.requests();
                let r = write_spi(bus, FIFO, FIFO_CLEAR_MASK);
                if let Err(e) = r {
                    return Err(e);
                }
                let r = write_spi(bus, FIFO, FIFO_START_MASK);
                assert(bus.requests() =~= before + seq![
                    stream_write(FIFO, FIFO_CLEAR_MASK, true),
                    stream_write(FIFO, FIFO_START_MASK, r is Ok),
                ]);
                r
            },
            None => Err(OV2640Error::NoSpiPeripheral),
        }
    }

    /// Reads the trigger register and tests the capture-complete bit.
    pub fn is_capture_done(&mut self) -> (r: Result<bool, OV2640Error<I2CErr, SPIErr>>)
        ensures
            final(self).stream_step(old(self)),
            old(self).spi_slot() is None ==> (r matches Err(OV2640Error::NoSpiPeripheral) && *final(self) == *old(self)),
            old(self).spi_slot() is Some ==> match r {
                Ok(done) => exists|b: u8|
                    final(self).spi_requests() == old(self).spi_requests().push(#[trigger] stream_read(TRIGGER, Some(b)))
                    && done == (b & CAPTURE_COMPLETE_MASK != 0),
                Err(OV2640Error::SpiError(_)) => final(self).spi_requests() == old(self).spi_requests().push(stream_read(TRIGGER, None)),
                _ => false,
            },
    {
        match &mut self.spi {
            Some(bus) => {
                let b = match read_spi(bus, TRIGGER) {
                    Ok(b) => b,
                    Err(e) => {
                        return Err(e);
                    },
                };
                Ok(b & CAPTURE_COMPLETE_MASK != 0)
            },
            None => Err(OV2640Error::NoSpiPeripheral),
        }
    }

    /// Reads the three length registers and returns the length of the image in
    /// the frame buffer.
    pub fn image_size(&mut self) -> (r: Result<usize, OV2640Error<I2CErr, SPIErr>>)
        ensures
            final(self).stream_step(old(self)),
            old(self).spi_slot() is None ==> (r matches Err(OV2640Error::NoSpiPeripheral) && *final(self) == *old(self)),
            old(self).spi_slot() is Some ==> match r {
                Ok(n) => exists|b1: u8, b2: u8, b3: u8|
                    final(self).spi_requests() == old(self).spi_requests() + #[trigger] size_reads(b1, b2, b3)
                    && n == fifo_length_of(b1, b2, b3),
                Err(OV2640Error::SpiError(_)) => exists|b1: u8, b2: u8, k: int|
                    0 <= k < 3 && final(self).spi_requests() == old(self).spi_requests() + #[trigger] size_reads_cut(b1, b2, k),
                _ => false,
            },
    {
        match &mut self.spi {
            Some(bus) => match length_bytes(bus) {
                Ok((b1, b2, b3)) => Ok(fifo_length(b1, b2, b3)),
                Err(e) => Err(e),
            },
            None => Err(OV2640Error::NoSpiPeripheral),
        }
    }

    /// Measures the image, then, where `buffer` holds it, sends the burst marker
    /// and fills `buffer` in one transfer; returns the image length.
    pub fn read_image(&mut self, buffer: &mut [u8]) -> (r: Result<usize, OV2640Error<I2CErr, SPIErr>>)
        ensures
            final(self).stream_step(old(self)),
            old(self).spi_slot() is None ==> {
                &&& r matches Err(OV2640Error::NoSpiPeripheral)
                &&& *final(self) == *old(self)
                &&& final(buffer)@ == old(buffer)@
            },
            old(self).spi_slot() is Some ==> match r {
                Ok(n) => n <= old(buffer)@.len() && exists|b1: u8, b2: u8, b3: u8|
                    final(self).spi_requests() == old(self).spi_requests() + #[trigger] size_reads(b1, b2, b3)
                        + seq![burst_marker(true), SpiRequest::Transfer { words: old(buffer)@, reply: Some(final(buffer)@) }]
                    && n == fifo_length_of(b1, b2, b3),
                Err(OV2640Error::InvalidBufferSize) => final(buffer)@ == old(buffer)@ && exists|b1: u8, b2: u8, b3: u8|
                    final(self).spi_requests() == old(self).spi_requests() + #[trigger] size_reads(b1, b2, b3)
                    && fifo_length_of(b1, b2, b3) > old(buffer)@.len(),
                Err(OV2640Error::SpiError(_)) => read_image_failed(
                    old(self).spi_requests(),
                    final(self).spi_requests(),
                    old(buffer)@,
                    final(buffer)@,
                ),
                _ => false,
            },
    {
        match &mut self.spi {
            Some(bus) => {
                let ghost before = bus.requests();
                let ghost old_buffer = buffer@;
                let (b1, b2, b3) = match length_bytes(bus) {
                    Ok(bytes) => bytes,
                    Err(e) => {
                        return Err(e);
                    },
                };
                let image_size = fifo_length(b1, b2, b3);
                if buffer.len() < image_size {
                    return Err(OV2640Error::InvalidBufferSize);
                }
                let marker = [FIFO_BURST];
                let res = bus.write(&marker);
                assert(marker@ =~= seq![FIFO_BURST]);
                if let Err(e) = res {
                    assert(bus.requests() =~= before + size_reads(b1, b2, b3) + seq![burst_marker(false)]);
                    return Err(OV2640Error::SpiError(e));
                }
                let res = bus.transfer_in_place(buffer);
                if let Err(e) = res {
                    assert(bus.requests() =~= before + size_reads(b1, b2, b3) + seq![
                        burst_marker(true),
                        SpiRequest::Transfer { words: old_buffer, reply: None },
                    ]);
                    return Err(OV2640Error::SpiError(e));
                }
                assert(bus.requests() =~= before + size_reads(b1, b2, b3) + seq![
                    burst_marker(true),
                    SpiRequest::Transfer { words: old_buffer, reply: Some(buffer@) },
                ]);
                Ok(image_size)
            },
            None => Err(OV2640Error::NoSpiPeripheral),
        }
    }

    /// Withdraws the streaming channel from the driver.
    pub fn take_spi(&mut self) -> (r: Option<SPI>)
        ensures
            r == old(self).spi_slot(),
            final(self).spi_slot() is None,
            final(self).i2c_slot() == old(self).i2c_slot(),
            final(self).tables() == old(self).tables(),
            final(self).config() == old(self).config(),
    {
        self.spi.take()
    }

    /// Withdraws the configuration channel from the driver.
    pub fn take_i2c(&mut self) -> (r: Option<I2C>)
        ensures
            r == old(self).i2c_slot(),
            final(self).i2c_slot() is None,
            final(self).spi_slot() == old(self).spi_slot(),
            final(self).tables() == old(self).tables(),
            final(self).config() == old(self).config(),
    {
        self.i2c.take()
    }

    /// The settings last applied successfully.
    pub fn configuration(&self) -> (r: Configuration)
        ensures
            r == self.config(),
    {
        self.configuration
    }
}

} // verus!

use std::cell::RefCell;
use std::collections::HashMap;
use std::rc::Rc;

use ov2640::{
    I2cRecord, SpiRecord, WaitRecord, Brightness, Configuration, ConfigurationBuilder, Contrast, Delay, ImageFormat, LightMode,
    OV2640Error, RegisterBus, RegisterTables, Resolution, Saturation, SpecialEffect, StreamBus,
    OV2640,
};

#[derive(Debug, Clone, PartialEq, Eq)]
enum Op {
    I2cWrite(u8, Vec<u8>),
    I2cWriteRead(u8, Vec<u8>),
    SpiWrite(Vec<u8>),
    SpiTransfer(usize),
    Wait(u32),
}

#[derive(Debug, Clone, PartialEq, Eq)]
struct BusFault;

type Log = Rc<RefCell<Vec<Op>>>;

struct MockI2c {
    log: Log,
    regs: HashMap<u8, u8>,
    writes_before_failure: Option<usize>,
}

impl RegisterBus for MockI2c {
    type Error = BusFault;

    // The record is a view for the verifier; nothing reads it at run time.
    fn requests(&self) -> I2cRecord {
        unreachable!()
    }

    fn write(&mut self, address: u8, bytes: &[u8]) -> Result<(), BusFault> {
        self.log.borrow_mut().push(Op::I2cWrite(address, bytes.to_vec()));
        match self.writes_before_failure {
            Some(0) => Err(BusFault),
            Some(n) => {
                self.writes_before_failure = Some(n - 1);
                Ok(())
            }
            None => Ok(()),
        }
    }

    fn write_read(&mut self, address: u8, bytes: &[u8], buffer: &mut [u8]) -> Result<(), BusFault> {
        self.log.borrow_mut().push(Op::I2cWriteRead(address, bytes.to_vec()));
        buffer[0] = *self.regs.get(&bytes[0]).unwrap_or(&0);
        Ok(())
    }
}

struct MockSpi {
    log: Log,
    regs: HashMap<u8, u8>,
    fail: bool,
}

impl StreamBus for MockSpi {
    type Error = BusFault;

    // The record is a view for the verifier; nothing reads it at run time.
    fn requests(&self) -> SpiRecord {
        unreachable!()
    }

    fn write(&mut self, words: &[u8]) -> Result<(), BusFault> {
        self.log.borrow_mut().push(Op::SpiWrite(words.to_vec()));
        if self.fail { Err(BusFault) } else { Ok(()) }
    }

    fn transfer_in_place(&mut self, words: &mut [u8]) -> Result<(), BusFault> {
        self.log.borrow_mut().push(Op::SpiTransfer(words.len()));
        if self.fail {
            return Err(BusFault);
        }
        if words.len() == 1 {
            words[0] = *self.regs.get(&words[0]).unwrap_or(&0);
        } else {
            for w in words.iter_mut() {
                *w = 0xAB;
            }
        }
        Ok(())
    }
}

struct MockDelay {
    log: Log,
}

impl Delay for MockDelay {
    // The record is a view for the verifier; nothing reads it at run time.
    fn waited(&self) -> WaitRecord {
        unreachable!()
    }

    fn delay_ms(&mut self, ms: u32) {
        self.log.borrow_mut().push(Op::Wait(ms));
    }
}

fn res_table(i: u8) -> Vec<(u8, u8)> {
    vec![(0x10 + i, i), (0x20 + i, i), (0x30 + i, i)]
}

fn tables() -> RegisterTables {
    RegisterTables {
        jpeg_init: vec![(0x01, 0x01), (0x02, 0x02)],
        yuv422: vec![(0x03, 0x03)],
        jpeg: vec![(0x04, 0x04)],
        qvga: vec![(0x05, 0x05), (0x06, 0x06)],
        jpeg_160x120: res_table(0),
        jpeg_176x144: res_table(1),
        jpeg_320x240: res_table(2),
        jpeg_352x288: res_table(3),
        jpeg_640x480: res_table(4),
        jpeg_800x600: res_table(5),
        jpeg_1024x768: res_table(6),
        jpeg_1280x1024: res_table(7),
        jpeg_1600x1200: res_table(8),
    }
}

const RESOLUTIONS: [Resolution; 9] = [
    Resolution::R160x120,
    Resolution::R176x144,
    Resolution::R320x240,
    Resolution::R352x288,
    Resolution::R640x480,
    Resolution::R800x600,
    Resolution::R1024x768,
    Resolution::R1280x1024,
    Resolution::R1600x1200,
];

struct Rig {
    log: Log,
    cam: OV2640<MockI2c, MockSpi>,
}

fn rig_with(configuration: Configuration, spi_regs: &[(u8, u8)], i2c_regs: &[(u8, u8)]) -> Rig {
    let log: Log = Rc::new(RefCell::new(Vec::new()));
    let i2c = MockI2c { log: log.clone(), regs: i2c_regs.iter().cloned().collect(), writes_before_failure: None };
    let spi = MockSpi { log: log.clone(), regs: spi_regs.iter().cloned().collect(), fail: false };
    let cam = OV2640::with_configuration(configuration, Some(i2c), Some(spi), tables());
    Rig { log, cam }
}

fn rig() -> Rig {
    rig_with(ConfigurationBuilder::new().build(), &[], &[])
}

fn writes(pairs: &[(u8, u8)]) -> Vec<Op> {
    pairs.iter().map(|&(r, v)| Op::I2cWrite(0x60, vec![r, v])).collect()
}

fn taken(log: &Log) -> Vec<Op> {
    std::mem::take(&mut *log.borrow_mut())
}

#[test]
fn new_driver_has_default_configuration() {
    let cam: OV2640<MockI2c, MockSpi> = OV2640::new(None, None, tables());
    assert_eq!(cam.configuration(), ConfigurationBuilder::new().build());
}

#[test]
fn set_resolution_outside_jpeg_fails_without_writes() {
    let qvga = ConfigurationBuilder::new().image_format(ImageFormat::QVGA).build();
    let mut r = rig_with(qvga, &[], &[]);
    assert_eq!(r.cam.set_resolution(Resolution::R640x480), Err(OV2640Error::CannotSetImageSizeOnNonJPEG));
    assert!(r.log.borrow().is_empty());
    assert_eq!(r.cam.configuration(), qvga);
}

#[test]
fn set_resolution_writes_each_table_and_commits() {
    let mut r = rig();
    for (i, res) in RESOLUTIONS.iter().enumerate() {
        assert_eq!(r.cam.set_resolution(*res), Ok(()));
        assert_eq!(taken(&r.log), writes(&res_table(i as u8)));
        assert_eq!(r.cam.configuration().resolution, *res);
    }
}

#[test]
fn set_resolution_failure_keeps_configuration() {
    let mut r = rig();
    r.cam.take_i2c();
    assert_eq!(r.cam.set_resolution(Resolution::R160x120), Err(OV2640Error::NoI2cPeripheral));
    assert_eq!(r.cam.configuration().resolution, Resolution::R1024x768);
}

#[test]
fn transport_failure_mid_sequence_stops_and_keeps_snapshot() {
    let log: Log = Rc::new(RefCell::new(Vec::new()));
    let i2c = MockI2c { log: log.clone(), regs: HashMap::new(), writes_before_failure: Some(2) };
    let mut cam: OV2640<MockI2c, MockSpi> = OV2640::new(Some(i2c), None, tables());
    assert_eq!(cam.set_light_mode(LightMode::Sunny), Err(OV2640Error::I2CError(BusFault)));
    assert_eq!(taken(&log), writes(&[(0xFF, 0x00), (0xC7, 0x40), (0xCC, 0x5E)]));
    assert_eq!(cam.configuration().light_mode, LightMode::Auto);
}

#[test]
fn image_size_composes_three_reads() {
    let mut r = rig_with(ConfigurationBuilder::new().build(), &[(0x42, 0x01), (0x43, 0x02), (0x44, 0x03)], &[]);
    assert_eq!(r.cam.image_size(), Ok(0x030201));
    assert_eq!(taken(&r.log), vec![Op::SpiTransfer(1), Op::SpiTransfer(1), Op::SpiTransfer(1)]);
}

#[test]
fn read_image_with_short_buffer_fails_before_transfer() {
    let mut r = rig_with(ConfigurationBuilder::new().build(), &[(0x42, 0x10), (0x43, 0x00), (0x44, 0x00)], &[]);
    let mut buffer = [0u8; 15];
    assert_eq!(r.cam.read_image(&mut buffer), Err(OV2640Error::InvalidBufferSize));
    assert_eq!(taken(&r.log), vec![Op::SpiTransfer(1), Op::SpiTransfer(1), Op::SpiTransfer(1)]);
    assert_eq!(buffer, [0u8; 15]);
}

#[test]
fn read_image_sends_burst_marker_then_one_transfer() {
    let mut r = rig_with(ConfigurationBuilder::new().build(), &[(0x42, 0x10), (0x43, 0x00), (0x44, 0x00)], &[]);
    let mut buffer = [0u8; 20];
    assert_eq!(r.cam.read_image(&mut buffer), Ok(16));
    assert_eq!(
        taken(&r.log),
        vec![
            Op::SpiTransfer(1),
            Op::SpiTransfer(1),
            Op::SpiTransfer(1),
            Op::SpiWrite(vec![0x3C]),
            Op::SpiTransfer(20),
        ]
    );
    assert_eq!(buffer, [0xAB; 20]);
}

#[test]
fn read_image_with_exact_buffer() {
    let mut r = rig_with(ConfigurationBuilder::new().build(), &[(0x42, 0x04), (0x43, 0x00), (0x44, 0x00)], &[]);
    let mut buffer = [0u8; 4];
    assert_eq!(r.cam.read_image(&mut buffer), Ok(4));
}

#[test]
fn streaming_operations_fail_once_channel_is_taken() {
    let mut r = rig();
    assert!(r.cam.take_spi().is_some());
    assert!(r.cam.take_spi().is_none());
    let mut buffer = [0u8; 8];
    assert_eq!(r.cam.flush_fifo(), Err(OV2640Error::NoSpiPeripheral));
    assert_eq!(r.cam.start_capture(), Err(OV2640Error::NoSpiPeripheral));
    assert_eq!(r.cam.is_capture_done(), Err(OV2640Error::NoSpiPeripheral));
    assert_eq!(r.cam.image_size(), Err(OV2640Error::NoSpiPeripheral));
    assert_eq!(r.cam.read_image(&mut buffer), Err(OV2640Error::NoSpiPeripheral));
    assert_eq!(r.cam.i2c_connected(), Err(OV2640Error::NoSpiPeripheral));
    assert!(r.log.borrow().is_empty());
}

#[test]
fn register_operations_fail_once_channel_is_taken() {
    let mut r = rig();
    assert!(r.cam.take_i2c().is_some());
    let mut delay = MockDelay { log: r.log.clone() };
    assert_eq!(r.cam.set_light_mode(LightMode::Home), Err(OV2640Error::NoI2cPeripheral));
    assert_eq!(r.cam.set_image_format(ImageFormat::JPEG, &mut delay), Err(OV2640Error::NoI2cPeripheral));
    assert_eq!(r.cam.init(&mut delay), Err(OV2640Error::NoI2cPeripheral));
    assert_eq!(r.cam.spi_connected(), Err(OV2640Error::NoI2cPeripheral));
    assert!(r.log.borrow().is_empty());
}

#[test]
fn spi_transport_failure_is_reported() {
    let log: Log = Rc::new(RefCell::new(Vec::new()));
    let spi = MockSpi { log: log.clone(), regs: HashMap::new(), fail: true };
    let mut cam: OV2640<MockI2c, MockSpi> = OV2640::new(None, Some(spi), tables());
    assert_eq!(cam.flush_fifo(), Err(OV2640Error::SpiError(BusFault)));
    assert_eq!(cam.image_size(), Err(OV2640Error::SpiError(BusFault)));
}

#[test]
fn set_image_format_qvga_waits_once_before_table() {
    let mut r = rig();
    let mut delay = MockDelay { log: r.log.clone() };
    assert_eq!(r.cam.set_image_format(ImageFormat::QVGA, &mut delay), Ok(()));
    let mut expected = writes(&[(0xFF, 0x01), (0x12, 0x80)]);
    expected.push(Op::Wait(100));
    expected.extend(writes(&[(0x05, 0x05), (0x06, 0x06)]));
    assert_eq!(taken(&r.log), expected);
    assert_eq!(r.cam.configuration().image_format, ImageFormat::QVGA);
}

#[test]
fn set_image_format_jpeg_waits_once_and_reloads_resolution() {
    let qvga = ConfigurationBuilder::new().image_format(ImageFormat::QVGA).resolution(Resolution::R320x240).build();
    let mut r = rig_with(qvga, &[], &[]);
    let mut delay = MockDelay { log: r.log.clone() };
    assert_eq!(r.cam.set_image_format(ImageFormat::JPEG, &mut delay), Ok(()));
    let mut expected = writes(&[(0xFF, 0x01), (0x12, 0x80)]);
    expected.push(Op::Wait(100));
    expected.extend(writes(&[(0x01, 0x01), (0x02, 0x02), (0x03, 0x03), (0x04, 0x04), (0xFF, 0x01), (0x15, 0x00)]));
    expected.extend(writes(&res_table(2)));
    let got = taken(&r.log);
    assert_eq!(got, expected);
    assert_eq!(got.iter().filter(|op| matches!(op, Op::Wait(_))).count(), 1);
    assert_eq!(r.cam.configuration().image_format, ImageFormat::JPEG);
}

#[test]
fn init_applies_settings_in_order() {
    let c = ConfigurationBuilder::new()
        .resolution(Resolution::R160x120)
        .light_mode(LightMode::Cloudy)
        .saturation(Saturation::Saturation1)
        .brightness(Brightness::Brightness3)
        .contrast(Contrast::Contrast2)
        .special_effect(SpecialEffect::Bluish)
        .build();
    let mut r = rig_with(c, &[], &[]);
    let mut delay = MockDelay { log: r.log.clone() };
    assert_eq!(r.cam.init(&mut delay), Ok(()));
    let mut expected = writes(&[(0xFF, 0x01), (0x12, 0x80)]);
    expected.push(Op::Wait(100));
    expected.extend(writes(&[(0x01, 0x01), (0x02, 0x02), (0x03, 0x03), (0x04, 0x04), (0xFF, 0x01), (0x15, 0x00)]));
    expected.extend(writes(&res_table(0)));
    expected.extend(writes(&res_table(0)));
    expected.extend(writes(&[(0xFF, 0x00), (0xC7, 0x40), (0xCC, 0x65), (0xCD, 0x41), (0xCE, 0x4F)]));
    expected.extend(writes(&[(0xFF, 0x00), (0x7C, 0x00), (0x7D, 0x02), (0x7C, 0x04), (0x7D, 0x58), (0x7D, 0x58)]));
    expected.extend(writes(&[(0xFF, 0x00), (0x7C, 0x00), (0x7D, 0x04), (0x7C, 0x09), (0x7D, 0x10), (0x7D, 0x00)]));
    expected.extend(writes(&[
        (0xFF, 0x00), (0x7C, 0x00), (0x7D, 0x04), (0x7C, 0x07), (0x7D, 0x20), (0x7D, 0x20), (0x7D, 0x20), (0x7D, 0x06),
    ]));
    expected.extend(writes(&[(0xFF, 0x00), (0x7C, 0x00), (0x7D, 0x18), (0x7C, 0x05), (0x7D, 0xA0), (0x7D, 0x40)]));
    assert_eq!(taken(&r.log), expected);
    assert_eq!(r.cam.configuration(), c);
}

#[test]
fn init_in_qvga_refuses_resolution() {
    let c = ConfigurationBuilder::new().image_format(ImageFormat::QVGA).build();
    let mut r = rig_with(c, &[], &[]);
    let mut delay = MockDelay { log: r.log.clone() };
    assert_eq!(r.cam.init(&mut delay), Err(OV2640Error::CannotSetImageSizeOnNonJPEG));
    let mut expected = writes(&[(0xFF, 0x01), (0x12, 0x80)]);
    expected.push(Op::Wait(100));
    expected.extend(writes(&[(0x05, 0x05), (0x06, 0x06)]));
    assert_eq!(taken(&r.log), expected);
}

#[test]
fn set_configuration_replaces_snapshot() {
    let mut r = rig();
    let mut delay = MockDelay { log: r.log.clone() };
    let c = ConfigurationBuilder::new().special_effect(SpecialEffect::Reddish).build();
    assert_eq!(r.cam.set_configuration(c, &mut delay), Ok(()));
    assert_eq!(r.cam.configuration(), c);
}

#[test]
fn setting_operations_commit_values() {
    let mut r = rig();
    assert_eq!(r.cam.set_saturation(Saturation::Saturation3), Ok(()));
    assert_eq!(r.cam.set_brightness(Brightness::Brightness4), Ok(()));
    assert_eq!(r.cam.set_contrast(Contrast::Contrast0), Ok(()));
    assert_eq!(r.cam.set_special_effect(SpecialEffect::BlackWhite), Ok(()));
    let c = r.cam.configuration();
    assert_eq!(c.saturation, Saturation::Saturation3);
    assert_eq!(c.brightness, Brightness::Brightness4);
    assert_eq!(c.special_effect, SpecialEffect::BlackWhite);
    assert_eq!(taken(&r.log).len(), 6 + 6 + 8 + 6);
}

#[test]
fn capture_control_writes() {
    let mut r = rig();
    assert_eq!(r.cam.flush_fifo(), Ok(()));
    assert_eq!(r.cam.start_capture(), Ok(()));
    assert_eq!(
        taken(&r.log),
        vec![Op::SpiWrite(vec![0x84, 0x00]), Op::SpiWrite(vec![0x84, 0x00]), Op::SpiWrite(vec![0x84, 0x00])]
    );
}

#[test]
fn capture_done_tests_completion_bit() {
    let mut r = rig_with(ConfigurationBuilder::new().build(), &[(0x41, 0x08)], &[]);
    assert_eq!(r.cam.is_capture_done(), Ok(true));
    let mut r = rig_with(ConfigurationBuilder::new().build(), &[(0x41, 0xF7)], &[]);
    assert_eq!(r.cam.is_capture_done(), Ok(false));
}

#[test]
fn streaming_channel_check() {
    let mut r = rig_with(ConfigurationBuilder::new().build(), &[(0x00, 0x52)], &[]);
    assert_eq!(r.cam.i2c_connected(), Ok(true));
    assert_eq!(taken(&r.log), vec![Op::SpiWrite(vec![0x80, 0x52]), Op::SpiTransfer(1)]);
    let mut r = rig_with(ConfigurationBuilder::new().build(), &[(0x00, 0x00)], &[]);
    assert_eq!(r.cam.i2c_connected(), Ok(false));
}

#[test]
fn register_channel_check() {
    let mut r = rig_with(ConfigurationBuilder::new().build(), &[], &[(0x0A, 0x42), (0x0B, 0x26)]);
    assert_eq!(r.cam.spi_connected(), Ok(true));
    assert_eq!(
        taken(&r.log),
        vec![
            Op::I2cWrite(0x60, vec![0xFF, 0x01]),
            Op::I2cWriteRead(0x60, vec![0x0A]),
            Op::I2cWriteRead(0x60, vec![0x0B]),
        ]
    );
    let mut r = rig_with(ConfigurationBuilder::new().build(), &[], &[(0x0A, 0x43), (0x0B, 0x26)]);
    assert_eq!(r.cam.spi_connected(), Ok(false));
}

#[test]
fn empty_table_without_register_channel_reports_missing_channel() {
    let mut t = tables();
    t.jpeg_640x480 = Vec::new();
    let mut cam: OV2640<MockI2c, MockSpi> = OV2640::new(None, None, t);
    assert_eq!(cam.set_resolution(Resolution::R640x480), Err(OV2640Error::NoI2cPeripheral));
    assert_eq!(cam.configuration().resolution, Resolution::R1024x768);
}

#[test]
fn read_image_transfer_failure_is_reported() {
    let log: Log = Rc::new(RefCell::new(Vec::new()));
    let spi = MockSpi { log: log.clone(), regs: HashMap::new(), fail: false };
    let mut cam: OV2640<MockI2c, MockSpi> = OV2640::new(None, Some(spi), tables());
    let mut buffer = [0u8; 4];
    assert_eq!(cam.read_image(&mut buffer), Ok(0));
    let spi = cam.take_spi().unwrap();
    let spi = MockSpi { fail: true, ..spi };
    let mut cam: OV2640<MockI2c, MockSpi> = OV2640::new(None, Some(spi), tables());
    assert_eq!(cam.read_image(&mut buffer), Err(OV2640Error::SpiError(BusFault)));
}

#[test]
fn taking_a_channel_leaves_the_other() {
    let mut r = rig();
    assert!(r.cam.take_spi().is_some());
    assert_eq!(r.cam.set_light_mode(LightMode::Sunny), Ok(()));
    assert!(r.cam.take_i2c().is_some());
    assert!(r.cam.take_i2c().is_none());
}

//! The register writes that realise each value of each visual setting.
use vstd::prelude::*;
use crate::config::{Brightness, Contrast, LightMode, Resolution, Saturation, SpecialEffect};

verus! {

/// The bulk `(register, value)` tables of the sensor's format and resolution
/// modes, in the order in which they are written.
pub struct RegisterTables {
    /// Base initialisation, loaded first when switching to JPEG.
    pub jpeg_init: Vec<(u8, u8)>,
    /// YUV422 colour space, loaded after the base initialisation.
    pub yuv422: Vec<(u8, u8)>,
    /// JPEG output mode, loaded after the colour space.
    pub jpeg: Vec<(u8, u8)>,
    /// QVGA output mode.
    pub qvga: Vec<(u8, u8)>,
    pub jpeg_160x120: Vec<(u8, u8)>,
    pub jpeg_176x144: Vec<(u8, u8)>,
    pub jpeg_320x240: Vec<(u8, u8)>,
    pub jpeg_352x288: Vec<(u8, u8)>,
    pub jpeg_640x480: Vec<(u8, u8)>,
    pub jpeg_800x600: Vec<(u8, u8)>,
    pub jpeg_1024x768: Vec<(u8, u8)>,
    pub jpeg_1280x1024: Vec<(u8, u8)>,
    pub jpeg_1600x1200: Vec<(u8, u8)>,
}

impl RegisterTables {
    /// The bulk table of a resolution.
    pub open spec fn resolution_table(&self, resolution: Resolution) -> Seq<(u8, u8)> {
        match resolution {
            Resolution::R160x120 => self.jpeg_160x120@,
            Resolution::R176x144 => self.jpeg_176x144@,
            Resolution::R320x240 => self.jpeg_320x240@,
            Resolution::R352x288 => self.jpeg_352x288@,
            Resolution::R640x480 => self.jpeg_640x480@,
            Resolution::R800x600 => self.jpeg_800x600@,
            Resolution::R1024x768 => self.jpeg_1024x768@,
            Resolution::R1280x1024 => self.jpeg_1280x1024@,
            Resolution::R1600x1200 => self.jpeg_1600x1200@,
        }
    }

    /// The bulk table of a resolution.
    pub fn table_for(&self, resolution: Resolution) -> (r: &[(u8, u8)])
        ensures
            r@ == self.resolution_table(resolution),
    {
        match resolution {
            Resolution::R160x120 => self.jpeg_160x120.as_slice(),
            Resolution::R176x144 => self.jpeg_176x144.as_slice(),
            Resolution::R320x240 => self.jpeg_320x240.as_slice(),
            Resolution::R352x288 => self.jpeg_352x288.as_slice(),
            Resolution::R640x480 => self.jpeg_640x480.as_slice(),
            Resolution::R800x600 => self.jpeg_800x600.as_slice(),
            Resolution::R1024x768 => self.jpeg_1024x768.as_slice(),
            Resolution::R1280x1024 => self.jpeg_1280x1024.as_slice(),
            Resolution::R1600x1200 => self.jpeg_1600x1200.as_slice(),
        }
    }
}

/// White-balance preset: bank select, then the white-balance control and, for a
/// manual preset, the three channel gains.
pub open spec fn light_mode_writes(mode: LightMode) -> Seq<(u8, u8)> {
    match mode {
        LightMode::Auto => seq![(0xFF, 0x00), (0xC7, 0x00)],
        LightMode::Sunny => seq![(0xFF, 0x00), (0xC7, 0x40), (0xCC, 0x5E), (0xCD, 0x41), (0xCE, 0x54)],
        LightMode::Cloudy => seq![(0xFF, 0x00), (0xC7, 0x40), (0xCC, 0x65), (0xCD, 0x41), (0xCE, 0x4F)],
        LightMode::Office => seq![(0xFF, 0x00), (0xC7, 0x40), (0xCC, 0x52), (0xCD, 0x41), (0xCE, 0x06)],
        LightMode::Home => seq![(0xFF, 0x00), (0xC7, 0x40), (0xCC, 0x42), (0xCD, 0x3F), (0xCE, 0x71)],
    }
}

/// The level byte of a saturation setting.
pub open spec fn saturation_level(s: Saturation) -> u8 {
    match s {
        Saturation::Saturation0 => 0x68,
        Saturation::Saturation1 => 0x58,
        Saturation::Saturation2 => 0x48,
        Saturation::Saturation3 => 0x38,
        Saturation::Saturation4 => 0x28,
    }
}

/// Bank select, indirect address of the saturation pair, then the level twice.
pub open spec fn saturation_writes(s: Saturation) -> Seq<(u8, u8)> {
    let v = saturation_level(s);
    seq![(0xFF, 0x00), (0x7C, 0x00), (0x7D, 0x02), (0x7C, 0x04), (0x7D, v), (0x7D, v)]
}

/// The level byte of a brightness setting.
pub open spec fn brightness_level(b: Brightness) -> u8 {
    match b {
        Brightness::Brightness0 => 0x40,
        Brightness::Brightness1 => 0x30,
        Brightness::Brightness2 => 0x20,
        Brightness::Brightness3 => 0x10,
        Brightness::Brightness4 => 0x00,
    }
}

/// Bank select, indirect address of the brightness byte, the level, then a latch.
pub open spec fn brightness_writes(b: Brightness) -> Seq<(u8, u8)> {
    seq![(0xFF, 0x00), (0x7C, 0x00), (0x7D, 0x04), (0x7C, 0x09), (0x7D, brightness_level(b)), (0x7D, 0x00)]
}

/// The two level bytes of a contrast setting.
pub open spec fn contrast_levels(c: Contrast) -> (u8, u8) {
    match c {
        Contrast::Contrast0 => (0x28, 0x0C),
        Contrast::Contrast1 => (0x24, 0x16),
        Contrast::Contrast2 => (0x20, 0x20),
        Contrast::Contrast3 => (0x20, 0x2A),
        Contrast::Contrast4 => (0x18, 0x34),
    }
}

/// Bank select, indirect address of the contrast bytes, the two levels, then a latch.
pub open spec fn contrast_writes(c: Contrast) -> Seq<(u8, u8)> {
    let (a, b) = contrast_levels(c);
    seq![
        (0xFF, 0x00), (0x7C, 0x00), (0x7D, 0x04), (0x7C, 0x07), (0x7D, 0x20),
        (0x7D, a), (0x7D, b), (0x7D, 0x06),
    ]
}

/// The mode byte and the two colour bytes of a special effect.
pub open spec fn special_effect_levels(e: SpecialEffect) -> (u8, u8, u8) {
    match e {
        SpecialEffect::Antique => (0x18, 0x40, 0xA6),
        SpecialEffect::Bluish => (0x18, 0xA0, 0x40),
        SpecialEffect::Greenish => (0x18, 0x40, 0x40),
        SpecialEffect::Reddish => (0x18, 0x40, 0xC0),
        SpecialEffect::BlackWhite => (0x18, 0x80, 0x80),
        SpecialEffect::Negative => (0x40, 0x80, 0x80),
        SpecialEffect::BlackWhiteNegative => (0x58, 0x80, 0x80),
        SpecialEffect::Normal => (0x00, 0x80, 0x80),
    }
}

/// Bank select, the mode byte, then the two colour bytes.
pub open spec fn special_effect_writes(e: SpecialEffect) -> Seq<(u8, u8)> {
    let (m, u, v) = special_effect_levels(e);
    seq![(0xFF, 0x00), (0x7C, 0x00), (0x7D, m), (0x7C, 0x05), (0x7D, u), (0x7D, v)]
}

pub fn light_mode_sequence(mode: LightMode) -> (r: Vec<(u8, u8)>)
    ensures
        r@ == light_mode_writes(mode),
{
    let r = match mode {
        LightMode::Auto => vec![(0xFF, 0x00), (0xC7, 0x00)],
        LightMode::Sunny => vec![(0xFF, 0x00), (0xC7, 0x40), (0xCC, 0x5E), (0xCD, 0x41), (0xCE, 0x54)],
        LightMode::Cloudy => vec![(0xFF, 0x00), (0xC7, 0x40), (0xCC, 0x65), (0xCD, 0x41), (0xCE, 0x4F)],
        LightMode::Office => vec![(0xFF, 0x00), (0xC7, 0x40), (0xCC, 0x52), (0xCD, 0x41), (0xCE, 0x06)],
        LightMode::Home => vec![(0xFF, 0x00), (0xC7, 0x40), (0xCC, 0x42), (0xCD, 0x3F), (0xCE, 0x71)],
    };
    assert(r@ =~= light_mode_writes(mode));
    r
}

pub fn saturation_sequence(s: Saturation) -> (r: Vec<(u8, u8)>)
    ensures
        r@ == saturation_writes(s),
{
    let v: u8 = match s {
        Saturation::Saturation0 => 0x68,
        Saturation::Saturation1 => 0x58,
        Saturation::Saturation2 => 0x48,
        Saturation::Saturation3 => 0x38,
        Saturation::Saturation4 => 0x28,
    };
    let r = vec![(0xFF, 0x00), (0x7C, 0x00), (0x7D, 0x02), (0x7C, 0x04), (0x7D, v), (0x7D, v)];
    assert(r@ =~= saturation_writes(s));
    r
}

pub fn brightness_sequence(b: Brightness) -> (r: Vec<(u8, u8)>)
    ensures
        r@ == brightness_writes(b),
{
    let v: u8 = match b {
        Brightness::Brightness0 => 0x40,
        Brightness::Brightness1 => 0x30,
        Brightness::Brightness2 => 0x20,
        Brightness::Brightness3 => 0x10,
        Brightness::Brightness4 => 0x00,
    };
    let r = vec![(0xFF, 0x00), (0x7C, 0x00), (0x7D, 0x04), (0x7C, 0x09), (0x7D, v), (0x7D, 0x00)];
    assert(r@ =~= brightness_writes(b));
    r
}

pub fn contrast_sequence(c: Contrast) -> (r: Vec<(u8, u8)>)
    ensures
        r@ == contrast_writes(c),
{
    let (a, b): (u8, u8) = match c {
        Contrast::Contrast0 => (0x28, 0x0C),
        Contrast::Contrast1 => (0x24, 0x16),
        Contrast::Contrast2 => (0x20, 0x20),
        Contrast::Contrast3 => (0x20, 0x2A),
        Contrast::Contrast4 => (0x18, 0x34),
    };
    let r = vec![
        (0xFF, 0x00), (0x7C, 0x00), (0x7D, 0x04), (0x7C, 0x07), (0x7D, 0x20),
        (0x7D, a), (0x7D, b), (0x7D, 0x06),
    ];
    assert(r@ =~= contrast_writes(c));
    r
}

pub fn special_effect_sequence(e: SpecialEffect) -> (r: Vec<(u8, u8)>)
    ensures
        r@ == special_effect_writes(e),
{
    let (m, u, v): (u8, u8, u8) = match e {
        SpecialEffect::Antique => (0x18, 0x40, 0xA6),
        SpecialEffect::Bluish => (0x18, 0xA0, 0x40),
        SpecialEffect::Greenish => (0x18, 0x40, 0x40),
        SpecialEffect::Reddish => (0x18, 0x40, 0xC0),
        SpecialEffect::BlackWhite => (0x18, 0x80, 0x80),
        SpecialEffect::Negative => (0x40, 0x80, 0x80),
        SpecialEffect::BlackWhiteNegative => (0x58, 0x80, 0x80),
        SpecialEffect::Normal => (0x00, 0x80, 0x80),
    };
    let r = vec![(0xFF, 0x00), (0x7C, 0x00), (0x7D, m), (0x7C, 0x05), (0x7D, u), (0x7D, v)];
    assert(r@ =~= special_effect_writes(e));
    r
}

} // verus!

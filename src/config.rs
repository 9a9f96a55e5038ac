//! Visual settings of the sensor and the snapshot that holds one of each.
use vstd::prelude::*;

verus! {

/// Output encoding of the sensor.
#[derive(Clone, Copy, Debug, PartialEq, Eq, Structural)]
pub enum ImageFormat {
    JPEG,
    QVGA,
}

/// Output resolution; only meaningful in JPEG mode.
#[derive(Clone, Copy, Debug, PartialEq, Eq, Structural)]
pub enum Resolution {
    R160x120,
    R176x144,
    R320x240,
    R352x288,
    R640x480,
    R800x600,
    R1024x768,
    R1280x1024,
    R1600x1200,
}

/// White-balance preset.
#[derive(Clone, Copy, Debug, PartialEq, Eq, Structural)]
pub enum LightMode {
    Auto,
    Sunny,
    Cloudy,
    Office,
    Home,
}

#[derive(Clone, Copy, Debug, PartialEq, Eq, Structural)]
pub enum Saturation {
    Saturation0,
    Saturation1,
    Saturation2,
    Saturation3,
    Saturation4,
}

#[derive(Clone, Copy, Debug, PartialEq, Eq, Structural)]
pub enum Brightness {
    Brightness0,
    Brightness1,
    Brightness2,
    Brightness3,
    Brightness4,
}

#[derive(Clone, Copy, Debug, PartialEq, Eq, Structural)]
pub enum Contrast {
    Contrast0,
    Contrast1,
    Contrast2,
    Contrast3,
    Contrast4,
}

#[derive(Clone, Copy, Debug, PartialEq, Eq, Structural)]
pub enum SpecialEffect {
    Normal,
    Antique,
    Bluish,
    Greenish,
    Reddish,
    BlackWhite,
    Negative,
    BlackWhiteNegative,
}

/// One value of each visual setting.
#[derive(Clone, Copy, Debug, PartialEq, Eq, Structural)]
pub struct Configuration {
    pub image_format: ImageFormat,
    pub resolution: Resolution,
    pub light_mode: LightMode,
    pub saturation: Saturation,
    pub brightness: Brightness,
    pub contrast: Contrast,
    pub special_effect: SpecialEffect,
}

/// Optional override of each setting; unset settings take their defaults.
#[derive(Clone, Copy, Debug, PartialEq, Eq, Structural)]
pub struct ConfigurationBuilder {
    pub(crate) image_format: Option<ImageFormat>,
    pub(crate) resolution: Option<Resolution>,
    pub(crate) light_mode: Option<LightMode>,
    pub(crate) saturation: Option<Saturation>,
    pub(crate) brightness: Option<Brightness>,
    pub(crate) contrast: Option<Contrast>,
    pub(crate) special_effect: Option<SpecialEffect>,
}

/// The configuration that a builder with no overrides yields.
pub open spec fn default_configuration() -> Configuration {
    Configuration {
        image_format: ImageFormat::JPEG,
        resolution: Resolution::R1024x768,
        light_mode: LightMode::Auto,
        saturation: Saturation::Saturation0,
        brightness: Brightness::Brightness0,
        contrast: Contrast::Contrast0,
        special_effect: SpecialEffect::Normal,
    }
}

/// The value an optional override resolves to.
pub open spec fn or_default<T>(o: Option<T>, d: T) -> T {
    match o {
        Some(v) => v,
        None => d,
    }
}

impl ConfigurationBuilder {
    /// The overrides of this builder, as a view.
    pub closed spec fn overrides(self) -> (
        Option<ImageFormat>,
        Option<Resolution>,
        Option<LightMode>,
        Option<Saturation>,
        Option<Brightness>,
        Option<Contrast>,
        Option<SpecialEffect>,
    ) {
        (
            self.image_format,
            self.resolution,
            self.light_mode,
            self.saturation,
            self.brightness,
            self.contrast,
            self.special_effect,
        )
    }

    /// What `build` yields for this builder: each override, else its default.
    pub open spec fn spec_build(self) -> Configuration {
        let d = default_configuration();
        let o = self.overrides();
        Configuration {
            image_format: or_default(o.0, d.image_format),
            resolution: or_default(o.1, d.resolution),
            light_mode: or_default(o.2, d.light_mode),
            saturation: or_default(o.3, d.saturation),
            brightness: or_default(o.4, d.brightness),
            contrast: or_default(o.5, d.contrast),
            special_effect: or_default(o.6, d.special_effect),
        }
    }

    pub fn new() -> (r: Self)
        ensures
            r.overrides() == (
                None::<ImageFormat>,
                None::<Resolution>,
                None::<LightMode>,
                None::<Saturation>,
                None::<Brightness>,
                None::<Contrast>,
                None::<SpecialEffect>,
            ),
    {
        Self::default()
    }

    pub fn image_format(self, image_format: ImageFormat) -> (r: Self)
        ensures
            r.overrides() == (Some(image_format), self.overrides().1, self.overrides().2,
                self.overrides().3, self.overrides().4, self.overrides().5, self.overrides().6),
    {
        Self { image_format: Some(image_format), ..self }
    }

    pub fn resolution(self, resolution: Resolution) -> (r: Self)
        ensures
            r.overrides() == (self.overrides().0, Some(resolution), self.overrides().2,
                self.overrides().3, self.overrides().4, self.overrides().5, self.overrides().6),
    {
        Self { resolution: Some(resolution), ..self }
    }

    pub fn light_mode(self, light_mode: LightMode) -> (r: Self)
        ensures
            r.overrides() == (self.overrides().0, self.overrides().1, Some(light_mode),
                self.overrides().3, self.overrides().4, self.overrides().5, self.overrides().6),
    {
        Self { light_mode: Some(light_mode), ..self }
    }

    pub fn saturation(self, saturation: Saturation) -> (r: Self)
        ensures
            r.overrides() == (self.overrides().0, self.overrides().1, self.overrides().2,
                Some(saturation), self.overrides().4, self.overrides().5, self.overrides().6),
    {
        Self { saturation: Some(saturation), ..self }
    }

    pub fn brightness(self, brightness: Brightness) -> (r: Self)
        ensures
            r.overrides() == (self.overrides().0, self.overrides().1, self.overrides().2,
                self.overrides().3, Some(brightness), self.overrides().5, self.overrides().6),
    {
        Self { brightness: Some(brightness), ..self }
    }

    pub fn contrast(self, contrast: Contrast) -> (r: Self)
        ensures
            r.overrides() == (self.overrides().0, self.overrides().1, self.overrides().2,
                self.overrides().3, self.overrides().4, Some(contrast), self.overrides().6),
    {
        Self { contrast: Some(contrast), ..self }
    }

    pub fn special_effect(self, special_effect: SpecialEffect) -> (r: Self)
        ensures
            r.overrides() == (self.overrides().0, self.overrides().1, self.overrides().2,
                self.overrides().3, self.overrides().4, self.overrides().5, Some(special_effect)),
    {
        Self { special_effect: Some(special_effect), ..self }
    }

    /// The snapshot: every override that was set, every other setting at its default.
    pub fn build(&self) -> (r: Configuration)
        ensures
            r == self.spec_build(),
    {
        let image_format = match self.image_format {
            Some(image_format) => image_format,
            None => ImageFormat::JPEG,
        };
        let resolution = match self.resolution {
            Some(resolution) => resolution,
            None => Resolution::R1024x768,
        };
        let light_mode = match self.light_mode {
            Some(light_mode) => light_mode,
            None => LightMode::Auto,
        };
        let saturation = match self.saturation {
            Some(saturation) => saturation,
            None => Saturation::Saturation0,
        };
        let brightness = match self.brightness {
            Some(brightness) => brightness,
            None => Brightness::Brightness0,
        };
        let contrast = match self.contrast {
            Some(contrast) => contrast,
            None => Contrast::Contrast0,
        };
        let special_effect = match self.special_effect {
            Some(special_effect) => special_effect,
            None => SpecialEffect::Normal,
        };
        Configuration {
            image_format,
            resolution,
            light_mode,
            saturation,
            brightness,
            contrast,
            special_effect,
        }
    }
}

impl Default for ConfigurationBuilder {
    fn default() -> (r: Self)
        ensures
            r.overrides() == (
                None::<ImageFormat>,
                None::<Resolution>,
                None::<LightMode>,
                None::<Saturation>,
                None::<Brightness>,
                None::<Contrast>,
                None::<SpecialEffect>,
            ),
    {
        Self {
            image_format: None,
            resolution: None,
            light_mode: None,
            saturation: None,
            brightness: None,
            contrast: None,
            special_effect: None,
        }
    }
}

/// Every setting left unset on a builder comes out of `build` at its documented
/// default, whatever the other settings are.
pub proof fn lemma_unset_settings_take_defaults(b: ConfigurationBuilder)
    ensures
        b.overrides().0 is None ==> b.spec_build().image_format == ImageFormat::JPEG,
        b.overrides().1 is None ==> b.spec_build().resolution == Resolution::R1024x768,
        b.overrides().2 is None ==> b.spec_build().light_mode == LightMode::Auto,
        b.overrides().3 is None ==> b.spec_build().saturation == Saturation::Saturation0,
        b.overrides().4 is None ==> b.spec_build().brightness == Brightness::Brightness0,
        b.overrides().5 is None ==> b.spec_build().contrast == Contrast::Contrast0,
        b.overrides().6 is None ==> b.spec_build().special_effect == SpecialEffect::Normal,
{
}

/// A builder with no overrides yields exactly the default configuration.
pub proof fn lemma_fresh_builder_builds_defaults(b: ConfigurationBuilder)
    requires
        b.overrides() == (
            None::<ImageFormat>,
            None::<Resolution>,
            None::<LightMode>,
            None::<Saturation>,
            None::<Brightness>,
            None::<Contrast>,
            None::<SpecialEffect>,
        ),
    ensures
        b.spec_build() == default_configuration(),
{
}

} // verus!

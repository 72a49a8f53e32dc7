//! The capability table: static metadata for every supported device family.
//!
//! Every other component queries this table; it has no dependencies and no
//! error paths. Each attribute is a pure function of the [`Kind`] tag.

use vstd::prelude::*;

verus! {

/// Vendor ID used by Elgato products
pub const ELGATO_VENDOR_ID: u16 = 0x0fd9;
/// Vendor ID used by Ajazz products
pub const AJAZZ_VENDOR_ID: u16 = 0x0300;
/// Vendor ID used by MiraBox products
pub const MIRABOX_VENDOR_ID: u16 = 0x6603;

/// Product ID of first revision of original Stream Deck
pub const PID_STREAMDECK_ORIGINAL: u16 = 0x0060;
/// Product ID of second revision of original Stream Deck
pub const PID_STREAMDECK_ORIGINAL_V2: u16 = 0x006d;
/// Product ID of Stream Deck Mini
pub const PID_STREAMDECK_MINI: u16 = 0x0063;
/// Product ID of first revision of Stream Deck XL
pub const PID_STREAMDECK_XL: u16 = 0x006c;
/// Product ID of second revision of Stream Deck XL
pub const PID_STREAMDECK_XL_V2: u16 = 0x008f;
/// Product ID of Stream Deck Mk2
pub const PID_STREAMDECK_MK2: u16 = 0x0080;
/// Product ID of Stream Deck Mini Mk2
pub const PID_STREAMDECK_MINI_MK2: u16 = 0x0090;
/// Product ID of Stream Deck Pedal
pub const PID_STREAMDECK_PEDAL: u16 = 0x0086;
/// Product ID of Stream Deck Plus
pub const PID_STREAMDECK_PLUS: u16 = 0x0084;
/// Product ID of Stream Deck Neo
pub const PID_STREAMDECK_NEO: u16 = 0x009a;
/// Product ID of Ajazz AKP153
pub const PID_AJAZZ_AKP153: u16 = 0x1010;
/// Product ID of Ajazz AKP153E
pub const PID_AJAZZ_AKP153E: u16 = 0x1020;
/// Product ID of Ajazz AKP153R
pub const PID_AJAZZ_AKP153R: u16 = 0x1030;
/// Product ID of Ajazz AKP815
pub const PID_AJAZZ_AKP815: u16 = 0x1815;
/// Product ID of Ajazz AKP03
pub const PID_AJAZZ_AKP03: u16 = 0x3003;
/// Product ID of Ajazz AKP03E
pub const PID_AJAZZ_AKP03E: u16 = 0x3103;
/// Product ID of Ajazz AKP03R
pub const PID_AJAZZ_AKP03R: u16 = 0x3203;
/// Product ID of MiraBox HSV293S
pub const PID_MIRABOX_HSV293S: u16 = 0x1005;
/// Product ID of MiraBox DK0108D
pub const PID_MIRABOX_DK0108D: u16 = 0x1008;
/// Product ID of MiraBox E3EN
pub const PID_MIRABOX_E3EN: u16 = 0x1003;

/// Enum describing kinds of devices out there
#[derive(Copy, Clone, Debug, Hash, PartialEq, Eq, Structural)]
pub enum Kind {
    /// First revision of original Stream Deck
    Original,
    /// Second revision of original Stream Deck
    OriginalV2,
    /// Stream Deck Mini
    Mini,
    /// First revision of Stream Deck XL
    Xl,
    /// Second revision of Stream Deck XL
    XlV2,
    /// Stream Deck Mk2
    Mk2,
    /// Stream Deck Mini Mk2
    MiniMk2,
    /// Stream Deck Pedal
    Pedal,
    /// Stream Deck Plus
    Plus,
    /// Stream Deck Neo
    Neo,
    /// Ajazz AKP153
    Akp153,
    /// Ajazz AKP153E
    Akp153E,
    /// Ajazz AKP153R
    Akp153R,
    /// Ajazz AKP815
    Akp815,
    /// Ajazz AKP03
    Akp03,
    /// Ajazz AKP03E
    Akp03E,
    /// Ajazz AKP03R
    Akp03R,
    /// MiraBox HSV293S
    MiraBoxHSV293S,
    /// MiraBox DK0108D
    MiraBoxDK0108D,
    /// MiraBox E3EN
    MiraBoxE3EN,
}

impl Kind {
    /// Which kind a product ID denotes, if any.
    pub open spec fn spec_from_pid(pid: u16) -> Option<Kind> {
        match pid {
            PID_STREAMDECK_ORIGINAL => Some(Kind::Original),
            PID_STREAMDECK_ORIGINAL_V2 => Some(Kind::OriginalV2),
            PID_STREAMDECK_MINI => Some(Kind::Mini),
            PID_STREAMDECK_XL => Some(Kind::Xl),
            PID_STREAMDECK_XL_V2 => Some(Kind::XlV2),
            PID_STREAMDECK_MK2 => Some(Kind::Mk2),
            PID_STREAMDECK_MINI_MK2 => Some(Kind::MiniMk2),
            PID_STREAMDECK_PEDAL => Some(Kind::Pedal),
            PID_STREAMDECK_PLUS => Some(Kind::Plus),
            PID_STREAMDECK_NEO => Some(Kind::Neo),
            PID_AJAZZ_AKP153 => Some(Kind::Akp153),
            PID_AJAZZ_AKP153E => Some(Kind::Akp153E),
            PID_AJAZZ_AKP153R => Some(Kind::Akp153R),
            PID_AJAZZ_AKP815 => Some(Kind::Akp815),
            PID_AJAZZ_AKP03 => Some(Kind::Akp03),
            PID_AJAZZ_AKP03E => Some(Kind::Akp03E),
            PID_AJAZZ_AKP03R => Some(Kind::Akp03R),
            PID_MIRABOX_HSV293S => Some(Kind::MiraBoxHSV293S),
            PID_MIRABOX_DK0108D => Some(Kind::MiraBoxDK0108D),
            PID_MIRABOX_E3EN => Some(Kind::MiraBoxE3EN),
            _ => None,
        }
    }

    /// Creates [Kind] variant from Product ID
    pub fn from_pid(pid: u16) -> (r: Option<Kind>)
        ensures
            r == Self::spec_from_pid(pid),
    {
        match pid {
            PID_STREAMDECK_ORIGINAL => Some(Kind::Original),
            PID_STREAMDECK_ORIGINAL_V2 => Some(Kind::OriginalV2),
            PID_STREAMDECK_MINI => Some(Kind::Mini),
            PID_STREAMDECK_XL => Some(Kind::Xl),
            PID_STREAMDECK_XL_V2 => Some(Kind::XlV2),
            PID_STREAMDECK_MK2 => Some(Kind::Mk2),
            PID_STREAMDECK_MINI_MK2 => Some(Kind::MiniMk2),
            PID_STREAMDECK_PEDAL => Some(Kind::Pedal),
            PID_STREAMDECK_PLUS => Some(Kind::Plus),
            PID_STREAMDECK_NEO => Some(Kind::Neo),
            PID_AJAZZ_AKP153 => Some(Kind::Akp153),
            PID_AJAZZ_AKP153E => Some(Kind::Akp153E),
            PID_AJAZZ_AKP153R => Some(Kind::Akp153R),
            PID_AJAZZ_AKP815 => Some(Kind::Akp815),
            PID_AJAZZ_AKP03 => Some(Kind::Akp03),
            PID_AJAZZ_AKP03E => Some(Kind::Akp03E),
            PID_AJAZZ_AKP03R => Some(Kind::Akp03R),
            PID_MIRABOX_HSV293S => Some(Kind::MiraBoxHSV293S),
            PID_MIRABOX_DK0108D => Some(Kind::MiraBoxDK0108D),
            PID_MIRABOX_E3EN => Some(Kind::MiraBoxE3EN),
            _ => None,
        }
    }

    /// Creates [Kind] variant from Vendor ID and Product ID, checking that the
    /// product ID belongs to that vendor.
    pub fn from_vid_pid(vid: u16, pid: u16) -> (r: Option<Kind>)
        ensures
            r == (match Self::spec_from_pid(pid) {
                Some(k) if k.spec_vendor_id() == vid => Some(k),
                _ => None::<Kind>,
            }),
    {
        match Self::from_pid(pid) {
            Some(k) => {
                if k.vendor_id() == vid {
                    Some(k)
                } else {
                    None
                }
            },
            None => None,
        }
    }

    /// Product ID of the device family.
    pub open spec fn spec_product_id(&self) -> u16 {
        match self {
            Kind::Original => PID_STREAMDECK_ORIGINAL,
            Kind::OriginalV2 => PID_STREAMDECK_ORIGINAL_V2,
            Kind::Mini => PID_STREAMDECK_MINI,
            Kind::Xl => PID_STREAMDECK_XL,
            Kind::XlV2 => PID_STREAMDECK_XL_V2,
            Kind::Mk2 => PID_STREAMDECK_MK2,
            Kind::MiniMk2 => PID_STREAMDECK_MINI_MK2,
            Kind::Pedal => PID_STREAMDECK_PEDAL,
            Kind::Plus => PID_STREAMDECK_PLUS,
            Kind::Neo => PID_STREAMDECK_NEO,
            Kind::Akp153 => PID_AJAZZ_AKP153,
            Kind::Akp153E => PID_AJAZZ_AKP153E,
            Kind::Akp153R => PID_AJAZZ_AKP153R,
            Kind::Akp815 => PID_AJAZZ_AKP815,
            Kind::Akp03 => PID_AJAZZ_AKP03,
            Kind::Akp03E => PID_AJAZZ_AKP03E,
            Kind::Akp03R => PID_AJAZZ_AKP03R,
            Kind::MiraBoxHSV293S => PID_MIRABOX_HSV293S,
            Kind::MiraBoxDK0108D => PID_MIRABOX_DK0108D,
            Kind::MiraBoxE3EN => PID_MIRABOX_E3EN,
        }
    }

    /// Retrieves Product ID of the device
    #[verifier::when_used_as_spec(spec_product_id)]
    pub fn product_id(&self) -> (r: u16)
        ensures
            r == self.spec_product_id(),
    {
        match self {
            Kind::Original => PID_STREAMDECK_ORIGINAL,
            Kind::OriginalV2 => PID_STREAMDECK_ORIGINAL_V2,
            Kind::Mini => PID_STREAMDECK_MINI,
            Kind::Xl => PID_STREAMDECK_XL,
            Kind::XlV2 => PID_STREAMDECK_XL_V2,
            Kind::Mk2 => PID_STREAMDECK_MK2,
            Kind::MiniMk2 => PID_STREAMDECK_MINI_MK2,
            Kind::Pedal => PID_STREAMDECK_PEDAL,
            Kind::Plus => PID_STREAMDECK_PLUS,
            Kind::Neo => PID_STREAMDECK_NEO,
            Kind::Akp153 => PID_AJAZZ_AKP153,
            Kind::Akp153E => PID_AJAZZ_AKP153E,
            Kind::Akp153R => PID_AJAZZ_AKP153R,
            Kind::Akp815 => PID_AJAZZ_AKP815,
            Kind::Akp03 => PID_AJAZZ_AKP03,
            Kind::Akp03E => PID_AJAZZ_AKP03E,
            Kind::Akp03R => PID_AJAZZ_AKP03R,
            Kind::MiraBoxHSV293S => PID_MIRABOX_HSV293S,
            Kind::MiraBoxDK0108D => PID_MIRABOX_DK0108D,
            Kind::MiraBoxE3EN => PID_MIRABOX_E3EN,
        }
    }

    /// Vendor ID of the device family.
    pub open spec fn spec_vendor_id(&self) -> u16 {
        match self {
            Kind::Akp153 | Kind::Akp153E | Kind::Akp153R | Kind::Akp815 | Kind::Akp03
            | Kind::Akp03E | Kind::Akp03R => AJAZZ_VENDOR_ID,
            Kind::MiraBoxHSV293S | Kind::MiraBoxDK0108D | Kind::MiraBoxE3EN => MIRABOX_VENDOR_ID,
            _ => ELGATO_VENDOR_ID,
        }
    }

    /// Retrieves Vendor ID of the device
    #[verifier::when_used_as_spec(spec_vendor_id)]
    pub fn vendor_id(&self) -> (r: u16)
        ensures
            r == self.spec_vendor_id(),
    {
        match self {
            Kind::Akp153 | Kind::Akp153E | Kind::Akp153R | Kind::Akp815 | Kind::Akp03
            | Kind::Akp03E | Kind::Akp03R => AJAZZ_VENDOR_ID,
            Kind::MiraBoxHSV293S | Kind::MiraBoxDK0108D | Kind::MiraBoxE3EN => MIRABOX_VENDOR_ID,
            _ => ELGATO_VENDOR_ID,
        }
    }

    /// Amount of keys of the device family.
    pub open spec fn spec_key_count(&self) -> u8 {
        match self {
            Kind::Original | Kind::OriginalV2 | Kind::Mk2 => 15,
            Kind::Mini | Kind::MiniMk2 => 6,
            Kind::Xl | Kind::XlV2 => 32,
            Kind::Pedal => 3,
            Kind::Plus | Kind::Neo => 8,
            Kind::Akp153 | Kind::Akp153E | Kind::Akp153R | Kind::MiraBoxHSV293S => 18,
            Kind::Akp815 => 15,
            Kind::MiraBoxDK0108D => 10,
            Kind::Akp03 | Kind::Akp03E | Kind::Akp03R | Kind::MiraBoxE3EN => 9,
        }
    }

    /// Amount of keys the device kind has
    #[verifier::when_used_as_spec(spec_key_count)]
    pub fn key_count(&self) -> (r: u8)
        ensures
            r == self.spec_key_count(),
    {
        match self {
            Kind::Original | Kind::OriginalV2 | Kind::Mk2 => 15,
            Kind::Mini | Kind::MiniMk2 => 6,
            Kind::Xl | Kind::XlV2 => 32,
            Kind::Pedal => 3,
            Kind::Plus | Kind::Neo => 8,
            Kind::Akp153 | Kind::Akp153E | Kind::Akp153R | Kind::MiraBoxHSV293S => 18,
            Kind::Akp815 => 15,
            Kind::MiraBoxDK0108D => 10,
            Kind::Akp03 | Kind::Akp03E | Kind::Akp03R | Kind::MiraBoxE3EN => 9,
        }
    }

    /// Amount of button rows of the device family.
    pub open spec fn spec_row_count(&self) -> u8 {
        match self {
            Kind::Original | Kind::OriginalV2 | Kind::Mk2 => 3,
            Kind::Mini | Kind::MiniMk2 => 2,
            Kind::Xl | Kind::XlV2 => 4,
            Kind::Pedal => 1,
            Kind::Plus | Kind::Neo => 2,
            Kind::Akp153 | Kind::Akp153E | Kind::Akp153R | Kind::MiraBoxHSV293S => 3,
            Kind::Akp815 => 5,
            Kind::MiraBoxDK0108D => 2,
            Kind::Akp03 | Kind::Akp03E | Kind::Akp03R | Kind::MiraBoxE3EN => 3,
        }
    }

    /// Amount of button rows the device kind has
    #[verifier::when_used_as_spec(spec_row_count)]
    pub fn row_count(&self) -> (r: u8)
        ensures
            r == self.spec_row_count(),
    {
        match self {
            Kind::Original | Kind::OriginalV2 | Kind::Mk2 => 3,
            Kind::Mini | Kind::MiniMk2 => 2,
            Kind::Xl | Kind::XlV2 => 4,
            Kind::Pedal => 1,
            Kind::Plus | Kind::Neo => 2,
            Kind::Akp153 | Kind::Akp153E | Kind::Akp153R | Kind::MiraBoxHSV293S => 3,
            Kind::Akp815 => 5,
            Kind::MiraBoxDK0108D => 2,
            Kind::Akp03 | Kind::Akp03E | Kind::Akp03R | Kind::MiraBoxE3EN => 3,
        }
    }

    /// Amount of button columns of the device family.
    pub open spec fn spec_column_count(&self) -> u8 {
        match self {
            Kind::Original | Kind::OriginalV2 | Kind::Mk2 => 5,
            Kind::Mini | Kind::MiniMk2 => 3,
            Kind::Xl | Kind::XlV2 => 8,
            Kind::Pedal => 3,
            Kind::Plus | Kind::Neo => 4,
            Kind::Akp153 | Kind::Akp153E | Kind::Akp153R | Kind::MiraBoxHSV293S => 6,
            Kind::Akp815 => 3,
            Kind::MiraBoxDK0108D => 5,
            Kind::Akp03 | Kind::Akp03E | Kind::Akp03R | Kind::MiraBoxE3EN => 3,
        }
    }

    /// Amount of button columns the device kind has
    #[verifier::when_used_as_spec(spec_column_count)]
    pub fn column_count(&self) -> (r: u8)
        ensures
            r == self.spec_column_count(),
    {
        match self {
            Kind::Original | Kind::OriginalV2 | Kind::Mk2 => 5,
            Kind::Mini | Kind::MiniMk2 => 3,
            Kind::Xl | Kind::XlV2 => 8,
            Kind::Pedal => 3,
            Kind::Plus | Kind::Neo => 4,
            Kind::Akp153 | Kind::Akp153E | Kind::Akp153R | Kind::MiraBoxHSV293S => 6,
            Kind::Akp815 => 3,
            Kind::MiraBoxDK0108D => 5,
            Kind::Akp03 | Kind::Akp03E | Kind::Akp03R | Kind::MiraBoxE3EN => 3,
        }
    }

    /// Amount of encoders/knobs of the device family.
    pub open spec fn spec_encoder_count(&self) -> u8 {
        match self {
            Kind::Plus => 4,
            Kind::Akp03 | Kind::Akp03E | Kind::Akp03R | Kind::MiraBoxE3EN => 3,
            _ => 0,
        }
    }

    /// Amount of encoders/knobs the device kind has
    #[verifier::when_used_as_spec(spec_encoder_count)]
    pub fn encoder_count(&self) -> (r: u8)
        ensures
            r == self.spec_encoder_count(),
    {
        match self {
            Kind::Plus => 4,
            Kind::Akp03 | Kind::Akp03E | Kind::Akp03R | Kind::MiraBoxE3EN => 3,
            _ => 0,
        }
    }

    /// Amount of touch points of the device family.
    pub open spec fn spec_touchpoint_count(&self) -> u8 {
        match self {
            Kind::Neo => 2,
            _ => 0,
        }
    }

    /// Amount of touch points the device kind has
    #[verifier::when_used_as_spec(spec_touchpoint_count)]
    pub fn touchpoint_count(&self) -> (r: u8)
        ensures
            r == self.spec_touchpoint_count(),
    {
        match self {
            Kind::Neo => 2,
            _ => 0,
        }
    }

    /// Size of the LCD strip or screen of the device family, if any.
    pub open spec fn spec_lcd_strip_size(&self) -> Option<(usize, usize)> {
        match self {
            Kind::Plus => Some((800, 100)),
            Kind::Neo => Some((248, 58)),
            Kind::Akp153 | Kind::Akp153E | Kind::Akp153R | Kind::MiraBoxHSV293S
            | Kind::Akp815 | Kind::MiraBoxDK0108D => Some((854, 480)),
            _ => None,
        }
    }

    /// Size of the LCD strip or screen on the device
    #[verifier::when_used_as_spec(spec_lcd_strip_size)]
    pub fn lcd_strip_size(&self) -> (r: Option<(usize, usize)>)
        ensures
            r == self.spec_lcd_strip_size(),
    {
        match self {
            Kind::Plus => Some((800, 100)),
            Kind::Neo => Some((248, 58)),
            Kind::Akp153 | Kind::Akp153E | Kind::Akp153R | Kind::MiraBoxHSV293S
            | Kind::Akp815 | Kind::MiraBoxDK0108D => Some((854, 480)),
            _ => None,
        }
    }

    /// Whether the device family has a visual key surface.
    pub open spec fn spec_is_visual(&self) -> bool {
        match self {
            Kind::Pedal => false,
            _ => true,
        }
    }

    /// Tells if the device kind has a screen
    #[verifier::when_used_as_spec(spec_is_visual)]
    pub fn is_visual(&self) -> (r: bool)
        ensures
            r == self.spec_is_visual(),
    {
        match self {
            Kind::Pedal => false,
            _ => true,
        }
    }

    /// Whether the device family belongs to the first MiraBox protocol generation.
    pub open spec fn spec_is_mirabox_v1(&self) -> bool {
        match self {
            Kind::Akp153 | Kind::Akp153E | Kind::Akp153R | Kind::Akp815
            | Kind::MiraBoxHSV293S | Kind::MiraBoxDK0108D => true,
            _ => false,
        }
    }

    /// Tells if the device uses the first generation of the MiraBox vendor protocol
    #[verifier::when_used_as_spec(spec_is_mirabox_v1)]
    pub fn is_mirabox_v1(&self) -> (r: bool)
        ensures
            r == self.spec_is_mirabox_v1(),
    {
        match self {
            Kind::Akp153 | Kind::Akp153E | Kind::Akp153R | Kind::Akp815
            | Kind::MiraBoxHSV293S | Kind::MiraBoxDK0108D => true,
            _ => false,
        }
    }

    /// Whether the device family belongs to the second MiraBox protocol generation.
    pub open spec fn spec_is_mirabox_v2(&self) -> bool {
        match self {
            Kind::Akp03 | Kind::Akp03E | Kind::Akp03R | Kind::MiraBoxE3EN => true,
            _ => false,
        }
    }

    /// Tells if the device uses the second generation of the MiraBox vendor protocol
    #[verifier::when_used_as_spec(spec_is_mirabox_v2)]
    pub fn is_mirabox_v2(&self) -> (r: bool)
        ensures
            r == self.spec_is_mirabox_v2(),
    {
        match self {
            Kind::Akp03 | Kind::Akp03E | Kind::Akp03R | Kind::MiraBoxE3EN => true,
            _ => false,
        }
    }

    /// Whether the device family uses the MiraBox vendor command envelope.
    pub open spec fn spec_is_mirabox(&self) -> bool {
        self.spec_is_mirabox_v1() || self.spec_is_mirabox_v2()
    }

    /// Tells if the device uses the MiraBox vendor command envelope
    #[verifier::when_used_as_spec(spec_is_mirabox)]
    pub fn is_mirabox(&self) -> (r: bool)
        ensures
            r == self.spec_is_mirabox(),
    {
        self.is_mirabox_v1() || self.is_mirabox_v2()
    }

    /// Whether the device reports buttons as momentary pulses rather than
    /// sustained levels, so a synthetic release must follow every press.
    pub open spec fn spec_uses_pulse_buttons(&self) -> bool {
        self.spec_is_mirabox()
    }

    /// Tells if the device reports buttons as momentary pulses
    #[verifier::when_used_as_spec(spec_uses_pulse_buttons)]
    pub fn uses_pulse_buttons(&self) -> (r: bool)
        ensures
            r == self.spec_uses_pulse_buttons(),
    {
        self.is_mirabox()
    }

    /// Whether the device reports encoder presses as momentary pulses.
    /// Exactly two families do: the AKP03E and AKP03R, whose firmware sends a
    /// level-less press code that always means "down", so the reader must
    /// synthesize the release. The plain AKP03 and the E3EN report levels,
    /// and their presses diff as ordinary transitions.
    pub open spec fn spec_uses_pulse_encoders(&self) -> bool {
        match self {
            Kind::Akp03E | Kind::Akp03R => true,
            _ => false,
        }
    }

    /// Tells if the device reports encoder presses as momentary pulses
    #[verifier::when_used_as_spec(spec_uses_pulse_encoders)]
    pub fn uses_pulse_encoders(&self) -> (r: bool)
        ensures
            r == self.spec_uses_pulse_encoders(),
    {
        match self {
            Kind::Akp03E | Kind::Akp03R => true,
            _ => false,
        }
    }

    /// Key layout of the device kind as (rows, columns)
    pub fn key_layout(&self) -> (r: (u8, u8))
        ensures
            r == (self.spec_row_count(), self.spec_column_count()),
    {
        (self.row_count(), self.column_count())
    }

    /// Image format used by the device family for key images.
    pub open spec fn spec_key_image_format(&self) -> ImageFormat {
        match self {
            Kind::Original => ImageFormat {
                mode: ImageMode::BMP,
                size: (72, 72),
                rotation: ImageRotation::Rot0,
                mirror: ImageMirroring::Both,
            },
            Kind::OriginalV2 | Kind::Mk2 => ImageFormat {
                mode: ImageMode::JPEG,
                size: (72, 72),
                rotation: ImageRotation::Rot0,
                mirror: ImageMirroring::Both,
            },
            Kind::Mini | Kind::MiniMk2 => ImageFormat {
                mode: ImageMode::BMP,
                size: (80, 80),
                rotation: ImageRotation::Rot90,
                mirror: ImageMirroring::Y,
            },
            Kind::Xl | Kind::XlV2 | Kind::Neo => ImageFormat {
                mode: ImageMode::JPEG,
                size: (96, 96),
                rotation: ImageRotation::Rot0,
                mirror: ImageMirroring::Both,
            },
            Kind::Plus => ImageFormat {
                mode: ImageMode::JPEG,
                size: (120, 120),
                rotation: ImageRotation::Rot0,
                mirror: ImageMirroring::NoMirroring,
            },
            Kind::Akp153 | Kind::Akp153E | Kind::Akp153R | Kind::MiraBoxHSV293S
            | Kind::MiraBoxDK0108D => ImageFormat {
                mode: ImageMode::JPEG,
                size: (85, 85),
                rotation: ImageRotation::Rot0,
                mirror: ImageMirroring::NoMirroring,
            },
            Kind::Akp815 => ImageFormat {
                mode: ImageMode::JPEG,
                size: (80, 80),
                rotation: ImageRotation::Rot0,
                mirror: ImageMirroring::NoMirroring,
            },
            Kind::Akp03 | Kind::Akp03E | Kind::Akp03R | Kind::MiraBoxE3EN => ImageFormat {
                mode: ImageMode::JPEG,
                size: (64, 64),
                rotation: ImageRotation::Rot0,
                mirror: ImageMirroring::NoMirroring,
            },
            Kind::Pedal => ImageFormat {
                mode: ImageMode::NoImage,
                size: (0, 0),
                rotation: ImageRotation::Rot0,
                mirror: ImageMirroring::NoMirroring,
            },
        }
    }

    /// Image format used by the device kind
    #[verifier::when_used_as_spec(spec_key_image_format)]
    pub fn key_image_format(&self) -> (r: ImageFormat)
        ensures
            r == self.spec_key_image_format(),
    {
        match self {
            Kind::Original => ImageFormat {
                mode: ImageMode::BMP,
                size: (72, 72),
                rotation: ImageRotation::Rot0,
                mirror: ImageMirroring::Both,
            },
            Kind::OriginalV2 | Kind::Mk2 => ImageFormat {
                mode: ImageMode::JPEG,
                size: (72, 72),
                rotation: ImageRotation::Rot0,
                mirror: ImageMirroring::Both,
            },
            Kind::Mini | Kind::MiniMk2 => ImageFormat {
                mode: ImageMode::BMP,
                size: (80, 80),
                rotation: ImageRotation::Rot90,
                mirror: ImageMirroring::Y,
            },
            Kind::Xl | Kind::XlV2 | Kind::Neo => ImageFormat {
                mode: ImageMode::JPEG,
                size: (96, 96),
                rotation: ImageRotation::Rot0,
                mirror: ImageMirroring::Both,
            },
            Kind::Plus => ImageFormat {
                mode: ImageMode::JPEG,
                size: (120, 120),
                rotation: ImageRotation::Rot0,
                mirror: ImageMirroring::NoMirroring,
            },
            Kind::Akp153 | Kind::Akp153E | Kind::Akp153R | Kind::MiraBoxHSV293S
            | Kind::MiraBoxDK0108D => ImageFormat {
                mode: ImageMode::JPEG,
                size: (85, 85),
                rotation: ImageRotation::Rot0,
                mirror: ImageMirroring::NoMirroring,
            },
            Kind::Akp815 => ImageFormat {
                mode: ImageMode::JPEG,
                size: (80, 80),
                rotation: ImageRotation::Rot0,
                mirror: ImageMirroring::NoMirroring,
            },
            Kind::Akp03 | Kind::Akp03E | Kind::Akp03R | Kind::MiraBoxE3EN => ImageFormat {
                mode: ImageMode::JPEG,
                size: (64, 64),
                rotation: ImageRotation::Rot0,
                mirror: ImageMirroring::NoMirroring,
            },
            Kind::Pedal => ImageFormat {
                mode: ImageMode::NoImage,
                size: (0, 0),
                rotation: ImageRotation::Rot0,
                mirror: ImageMirroring::NoMirroring,
            },
        }
    }
}

/// Whether a vendor ID belongs to one of the supported device makers.
pub open spec fn spec_is_vendor_familiar(vid: u16) -> bool {
    vid == ELGATO_VENDOR_ID || vid == AJAZZ_VENDOR_ID || vid == MIRABOX_VENDOR_ID
}

/// Tells if a vendor ID belongs to one of the supported device makers
pub fn is_vendor_familiar(vid: &u16) -> (r: bool)
    ensures
        r == spec_is_vendor_familiar(*vid),
{
    *vid == ELGATO_VENDOR_ID || *vid == AJAZZ_VENDOR_ID || *vid == MIRABOX_VENDOR_ID
}

/// The capability table is internally consistent: looking a kind's product ID
/// back up yields that kind, its vendor is familiar, and the key grid is
/// exactly rows by columns.
pub proof fn lemma_capability_table_consistent(kind: Kind)
    ensures
        Kind::spec_from_pid(kind.spec_product_id()) == Some(kind),
        spec_is_vendor_familiar(kind.spec_vendor_id()),
        kind.spec_key_count() == kind.spec_row_count() * kind.spec_column_count(),
{
    match kind {
        Kind::Original | Kind::OriginalV2 | Kind::Mk2 => {
            assert(kind.spec_key_count() == 3 * 5);
        },
        Kind::Mini | Kind::MiniMk2 => {
            assert(kind.spec_key_count() == 2 * 3);
        },
        Kind::Xl | Kind::XlV2 => {
            assert(kind.spec_key_count() == 4 * 8);
        },
        Kind::Pedal => {
            assert(kind.spec_key_count() == 1 * 3);
        },
        Kind::Plus | Kind::Neo => {
            assert(kind.spec_key_count() == 2 * 4);
        },
        Kind::Akp153 | Kind::Akp153E | Kind::Akp153R | Kind::MiraBoxHSV293S => {
            assert(kind.spec_key_count() == 3 * 6);
        },
        Kind::Akp815 => {
            assert(kind.spec_key_count() == 5 * 3);
        },
        Kind::MiraBoxDK0108D => {
            assert(kind.spec_key_count() == 2 * 5);
        },
        Kind::Akp03 | Kind::Akp03E | Kind::Akp03R | Kind::MiraBoxE3EN => {
            assert(kind.spec_key_count() == 3 * 3);
        },
    }
}

/// Image format used by the device for key images
#[derive(Copy, Clone, Debug)]
pub struct ImageFormat {
    /// Image format/mode
    pub mode: ImageMode,
    /// Image size
    pub size: (usize, usize),
    /// Image rotation
    pub rotation: ImageRotation,
    /// Image mirroring
    pub mirror: ImageMirroring,
}

impl Default for ImageFormat {
    /// A format for kinds without a visual key surface: no encoding, zero size.
    fn default() -> (r: Self)
        ensures
            r.mode == ImageMode::NoImage,
            r.size == (0usize, 0usize),
            r.rotation == ImageRotation::Rot0,
            r.mirror == ImageMirroring::NoMirroring,
    {
        Self {
            mode: ImageMode::NoImage,
            size: (0, 0),
            rotation: ImageRotation::Rot0,
            mirror: ImageMirroring::NoMirroring,
        }
    }
}

/// Image rotation
#[derive(Copy, Clone, Debug, PartialEq, Eq, Structural)]
pub enum ImageRotation {
    /// No rotation
    Rot0,
    /// 90 degrees clockwise
    Rot90,
    /// 180 degrees
    Rot180,
    /// 90 degrees counter-clockwise
    Rot270,
}

/// Image mirroring
#[derive(Copy, Clone, Debug, PartialEq, Eq, Structural)]
pub enum ImageMirroring {
    /// No image mirroring
    NoMirroring,
    /// Flip by X
    X,
    /// Flip by Y
    Y,
    /// Flip by both axes
    Both,
}

/// Image format
#[derive(Copy, Clone, Debug, PartialEq, Eq, Structural)]
pub enum ImageMode {
    /// No image
    NoImage,
    /// Bitmap image
    BMP,
    /// Jpeg image
    JPEG,
}

} // verus!

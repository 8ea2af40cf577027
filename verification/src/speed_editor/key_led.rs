use vstd::prelude::*;

verus! {

/// A key that carries a light.
///
/// Every light has a fixed bit position, 0 to 17, in the bitmask that the
/// device takes in an LED report. The variants are declared in ascending
/// order of their positions, so the derived ordering is that of the positions.
#[derive(Clone, Copy, PartialEq, Eq, PartialOrd, Debug, Structural)]
pub enum KeyLed {
    CloseUp,
    Cut,
    Dis,
    SmthCut,
    Trans,
    Snap,
    Cam7,
    Cam8,
    Cam9,
    LiveOwr,
    Cam4,
    Cam5,
    Cam6,
    VideoOnly,
    Cam1,
    Cam2,
    Cam3,
    AudioOnly,
}

impl KeyLed {
    /// The bit position of the light.
    pub open spec fn spec_bit(self) -> u8 {
        match self {
            KeyLed::CloseUp => 0,
            KeyLed::Cut => 1,
            KeyLed::Dis => 2,
            KeyLed::SmthCut => 3,
            KeyLed::Trans => 4,
            KeyLed::Snap => 5,
            KeyLed::Cam7 => 6,
            KeyLed::Cam8 => 7,
            KeyLed::Cam9 => 8,
            KeyLed::LiveOwr => 9,
            KeyLed::Cam4 => 10,
            KeyLed::Cam5 => 11,
            KeyLed::Cam6 => 12,
            KeyLed::VideoOnly => 13,
            KeyLed::Cam1 => 14,
            KeyLed::Cam2 => 15,
            KeyLed::Cam3 => 16,
            KeyLed::AudioOnly => 17,
        }
    }

    /// The bit position of the light.
    pub fn bit(self) -> (bit: u8)
        ensures
            bit == self.spec_bit(),
            bit < 18,
    {
        match self {
            KeyLed::CloseUp => 0,
            KeyLed::Cut => 1,
            KeyLed::Dis => 2,
            KeyLed::SmthCut => 3,
            KeyLed::Trans => 4,
            KeyLed::Snap => 5,
            KeyLed::Cam7 => 6,
            KeyLed::Cam8 => 7,
            KeyLed::Cam9 => 8,
            KeyLed::LiveOwr => 9,
            KeyLed::Cam4 => 10,
            KeyLed::Cam5 => 11,
            KeyLed::Cam6 => 12,
            KeyLed::VideoOnly => 13,
            KeyLed::Cam1 => 14,
            KeyLed::Cam2 => 15,
            KeyLed::Cam3 => 16,
            KeyLed::AudioOnly => 17,
        }
    }

    /// Finds the light at a bit position: the one light whose position it
    /// is, or nothing where no light has that position.
    pub fn from_bit(bit: u8) -> (led: Option<KeyLed>)
        ensures
            forall|l: KeyLed| #[trigger] l.spec_bit() == bit <==> led == Some(l),
    {
        match bit {
            0 => Some(KeyLed::CloseUp),
            1 => Some(KeyLed::Cut),
            2 => Some(KeyLed::Dis),
            3 => Some(KeyLed::SmthCut),
            4 => Some(KeyLed::Trans),
            5 => Some(KeyLed::Snap),
            6 => Some(KeyLed::Cam7),
            7 => Some(KeyLed::Cam8),
            8 => Some(KeyLed::Cam9),
            9 => Some(KeyLed::LiveOwr),
            10 => Some(KeyLed::Cam4),
            11 => Some(KeyLed::Cam5),
            12 => Some(KeyLed::Cam6),
            13 => Some(KeyLed::VideoOnly),
            14 => Some(KeyLed::Cam1),
            15 => Some(KeyLed::Cam2),
            16 => Some(KeyLed::Cam3),
            17 => Some(KeyLed::AudioOnly),
            _ => None,
        }
    }

    /// Every light, in ascending order of bit position.
    pub open spec fn spec_all() -> Seq<KeyLed> {
        seq![
            KeyLed::CloseUp,
            KeyLed::Cut,
            KeyLed::Dis,
            KeyLed::SmthCut,
            KeyLed::Trans,
            KeyLed::Snap,
            KeyLed::Cam7,
            KeyLed::Cam8,
            KeyLed::Cam9,
            KeyLed::LiveOwr,
            KeyLed::Cam4,
            KeyLed::Cam5,
            KeyLed::Cam6,
            KeyLed::VideoOnly,
            KeyLed::Cam1,
            KeyLed::Cam2,
            KeyLed::Cam3,
            KeyLed::AudioOnly,
        ]
    }

    /// Every light, in ascending order of bit position.
    pub fn all() -> (leds: Vec<KeyLed>)
        ensures
            leds@ == KeyLed::spec_all(),
    {
        let mut leds: Vec<KeyLed> = Vec::new();
        leds.push(KeyLed::CloseUp);
        leds.push(KeyLed::Cut);
        leds.push(KeyLed::Dis);
        leds.push(KeyLed::SmthCut);
        leds.push(KeyLed::Trans);
        leds.push(KeyLed::Snap);
        leds.push(KeyLed::Cam7);
        leds.push(KeyLed::Cam8);
        leds.push(KeyLed::Cam9);
        leds.push(KeyLed::LiveOwr);
        leds.push(KeyLed::Cam4);
        leds.push(KeyLed::Cam5);
        leds.push(KeyLed::Cam6);
        leds.push(KeyLed::VideoOnly);
        leds.push(KeyLed::Cam1);
        leds.push(KeyLed::Cam2);
        leds.push(KeyLed::Cam3);
        leds.push(KeyLed::AudioOnly);
        leds
    }

    /// The name of the light: the identifier of its variant.
    pub open spec fn spec_name(self) -> Seq<char> {
        match self {
            KeyLed::CloseUp => "CloseUp"@,
            KeyLed::Cut => "Cut"@,
            KeyLed::Dis => "Dis"@,
            KeyLed::SmthCut => "SmthCut"@,
            KeyLed::Trans => "Trans"@,
            KeyLed::Snap => "Snap"@,
            KeyLed::Cam7 => "Cam7"@,
            KeyLed::Cam8 => "Cam8"@,
            KeyLed::Cam9 => "Cam9"@,
            KeyLed::LiveOwr => "LiveOwr"@,
            KeyLed::Cam4 => "Cam4"@,
            KeyLed::Cam5 => "Cam5"@,
            KeyLed::Cam6 => "Cam6"@,
            KeyLed::VideoOnly => "VideoOnly"@,
            KeyLed::Cam1 => "Cam1"@,
            KeyLed::Cam2 => "Cam2"@,
            KeyLed::Cam3 => "Cam3"@,
            KeyLed::AudioOnly => "AudioOnly"@,
        }
    }

    /// The name of the light: the identifier of its variant.
    pub fn name(self) -> (name: &'static str)
        ensures
            name@ == self.spec_name(),
    {
        match self {
            KeyLed::CloseUp => "CloseUp",
            KeyLed::Cut => "Cut",
            KeyLed::Dis => "Dis",
            KeyLed::SmthCut => "SmthCut",
            KeyLed::Trans => "Trans",
            KeyLed::Snap => "Snap",
            KeyLed::Cam7 => "Cam7",
            KeyLed::Cam8 => "Cam8",
            KeyLed::Cam9 => "Cam9",
            KeyLed::LiveOwr => "LiveOwr",
            KeyLed::Cam4 => "Cam4",
            KeyLed::Cam5 => "Cam5",
            KeyLed::Cam6 => "Cam6",
            KeyLed::VideoOnly => "VideoOnly",
            KeyLed::Cam1 => "Cam1",
            KeyLed::Cam2 => "Cam2",
            KeyLed::Cam3 => "Cam3",
            KeyLed::AudioOnly => "AudioOnly",
        }
    }
}

/// The list of all lights holds each light once, at the index that is its
/// bit position.
pub proof fn lemma_all_leds(led: KeyLed)
    ensures
        KeyLed::spec_all().len() == 18,
        KeyLed::spec_all()[led.spec_bit() as int] == led,
{
}

} // verus!

use vstd::prelude::*;

verus! {

/// A physical key of the control surface.
///
/// Every key has a fixed wire code, the byte by which the device names it in
/// a keys report; [`Key::NoKey`] (code 0) marks an empty slot. The variants are
/// declared in ascending order of their codes, so the derived ordering is the
/// ordering of the codes and [`Key::NoKey`] is the least key.
#[derive(Clone, Copy, PartialEq, Eq, PartialOrd, Debug, Structural)]
pub enum Key {
    NoKey,
    SmartInsrt,
    Appnd,
    RiplOwr,
    CloseUp,
    PlaceOnTop,
    SrcOwr,
    In,
    Out,
    TrimIn,
    TrimOut,
    Roll,
    SlipSrc,
    SlipDest,
    TransDur,
    Cut,
    Dis,
    SmthCut,
    Source,
    Timeline,
    Shtl,
    Jog,
    Scrl,
    SyncBin,
    Trans,
    VideoOnly,
    AudioOnly,
    RiplDel,
    AudioLevel,
    FullView,
    Snap,
    Split,
    LiveOwr,
    Esc,
    Cam1,
    Cam2,
    Cam3,
    Cam4,
    Cam5,
    Cam6,
    Cam7,
    Cam8,
    Cam9,
    StopPlay,
}

impl Key {
    /// The wire code of the key.
    pub open spec fn spec_code(self) -> u8 {
        match self {
            Key::NoKey => 0,
            Key::SmartInsrt => 1,
            Key::Appnd => 2,
            Key::RiplOwr => 3,
            Key::CloseUp => 4,
            Key::PlaceOnTop => 5,
            Key::SrcOwr => 6,
            Key::In => 7,
            Key::Out => 8,
            Key::TrimIn => 9,
            Key::TrimOut => 10,
            Key::Roll => 11,
            Key::SlipSrc => 12,
            Key::SlipDest => 13,
            Key::TransDur => 14,
            Key::Cut => 15,
            Key::Dis => 16,
            Key::SmthCut => 17,
            Key::Source => 26,
            Key::Timeline => 27,
            Key::Shtl => 28,
            Key::Jog => 29,
            Key::Scrl => 30,
            Key::SyncBin => 31,
            Key::Trans => 34,
            Key::VideoOnly => 37,
            Key::AudioOnly => 38,
            Key::RiplDel => 43,
            Key::AudioLevel => 44,
            Key::FullView => 45,
            Key::Snap => 46,
            Key::Split => 47,
            Key::LiveOwr => 48,
            Key::Esc => 49,
            Key::Cam1 => 51,
            Key::Cam2 => 52,
            Key::Cam3 => 53,
            Key::Cam4 => 54,
            Key::Cam5 => 55,
            Key::Cam6 => 56,
            Key::Cam7 => 57,
            Key::Cam8 => 58,
            Key::Cam9 => 59,
            Key::StopPlay => 60,
        }
    }

    /// The wire code of the key.
    pub fn code(self) -> (code: u8)
        ensures
            code == self.spec_code(),
    {
        match self {
            Key::NoKey => 0,
            Key::SmartInsrt => 1,
            Key::Appnd => 2,
            Key::RiplOwr => 3,
            Key::CloseUp => 4,
            Key::PlaceOnTop => 5,
            Key::SrcOwr => 6,
            Key::In => 7,
            Key::Out => 8,
            Key::TrimIn => 9,
            Key::TrimOut => 10,
            Key::Roll => 11,
            Key::SlipSrc => 12,
            Key::SlipDest => 13,
            Key::TransDur => 14,
            Key::Cut => 15,
            Key::Dis => 16,
            Key::SmthCut => 17,
            Key::Source => 26,
            Key::Timeline => 27,
            Key::Shtl => 28,
            Key::Jog => 29,
            Key::Scrl => 30,
            Key::SyncBin => 31,
            Key::Trans => 34,
            Key::VideoOnly => 37,
            Key::AudioOnly => 38,
            Key::RiplDel => 43,
            Key::AudioLevel => 44,
            Key::FullView => 45,
            Key::Snap => 46,
            Key::Split => 47,
            Key::LiveOwr => 48,
            Key::Esc => 49,
            Key::Cam1 => 51,
            Key::Cam2 => 52,
            Key::Cam3 => 53,
            Key::Cam4 => 54,
            Key::Cam5 => 55,
            Key::Cam6 => 56,
            Key::Cam7 => 57,
            Key::Cam8 => 58,
            Key::Cam9 => 59,
            Key::StopPlay => 60,
        }
    }

    /// The key that a wire code names: the one key whose code it is, or
    /// nothing where no key has that code.
    pub open spec fn spec_from_code(code: u8) -> Option<Key> {
        if exists|k: Key| k.spec_code() == code {
            Some(choose|k: Key| k.spec_code() == code)
        } else {
            None
        }
    }

    /// Finds the key that a wire code names.
    pub fn from_code(code: u8) -> (key: Option<Key>)
        ensures
            key == Key::spec_from_code(code),
            forall|k: Key| #[trigger] k.spec_code() == code <==> key == Some(k),
    {
        let key: Option<Key> = match code {
            0 => Some(Key::NoKey),
            1 => Some(Key::SmartInsrt),
            2 => Some(Key::Appnd),
            3 => Some(Key::RiplOwr),
            4 => Some(Key::CloseUp),
            5 => Some(Key::PlaceOnTop),
            6 => Some(Key::SrcOwr),
            7 => Some(Key::In),
            8 => Some(Key::Out),
            9 => Some(Key::TrimIn),
            10 => Some(Key::TrimOut),
            11 => Some(Key::Roll),
            12 => Some(Key::SlipSrc),
            13 => Some(Key::SlipDest),
            14 => Some(Key::TransDur),
            15 => Some(Key::Cut),
            16 => Some(Key::Dis),
            17 => Some(Key::SmthCut),
            26 => Some(Key::Source),
            27 => Some(Key::Timeline),
            28 => Some(Key::Shtl),
            29 => Some(Key::Jog),
            30 => Some(Key::Scrl),
            31 => Some(Key::SyncBin),
            34 => Some(Key::Trans),
            37 => Some(Key::VideoOnly),
            38 => Some(Key::AudioOnly),
            43 => Some(Key::RiplDel),
            44 => Some(Key::AudioLevel),
            45 => Some(Key::FullView),
            46 => Some(Key::Snap),
            47 => Some(Key::Split),
            48 => Some(Key::LiveOwr),
            49 => Some(Key::Esc),
            51 => Some(Key::Cam1),
            52 => Some(Key::Cam2),
            53 => Some(Key::Cam3),
            54 => Some(Key::Cam4),
            55 => Some(Key::Cam5),
            56 => Some(Key::Cam6),
            57 => Some(Key::Cam7),
            58 => Some(Key::Cam8),
            59 => Some(Key::Cam9),
            60 => Some(Key::StopPlay),
            _ => None,
        };
        proof {
            if let Some(k) = key {
                assert(k.spec_code() == code);
                let chosen = choose|other: Key| other.spec_code() == code;
                lemma_key_code_injective(chosen, k);
            }
        }
        key
    }

    /// The name of the key: the identifier of its variant.
    pub open spec fn spec_name(self) -> Seq<char> {
        match self {
            Key::NoKey => "NoKey"@,
            Key::SmartInsrt => "SmartInsrt"@,
            Key::Appnd => "Appnd"@,
            Key::RiplOwr => "RiplOwr"@,
            Key::CloseUp => "CloseUp"@,
            Key::PlaceOnTop => "PlaceOnTop"@,
            Key::SrcOwr => "SrcOwr"@,
            Key::In => "In"@,
            Key::Out => "Out"@,
            Key::TrimIn => "TrimIn"@,
            Key::TrimOut => "TrimOut"@,
            Key::Roll => "Roll"@,
            Key::SlipSrc => "SlipSrc"@,
            Key::SlipDest => "SlipDest"@,
            Key::TransDur => "TransDur"@,
            Key::Cut => "Cut"@,
            Key::Dis => "Dis"@,
            Key::SmthCut => "SmthCut"@,
            Key::Source => "Source"@,
            Key::Timeline => "Timeline"@,
            Key::Shtl => "Shtl"@,
            Key::Jog => "Jog"@,
            Key::Scrl => "Scrl"@,
            Key::SyncBin => "SyncBin"@,
            Key::Trans => "Trans"@,
            Key::VideoOnly => "VideoOnly"@,
            Key::AudioOnly => "AudioOnly"@,
            Key::RiplDel => "RiplDel"@,
            Key::AudioLevel => "AudioLevel"@,
            Key::FullView => "FullView"@,
            Key::Snap => "Snap"@,
            Key::Split => "Split"@,
            Key::LiveOwr => "LiveOwr"@,
            Key::Esc => "Esc"@,
            Key::Cam1 => "Cam1"@,
            Key::Cam2 => "Cam2"@,
            Key::Cam3 => "Cam3"@,
            Key::Cam4 => "Cam4"@,
            Key::Cam5 => "Cam5"@,
            Key::Cam6 => "Cam6"@,
            Key::Cam7 => "Cam7"@,
            Key::Cam8 => "Cam8"@,
            Key::Cam9 => "Cam9"@,
            Key::StopPlay => "StopPlay"@,
        }
    }

    /// The name of the key: the identifier of its variant.
    pub fn name(self) -> (name: &'static str)
        ensures
            name@ == self.spec_name(),
    {
        match self {
            Key::NoKey => "NoKey",
            Key::SmartInsrt => "SmartInsrt",
            Key::Appnd => "Appnd",
            Key::RiplOwr => "RiplOwr",
            Key::CloseUp => "CloseUp",
            Key::PlaceOnTop => "PlaceOnTop",
            Key::SrcOwr => "SrcOwr",
            Key::In => "In",
            Key::Out => "Out",
            Key::TrimIn => "TrimIn",
            Key::TrimOut => "TrimOut",
            Key::Roll => "Roll",
            Key::SlipSrc => "SlipSrc",
            Key::SlipDest => "SlipDest",
            Key::TransDur => "TransDur",
            Key::Cut => "Cut",
            Key::Dis => "Dis",
            Key::SmthCut => "SmthCut",
            Key::Source => "Source",
            Key::Timeline => "Timeline",
            Key::Shtl => "Shtl",
            Key::Jog => "Jog",
            Key::Scrl => "Scrl",
            Key::SyncBin => "SyncBin",
            Key::Trans => "Trans",
            Key::VideoOnly => "VideoOnly",
            Key::AudioOnly => "AudioOnly",
            Key::RiplDel => "RiplDel",
            Key::AudioLevel => "AudioLevel",
            Key::FullView => "FullView",
            Key::Snap => "Snap",
            Key::Split => "Split",
            Key::LiveOwr => "LiveOwr",
            Key::Esc => "Esc",
            Key::Cam1 => "Cam1",
            Key::Cam2 => "Cam2",
            Key::Cam3 => "Cam3",
            Key::Cam4 => "Cam4",
            Key::Cam5 => "Cam5",
            Key::Cam6 => "Cam6",
            Key::Cam7 => "Cam7",
            Key::Cam8 => "Cam8",
            Key::Cam9 => "Cam9",
            Key::StopPlay => "StopPlay",
        }
    }
}

/// Two keys with the same wire code are the same key.
pub proof fn lemma_key_code_injective(a: Key, b: Key)
    requires
        a.spec_code() == b.spec_code(),
    ensures
        a == b,
{
}

} // verus!

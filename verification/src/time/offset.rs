//! The named offsets from universal time, from Y (twelve hours behind) to
//! the two offsets past M (up to fourteen hours ahead).

use vstd::prelude::*;
use crate::time::duration::Duration;

verus! {

/// An offset from universal time, by its military or derived letter.
#[derive(Debug, Clone, Copy, PartialEq, Eq, Structural)]
pub enum TimeOffset {
    /// -12:00
    Y,
    /// -11:00
    X,
    /// -10:00
    W,
    /// -09:00
    V,
    /// -09:30
    Vt,
    /// -08:00
    U,
    /// -07:00
    T,
    /// -06:00
    S,
    /// -05:00
    R,
    /// -04:00
    Q,
    /// -03:00
    P,
    /// -03:30
    Pt,
    /// -02:00
    O,
    /// -01:00
    N,
    /// -/+00:00
    Z,
    /// +01:00
    A,
    /// +02:00
    B,
    /// +03:00
    C,
    /// +03:30
    Ct,
    /// +04:00
    D,
    /// +04:30
    Dt,
    /// +05:00
    E,
    /// +05:30
    Et,
    /// +05:45
    Ee,
    /// +06:00
    F,
    /// +06:30
    Ft,
    /// +07:00
    G,
    /// +08:00
    H,
    /// +08:45
    Hh,
    /// +09:00
    I,
    /// +09:30
    It,
    /// +10:00
    K,
    /// +10:30
    Kt,
    /// +11:00
    L,
    /// +12:00
    M,
    /// +12:45
    Mm,
    /// +13:00
    Mt1,
    /// +14:00
    Mt2,
}

impl TimeOffset {
    /// The number of the offset, from 0 for Y to 37 for the last.
    pub open spec fn number(self) -> int {
        match self {
            TimeOffset::Y => 0,
            TimeOffset::X => 1,
            TimeOffset::W => 2,
            TimeOffset::V => 3,
            TimeOffset::Vt => 4,
            TimeOffset::U => 5,
            TimeOffset::T => 6,
            TimeOffset::S => 7,
            TimeOffset::R => 8,
            TimeOffset::Q => 9,
            TimeOffset::P => 10,
            TimeOffset::Pt => 11,
            TimeOffset::O => 12,
            TimeOffset::N => 13,
            TimeOffset::Z => 14,
            TimeOffset::A => 15,
            TimeOffset::B => 16,
            TimeOffset::C => 17,
            TimeOffset::Ct => 18,
            TimeOffset::D => 19,
            TimeOffset::Dt => 20,
            TimeOffset::E => 21,
            TimeOffset::Et => 22,
            TimeOffset::Ee => 23,
            TimeOffset::F => 24,
            TimeOffset::Ft => 25,
            TimeOffset::G => 26,
            TimeOffset::H => 27,
            TimeOffset::Hh => 28,
            TimeOffset::I => 29,
            TimeOffset::It => 30,
            TimeOffset::K => 31,
            TimeOffset::Kt => 32,
            TimeOffset::L => 33,
            TimeOffset::M => 34,
            TimeOffset::Mm => 35,
            TimeOffset::Mt1 => 36,
            TimeOffset::Mt2 => 37,
        }
    }

    /// How far the offset is from universal time, in seconds, whichever
    /// way it points.
    pub open spec fn distance(self) -> int {
        match self {
            TimeOffset::Y => 43200,
            TimeOffset::X => 39600,
            TimeOffset::W => 36000,
            TimeOffset::V => 32400,
            TimeOffset::Vt => 34200,
            TimeOffset::U => 28800,
            TimeOffset::T => 25200,
            TimeOffset::S => 21600,
            TimeOffset::R => 18000,
            TimeOffset::Q => 14400,
            TimeOffset::P => 10800,
            TimeOffset::Pt => 12600,
            TimeOffset::O => 7200,
            TimeOffset::N => 3600,
            TimeOffset::Z => 0,
            TimeOffset::A => 3600,
            TimeOffset::B => 7200,
            TimeOffset::C => 10800,
            TimeOffset::Ct => 12600,
            TimeOffset::D => 14400,
            TimeOffset::Dt => 16200,
            TimeOffset::E => 18000,
            TimeOffset::Et => 19800,
            TimeOffset::Ee => 20700,
            TimeOffset::F => 21600,
            TimeOffset::Ft => 23400,
            TimeOffset::G => 25200,
            TimeOffset::H => 28800,
            TimeOffset::Hh => 31500,
            TimeOffset::I => 32400,
            TimeOffset::It => 34200,
            TimeOffset::K => 36000,
            TimeOffset::Kt => 37800,
            TimeOffset::L => 39600,
            TimeOffset::M => 43200,
            TimeOffset::Mm => 45900,
            TimeOffset::Mt1 => 46800,
            TimeOffset::Mt2 => 50400,
        }
    }

    /// Whether the offset is ahead of universal time, or is universal time
    /// itself.
    pub open spec fn ahead(self) -> bool {
        self.number() >= 14
    }

    /// The offset with the given number, if there is one.
    pub fn from_u8(offset: u8) -> (result: Option<Self>)
        ensures
            result.is_some() <==> offset <= 37,
            result.is_some() ==> result.unwrap().number() == offset,
    {
        match offset {
            0 => Some(TimeOffset::Y),
            1 => Some(TimeOffset::X),
            2 => Some(TimeOffset::W),
            3 => Some(TimeOffset::V),
            4 => Some(TimeOffset::Vt),
            5 => Some(TimeOffset::U),
            6 => Some(TimeOffset::T),
            7 => Some(TimeOffset::S),
            8 => Some(TimeOffset::R),
            9 => Some(TimeOffset::Q),
            10 => Some(TimeOffset::P),
            11 => Some(TimeOffset::Pt),
            12 => Some(TimeOffset::O),
            13 => Some(TimeOffset::N),
            14 => Some(TimeOffset::Z),
            15 => Some(TimeOffset::A),
            16 => Some(TimeOffset::B),
            17 => Some(TimeOffset::C),
            18 => Some(TimeOffset::Ct),
            19 => Some(TimeOffset::D),
            20 => Some(TimeOffset::Dt),
            21 => Some(TimeOffset::E),
            22 => Some(TimeOffset::Et),
            23 => Some(TimeOffset::Ee),
            24 => Some(TimeOffset::F),
            25 => Some(TimeOffset::Ft),
            26 => Some(TimeOffset::G),
            27 => Some(TimeOffset::H),
            28 => Some(TimeOffset::Hh),
            29 => Some(TimeOffset::I),
            30 => Some(TimeOffset::It),
            31 => Some(TimeOffset::K),
            32 => Some(TimeOffset::Kt),
            33 => Some(TimeOffset::L),
            34 => Some(TimeOffset::M),
            35 => Some(TimeOffset::Mm),
            36 => Some(TimeOffset::Mt1),
            37 => Some(TimeOffset::Mt2),
            _ => None,
        }
    }

    /// The number of the offset.
    pub fn as_u8(&self) -> (number: u8)
        ensures
            number == self.number(),
    {
        match self {
            TimeOffset::Y => 0,
            TimeOffset::X => 1,
            TimeOffset::W => 2,
            TimeOffset::V => 3,
            TimeOffset::Vt => 4,
            TimeOffset::U => 5,
            TimeOffset::T => 6,
            TimeOffset::S => 7,
            TimeOffset::R => 8,
            TimeOffset::Q => 9,
            TimeOffset::P => 10,
            TimeOffset::Pt => 11,
            TimeOffset::O => 12,
            TimeOffset::N => 13,
            TimeOffset::Z => 14,
            TimeOffset::A => 15,
            TimeOffset::B => 16,
            TimeOffset::C => 17,
            TimeOffset::Ct => 18,
            TimeOffset::D => 19,
            TimeOffset::Dt => 20,
            TimeOffset::E => 21,
            TimeOffset::Et => 22,
            TimeOffset::Ee => 23,
            TimeOffset::F => 24,
            TimeOffset::Ft => 25,
            TimeOffset::G => 26,
            TimeOffset::H => 27,
            TimeOffset::Hh => 28,
            TimeOffset::I => 29,
            TimeOffset::It => 30,
            TimeOffset::K => 31,
            TimeOffset::Kt => 32,
            TimeOffset::L => 33,
            TimeOffset::M => 34,
            TimeOffset::Mm => 35,
            TimeOffset::Mt1 => 36,
            TimeOffset::Mt2 => 37,
        }
    }

    /// The offset as a direction and a distance: `true` for ahead of
    /// universal time, and the distance as a duration of whole seconds.
    pub fn get_offset(&self) -> (offset: (bool, Duration))
        ensures
            offset.0 == self.ahead(),
            offset.1.seconds() == self.distance(),
            offset.1.nanos() == 0,
    {
        match self {
            TimeOffset::Y => (false, Duration::from_hms(12, 0, 0)),
            TimeOffset::X => (false, Duration::from_hms(11, 0, 0)),
            TimeOffset::W => (false, Duration::from_hms(10, 0, 0)),
            TimeOffset::V => (false, Duration::from_hms(9, 0, 0)),
            TimeOffset::Vt => (false, Duration::from_hms(9, 30, 0)),
            TimeOffset::U => (false, Duration::from_hms(8, 0, 0)),
            TimeOffset::T => (false, Duration::from_hms(7, 0, 0)),
            TimeOffset::S => (false, Duration::from_hms(6, 0, 0)),
            TimeOffset::R => (false, Duration::from_hms(5, 0, 0)),
            TimeOffset::Q => (false, Duration::from_hms(4, 0, 0)),
            TimeOffset::P => (false, Duration::from_hms(3, 0, 0)),
            TimeOffset::Pt => (false, Duration::from_hms(3, 30, 0)),
            TimeOffset::O => (false, Duration::from_hms(2, 0, 0)),
            TimeOffset::N => (false, Duration::from_hms(1, 0, 0)),
            TimeOffset::Z => (true, Duration::from_hms(0, 0, 0)),
            TimeOffset::A => (true, Duration::from_hms(1, 0, 0)),
            TimeOffset::B => (true, Duration::from_hms(2, 0, 0)),
            TimeOffset::C => (true, Duration::from_hms(3, 0, 0)),
            TimeOffset::Ct => (true, Duration::from_hms(3, 30, 0)),
            TimeOffset::D => (true, Duration::from_hms(4, 0, 0)),
            TimeOffset::Dt => (true, Duration::from_hms(4, 30, 0)),
            TimeOffset::E => (true, Duration::from_hms(5, 0, 0)),
            TimeOffset::Et => (true, Duration::from_hms(5, 30, 0)),
            TimeOffset::Ee => (true, Duration::from_hms(5, 45, 0)),
            TimeOffset::F => (true, Duration::from_hms(6, 0, 0)),
            TimeOffset::Ft => (true, Duration::from_hms(6, 30, 0)),
            TimeOffset::G => (true, Duration::from_hms(7, 0, 0)),
            TimeOffset::H => (true, Duration::from_hms(8, 0, 0)),
            TimeOffset::Hh => (true, Duration::from_hms(8, 45, 0)),
            TimeOffset::I => (true, Duration::from_hms(9, 0, 0)),
            TimeOffset::It => (true, Duration::from_hms(9, 30, 0)),
            TimeOffset::K => (true, Duration::from_hms(10, 0, 0)),
            TimeOffset::Kt => (true, Duration::from_hms(10, 30, 0)),
            TimeOffset::L => (true, Duration::from_hms(11, 0, 0)),
            TimeOffset::M => (true, Duration::from_hms(12, 0, 0)),
            TimeOffset::Mm => (true, Duration::from_hms(12, 45, 0)),
            TimeOffset::Mt1 => (true, Duration::from_hms(13, 0, 0)),
            TimeOffset::Mt2 => (true, Duration::from_hms(14, 0, 0)),
        }
    }
}

} // verus!

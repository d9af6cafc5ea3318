//! The colour tag of a select option and its stable integer code.

use vstd::prelude::*;
use vstd::std_specs::convert::FromSpecImpl;

verus! {

/// The colour tag of a select option. The set is closed; every tag has a
/// fixed code, from 0 for `Purple` to 8 for `Blue`.
#[derive(Clone, Copy, Debug, PartialEq, Eq, Structural)]
pub enum SelectOptionColor {
    Purple,
    Pink,
    LightPink,
    Orange,
    Yellow,
    Lime,
    Green,
    Aqua,
    Blue,
}

impl SelectOptionColor {
    /// The code under which a tag is stored.
    pub open spec fn code(self) -> i64 {
        match self {
            SelectOptionColor::Purple => 0i64,
            SelectOptionColor::Pink => 1i64,
            SelectOptionColor::LightPink => 2i64,
            SelectOptionColor::Orange => 3i64,
            SelectOptionColor::Yellow => 4i64,
            SelectOptionColor::Lime => 5i64,
            SelectOptionColor::Green => 6i64,
            SelectOptionColor::Aqua => 7i64,
            SelectOptionColor::Blue => 8i64,
        }
    }

    /// The tag that a stored code stands for. A code that no tag has stands
    /// for `Purple`, the default.
    pub open spec fn from_code(value: i64) -> SelectOptionColor {
        if value == 1 {
            SelectOptionColor::Pink
        } else if value == 2 {
            SelectOptionColor::LightPink
        } else if value == 3 {
            SelectOptionColor::Orange
        } else if value == 4 {
            SelectOptionColor::Yellow
        } else if value == 5 {
            SelectOptionColor::Lime
        } else if value == 6 {
            SelectOptionColor::Green
        } else if value == 7 {
            SelectOptionColor::Aqua
        } else if value == 8 {
            SelectOptionColor::Blue
        } else {
            SelectOptionColor::Purple
        }
    }

    /// Decoding the code of a tag gives the tag back, and every code lies
    /// between 0 and 8.
    pub proof fn lemma_from_code_of_code(color: SelectOptionColor)
        ensures
            SelectOptionColor::from_code(color.code()) == color,
            0 <= color.code() <= 8,
    {
    }

    /// Encoding what a code between 0 and 8 decodes to gives the code back;
    /// any other code decodes to the default tag.
    pub proof fn lemma_code_of_from_code(value: i64)
        ensures
            0 <= value <= 8 ==> SelectOptionColor::from_code(value).code() == value,
            !(0 <= value <= 8) ==> SelectOptionColor::from_code(value)
                == SelectOptionColor::Purple,
    {
    }
}

impl Default for SelectOptionColor {
    fn default() -> (color: Self)
        ensures
            color == SelectOptionColor::Purple,
    {
        SelectOptionColor::Purple
    }
}

impl FromSpecImpl<i64> for SelectOptionColor {
    open spec fn obeys_from_spec() -> bool {
        true
    }

    open spec fn from_spec(value: i64) -> Self {
        SelectOptionColor::from_code(value)
    }
}

impl From<i64> for SelectOptionColor {
    /// Decodes a stored code; never fails.
    fn from(value: i64) -> (color: Self) {
        match value {
            0 => SelectOptionColor::Purple,
            1 => SelectOptionColor::Pink,
            2 => SelectOptionColor::LightPink,
            3 => SelectOptionColor::Orange,
            4 => SelectOptionColor::Yellow,
            5 => SelectOptionColor::Lime,
            6 => SelectOptionColor::Green,
            7 => SelectOptionColor::Aqua,
            8 => SelectOptionColor::Blue,
            _ => SelectOptionColor::Purple,
        }
    }
}

impl FromSpecImpl<SelectOptionColor> for i64 {
    open spec fn obeys_from_spec() -> bool {
        true
    }

    open spec fn from_spec(color: SelectOptionColor) -> Self {
        color.code()
    }
}

impl From<SelectOptionColor> for i64 {
    /// Encodes a tag as its code.
    fn from(color: SelectOptionColor) -> (value: Self) {
        match color {
            SelectOptionColor::Purple => 0,
            SelectOptionColor::Pink => 1,
            SelectOptionColor::LightPink => 2,
            SelectOptionColor::Orange => 3,
            SelectOptionColor::Yellow => 4,
            SelectOptionColor::Lime => 5,
            SelectOptionColor::Green => 6,
            SelectOptionColor::Aqua => 7,
            SelectOptionColor::Blue => 8,
        }
    }
}

} // verus!

use vstd::prelude::*;

use crate::text::{concat, str_eq};

verus! {

/// How to trade speed against quality when choosing a quantization and a context size.
#[derive(Clone, Copy, Debug, PartialEq, Eq, Structural)]
pub enum Mode {
    Fast,
    Balanced,
    Quality,
}

impl Mode {
    /// The mode's name on the command line and in saved state.
    pub open spec fn name(self) -> Seq<char> {
        match self {
            Mode::Fast => "fast"@,
            Mode::Balanced => "balanced"@,
            Mode::Quality => "quality"@,
        }
    }

    /// The mode whose name is `s`, if any.
    pub open spec fn from_name(s: Seq<char>) -> Option<Mode> {
        if s == "fast"@ {
            Some(Mode::Fast)
        } else if s == "balanced"@ {
            Some(Mode::Balanced)
        } else if s == "quality"@ {
            Some(Mode::Quality)
        } else {
            None
        }
    }

    /// Quantizations to try, best first.
    pub open spec fn quantizations(self) -> Seq<Seq<char>> {
        match self {
            Mode::Fast => seq!["q4_k_m"@, "q5_k_m"@, "q8_0"@],
            Mode::Balanced => seq!["q5_k_m"@, "q4_k_m"@, "q8_0"@],
            Mode::Quality => seq!["q8_0"@, "q6_k"@, "q5_k_m"@],
        }
    }

    /// Context sizes to try, largest first.
    pub open spec fn contexts(self) -> Seq<u32> {
        match self {
            Mode::Fast => seq![4096u32, 2048u32],
            Mode::Balanced => seq![16384u32, 8192u32, 4096u32],
            Mode::Quality => seq![32768u32, 16384u32, 8192u32, 4096u32],
        }
    }

    pub fn as_str(&self) -> (r: &'static str)
        ensures
            r@ == self.name(),
    {
        match self {
            Mode::Fast => "fast",
            Mode::Balanced => "balanced",
            Mode::Quality => "quality",
        }
    }

    pub fn quantization_preferences(&self) -> (r: Vec<&'static str>)
        ensures
            r@.map_values(|q: &'static str| q@) == self.quantizations(),
    {
        let r = match self {
            Mode::Fast => vec!["q4_k_m", "q5_k_m", "q8_0"],
            Mode::Balanced => vec!["q5_k_m", "q4_k_m", "q8_0"],
            Mode::Quality => vec!["q8_0", "q6_k", "q5_k_m"],
        };
        assert(r@.map_values(|q: &'static str| q@) == self.quantizations());
        r
    }

    pub fn context_targets(&self) -> (r: Vec<u32>)
        ensures
            r@ == self.contexts(),
    {
        match self {
            Mode::Fast => vec![4096, 2048],
            Mode::Balanced => vec![16384, 8192, 4096],
            Mode::Quality => vec![32768, 16384, 8192, 4096],
        }
    }

    /// Reads a mode from its name; any other text is refused with "invalid mode: <text>".
    pub fn parse(s: &str) -> (r: Result<Mode, String>)
        ensures
            match Mode::from_name(s@) {
                Some(m) => r == Ok::<Mode, String>(m),
                None => r matches Err(e) && e@ == "invalid mode: "@ + s@,
            },
    {
        if str_eq(s, "fast") {
            Ok(Mode::Fast)
        } else if str_eq(s, "balanced") {
            Ok(Mode::Balanced)
        } else if str_eq(s, "quality") {
            Ok(Mode::Quality)
        } else {
            Err(concat("invalid mode: ", s))
        }
    }
}

impl std::str::FromStr for Mode {
    type Err = String;

    /// As `Mode::parse`: the mode named `s`, or "invalid mode: <s>".
    fn from_str(s: &str) -> (r: Result<Self, Self::Err>)
        ensures
            match Mode::from_name(s@) {
                Some(m) => r == Ok::<Mode, String>(m),
                None => r matches Err(e) && e@ == "invalid mode: "@ + s@,
            },
    {
        Mode::parse(s)
    }
}

/// Every mode reads back from its own name.
pub proof fn lemma_mode_name_round_trip(m: Mode)
    ensures
        Mode::from_name(m.name()) == Some(m),
{
    reveal_strlit("fast");
    reveal_strlit("balanced");
    reveal_strlit("quality");
    assert("fast"@[0] != "balanced"@[0]);
    assert("fast"@[0] != "quality"@[0]);
    assert("balanced"@[0] != "quality"@[0]);
}

} // verus!

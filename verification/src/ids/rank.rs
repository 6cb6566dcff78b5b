use crate::nonzero::NonZero8;
use crate::text::same_text;
use vstd::prelude::*;
use vstd::string::StringExecFns;

verus! {

/// One of six ranks, written as a Roman numeral.
#[derive(Clone, Copy, Debug, PartialEq, Eq, Structural, Hash, PartialOrd, Ord)]
pub enum RankNumber {
    Rank1,
    Rank2,
    Rank3,
    Rank4,
    Rank5,
    Rank6,
}

/// A text is no Roman numeral from I to VI.
#[derive(Clone, Copy, Debug, PartialEq, Eq, Structural)]
pub struct RankNumberError;

impl RankNumber {
    /// The highest rank.
    pub const MAX: RankNumber = RankNumber::Rank6;

    /// The number of the rank, from 1 to 6.
    pub open spec fn number(self) -> u8 {
        match self {
            RankNumber::Rank1 => 1,
            RankNumber::Rank2 => 2,
            RankNumber::Rank3 => 3,
            RankNumber::Rank4 => 4,
            RankNumber::Rank5 => 5,
            RankNumber::Rank6 => 6,
        }
    }

    /// The rank of the number `n`, where `n` is from 1 to 6.
    pub fn new(n: u8) -> (r: Option<Self>)
        ensures
            r is Some <==> 1 <= n <= 6,
            r matches Some(rank) ==> rank.number() == n,
    {
        Some(
            match n {
                1 => RankNumber::Rank1,
                2 => RankNumber::Rank2,
                3 => RankNumber::Rank3,
                4 => RankNumber::Rank4,
                5 => RankNumber::Rank5,
                6 => RankNumber::Rank6,
                _ => {
                    return None;
                },
            },
        )
    }

    /// The number of the rank.
    pub fn get(self) -> (r: u8)
        ensures
            r == self.number(),
            1 <= r <= 6,
    {
        match self {
            RankNumber::Rank1 => 1,
            RankNumber::Rank2 => 2,
            RankNumber::Rank3 => 3,
            RankNumber::Rank4 => 4,
            RankNumber::Rank5 => 5,
            RankNumber::Rank6 => 6,
        }
    }

    /// The number of the rank as a number that is not zero.
    pub fn get_non_zero(self) -> (r: NonZero8)
        ensures
            r@ == self.number(),
    {
        match NonZero8::new(self.get()) {
            Some(n) => n,
            None => vstd::pervasive::unreached(),
        }
    }

    /// The Roman numeral of the rank.
    pub open spec fn text(self) -> Seq<char> {
        match self {
            RankNumber::Rank1 => "I"@,
            RankNumber::Rank2 => "II"@,
            RankNumber::Rank3 => "III"@,
            RankNumber::Rank4 => "IV"@,
            RankNumber::Rank5 => "V"@,
            RankNumber::Rank6 => "VI"@,
        }
    }

    /// The rank that a Roman numeral stands for.
    pub open spec fn parse(s: Seq<char>) -> Result<RankNumber, RankNumberError> {
        if s == "I"@ {
            Ok(RankNumber::Rank1)
        } else if s == "II"@ {
            Ok(RankNumber::Rank2)
        } else if s == "III"@ {
            Ok(RankNumber::Rank3)
        } else if s == "IV"@ {
            Ok(RankNumber::Rank4)
        } else if s == "V"@ {
            Ok(RankNumber::Rank5)
        } else if s == "VI"@ {
            Ok(RankNumber::Rank6)
        } else {
            Err(RankNumberError)
        }
    }

    /// The Roman numeral of the rank.
    pub fn as_str(self) -> (r: &'static str)
        ensures
            r@ == self.text(),
    {
        match self {
            RankNumber::Rank1 => "I",
            RankNumber::Rank2 => "II",
            RankNumber::Rank3 => "III",
            RankNumber::Rank4 => "IV",
            RankNumber::Rank5 => "V",
            RankNumber::Rank6 => "VI",
        }
    }

    /// Writes the Roman numeral of the rank.
    pub fn to_string(&self) -> (r: String)
        ensures
            r@ == self.text(),
    {
        String::from_str(self.as_str())
    }

    /// Reads a rank from its Roman numeral.
    pub fn from_str(s: &str) -> (r: Result<Self, RankNumberError>)
        ensures
            r == Self::parse(s@),
    {
        if same_text(s, "I") {
            Ok(RankNumber::Rank1)
        } else if same_text(s, "II") {
            Ok(RankNumber::Rank2)
        } else if same_text(s, "III") {
            Ok(RankNumber::Rank3)
        } else if same_text(s, "IV") {
            Ok(RankNumber::Rank4)
        } else if same_text(s, "V") {
            Ok(RankNumber::Rank5)
        } else if same_text(s, "VI") {
            Ok(RankNumber::Rank6)
        } else {
            Err(RankNumberError)
        }
    }

    /// The Roman numeral of a rank reads back as that rank.
    pub proof fn lemma_parse_text(self)
        ensures
            Self::parse(self.text()) == Ok::<Self, RankNumberError>(self),
    {
        reveal_strlit("I");
        reveal_strlit("II");
        reveal_strlit("III");
        reveal_strlit("IV");
        reveal_strlit("V");
        reveal_strlit("VI");
        assert("I"@.len() != "II"@.len());
        assert("I"@.len() != "III"@.len());
        assert("I"@.len() != "IV"@.len());
        assert("I"@[0] != "V"@[0]);
        assert("I"@.len() != "VI"@.len());
        assert("II"@.len() != "III"@.len());
        assert("II"@[1] != "IV"@[1]);
        assert("II"@.len() != "V"@.len());
        assert("II"@[0] != "VI"@[0]);
        assert("III"@.len() != "IV"@.len());
        assert("III"@.len() != "V"@.len());
        assert("III"@.len() != "VI"@.len());
        assert("IV"@.len() != "V"@.len());
        assert("IV"@[0] != "VI"@[0]);
        assert("V"@.len() != "VI"@.len());
    }
}

} // verus!

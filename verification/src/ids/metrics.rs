use crate::text::{same_text, VariantNotFound};
use vstd::prelude::*;
use vstd::string::StringExecFns;

verus! {

/// Whether a visit is a player's first or a return; used by metrics.
#[derive(Clone, Copy, Debug, PartialEq, Eq, Structural, Hash)]
pub enum LifecycleId {
    New,
    Renewed,
}

impl LifecycleId {
    pub fn is_new(self) -> (r: bool)
        ensures
            r == (self == LifecycleId::New),
    {
        matches!(self, LifecycleId::New)
    }

    pub fn is_renewed(self) -> (r: bool)
        ensures
            r == (self == LifecycleId::Renewed),
    {
        matches!(self, LifecycleId::Renewed)
    }

    /// Both lifecycles, in order.
    pub fn iter() -> (r: Vec<Self>)
        ensures
            r@ == seq![LifecycleId::New, LifecycleId::Renewed],
    {
        vec![LifecycleId::New, LifecycleId::Renewed]
    }

    /// The name of the lifecycle.
    pub open spec fn text(self) -> Seq<char> {
        match self {
            LifecycleId::New => "New"@,
            LifecycleId::Renewed => "Renewed"@,
        }
    }

    /// The lifecycle that a text names.
    pub open spec fn parse(s: Seq<char>) -> Result<LifecycleId, VariantNotFound> {
        if s == "New"@ {
            Ok(LifecycleId::New)
        } else if s == "Renewed"@ {
            Ok(LifecycleId::Renewed)
        } else {
            Err(VariantNotFound)
        }
    }

    /// Writes the name of the lifecycle.
    pub fn to_string(&self) -> (r: String)
        ensures
            r@ == self.text(),
    {
        match self {
            LifecycleId::New => String::from_str("New"),
            LifecycleId::Renewed => String::from_str("Renewed"),
        }
    }

    /// Reads the name of a lifecycle.
    pub fn from_str(s: &str) -> (r: Result<Self, VariantNotFound>)
        ensures
            r == Self::parse(s@),
    {
        if same_text(s, "New") {
            Ok(LifecycleId::New)
        } else if same_text(s, "Renewed") {
            Ok(LifecycleId::Renewed)
        } else {
            Err(VariantNotFound)
        }
    }

    /// The name of a lifecycle reads back as that lifecycle, and holds no slash.
    pub proof fn lemma_parse_text(self)
        ensures
            Self::parse(self.text()) == Ok::<Self, VariantNotFound>(self),
            !self.text().contains('/'),
    {
        reveal_strlit("New");
        reveal_strlit("Renewed");
        assert("New"@.len() != "Renewed"@.len());
    }
}

/// The span of time that a leaderboard covers.
#[derive(Clone, Copy, Debug, PartialEq, Eq, Structural, Hash)]
pub enum PeriodId {
    AllTime,
    Daily,
    Weekly,
}

impl PeriodId {
    /// How many periods there are.
    pub const VARIANT_COUNT: usize = 3;

    /// The place of the period among the periods.
    pub open spec fn index(self) -> int {
        match self {
            PeriodId::AllTime => 0,
            PeriodId::Daily => 1,
            PeriodId::Weekly => 2,
        }
    }

    /// The period at place `i`.
    pub fn from_index(i: usize) -> (r: Self)
        requires
            i < 3,
        ensures
            r.index() == i,
    {
        match i {
            0 => PeriodId::AllTime,
            1 => PeriodId::Daily,
            _ => PeriodId::Weekly,
        }
    }

    /// The three periods, in order.
    pub fn iter() -> (r: Vec<Self>)
        ensures
            r@ == seq![PeriodId::AllTime, PeriodId::Daily, PeriodId::Weekly],
    {
        vec![PeriodId::AllTime, PeriodId::Daily, PeriodId::Weekly]
    }

    /// The name of the period.
    pub open spec fn text(self) -> Seq<char> {
        match self {
            PeriodId::AllTime => "AllTime"@,
            PeriodId::Daily => "Daily"@,
            PeriodId::Weekly => "Weekly"@,
        }
    }

    /// The period that a text names.
    pub open spec fn parse(s: Seq<char>) -> Result<PeriodId, VariantNotFound> {
        if s == "AllTime"@ {
            Ok(PeriodId::AllTime)
        } else if s == "Daily"@ {
            Ok(PeriodId::Daily)
        } else if s == "Weekly"@ {
            Ok(PeriodId::Weekly)
        } else {
            Err(VariantNotFound)
        }
    }

    /// Writes the name of the period.
    pub fn to_string(&self) -> (r: String)
        ensures
            r@ == self.text(),
    {
        match self {
            PeriodId::AllTime => String::from_str("AllTime"),
            PeriodId::Daily => String::from_str("Daily"),
            PeriodId::Weekly => String::from_str("Weekly"),
        }
    }

    /// Reads the name of a period.
    pub fn from_str(s: &str) -> (r: Result<Self, VariantNotFound>)
        ensures
            r == Self::parse(s@),
    {
        if same_text(s, "AllTime") {
            Ok(PeriodId::AllTime)
        } else if same_text(s, "Daily") {
            Ok(PeriodId::Daily)
        } else if same_text(s, "Weekly") {
            Ok(PeriodId::Weekly)
        } else {
            Err(VariantNotFound)
        }
    }

    /// The name of a period reads back as that period, and holds no slash.
    pub proof fn lemma_parse_text(self)
        ensures
            Self::parse(self.text()) == Ok::<Self, VariantNotFound>(self),
            !self.text().contains('/'),
    {
        reveal_strlit("AllTime");
        reveal_strlit("Daily");
        reveal_strlit("Weekly");
        assert("AllTime"@.len() != "Daily"@.len());
        assert("AllTime"@.len() != "Weekly"@.len());
        assert("Daily"@.len() != "Weekly"@.len());
    }
}

/// A continent, as a player or server is located.
#[derive(Clone, Copy, Debug, PartialEq, Eq, Structural, Hash, PartialOrd, Ord)]
pub enum RegionId {
    Africa,
    Asia,
    Europe,
    NorthAmerica,
    Oceania,
    SouthAmerica,
}

impl Default for RegionId {
    fn default() -> (r: Self)
        ensures
            r == RegionId::NorthAmerica,
    {
        RegionId::NorthAmerica
    }
}

/// A text names no region.
#[derive(Debug)]
pub struct InvalidRegionId;

impl InvalidRegionId {
    /// What to tell of the error.
    pub fn to_string(&self) -> (r: String)
        ensures
            r@ == "invalid region id string"@,
    {
        String::from_str("invalid region id string")
    }
}

impl RegionId {
    /// How far one region is from another, from 0 for the same region to 3;
    /// the way there and the way back need not be equally far.
    pub open spec fn spec_distance(self, other: Self) -> u8 {
        match self {
            RegionId::Africa => match other {
                RegionId::Africa => 0,
                RegionId::Asia => 2,
                RegionId::Europe => 1,
                RegionId::NorthAmerica => 2,
                RegionId::Oceania => 3,
                RegionId::SouthAmerica => 3,
            },
            RegionId::Asia => match other {
                RegionId::Africa => 2,
                RegionId::Asia => 0,
                RegionId::Europe => 2,
                RegionId::NorthAmerica => 2,
                RegionId::Oceania => 1,
                RegionId::SouthAmerica => 3,
            },
            RegionId::Europe => match other {
                RegionId::Africa => 1,
                RegionId::Asia => 2,
                RegionId::Europe => 0,
                RegionId::NorthAmerica => 2,
                RegionId::Oceania => 3,
                RegionId::SouthAmerica => 3,
            },
            RegionId::NorthAmerica => match other {
                RegionId::Africa => 3,
                RegionId::Asia => 3,
                RegionId::Europe => 2,
                RegionId::NorthAmerica => 0,
                RegionId::Oceania => 2,
                RegionId::SouthAmerica => 1,
            },
            RegionId::Oceania => match other {
                RegionId::Africa => 3,
                RegionId::Asia => 1,
                RegionId::Europe => 2,
                RegionId::NorthAmerica => 2,
                RegionId::Oceania => 0,
                RegionId::SouthAmerica => 3,
            },
            RegionId::SouthAmerica => match other {
                RegionId::Africa => 3,
                RegionId::Asia => 2,
                RegionId::Europe => 2,
                RegionId::NorthAmerica => 1,
                RegionId::Oceania => 2,
                RegionId::SouthAmerica => 0,
            },
        }
    }

    /// How far this region is from another.
    #[verifier::when_used_as_spec(spec_distance)]
    pub fn distance(self, other: Self) -> (r: u8)
        ensures
            r == self.spec_distance(other),
            r <= 3,
            r == 0 <==> self == other,
    {
        match self {
            RegionId::Africa => match other {
                RegionId::Africa => 0,
                RegionId::Asia => 2,
                RegionId::Europe => 1,
                RegionId::NorthAmerica => 2,
                RegionId::Oceania => 3,
                RegionId::SouthAmerica => 3,
            },
            RegionId::Asia => match other {
                RegionId::Africa => 2,
                RegionId::Asia => 0,
                RegionId::Europe => 2,
                RegionId::NorthAmerica => 2,
                RegionId::Oceania => 1,
                RegionId::SouthAmerica => 3,
            },
            RegionId::Europe => match other {
                RegionId::Africa => 1,
                RegionId::Asia => 2,
                RegionId::Europe => 0,
                RegionId::NorthAmerica => 2,
                RegionId::Oceania => 3,
                RegionId::SouthAmerica => 3,
            },
            RegionId::NorthAmerica => match other {
                RegionId::Africa => 3,
                RegionId::Asia => 3,
                RegionId::Europe => 2,
                RegionId::NorthAmerica => 0,
                RegionId::Oceania => 2,
                RegionId::SouthAmerica => 1,
            },
            RegionId::Oceania => match other {
                RegionId::Africa => 3,
                RegionId::Asia => 1,
                RegionId::Europe => 2,
                RegionId::NorthAmerica => 2,
                RegionId::Oceania => 0,
                RegionId::SouthAmerica => 3,
            },
            RegionId::SouthAmerica => match other {
                RegionId::Africa => 3,
                RegionId::Asia => 2,
                RegionId::Europe => 2,
                RegionId::NorthAmerica => 1,
                RegionId::Oceania => 2,
                RegionId::SouthAmerica => 0,
            },
        }
    }

    /// The six regions, in order.
    pub fn iter() -> (r: Vec<Self>)
        ensures
            r@ == seq![
                RegionId::Africa,
                RegionId::Asia,
                RegionId::Europe,
                RegionId::NorthAmerica,
                RegionId::Oceania,
                RegionId::SouthAmerica,
            ],
    {
        vec![
            RegionId::Africa,
            RegionId::Asia,
            RegionId::Europe,
            RegionId::NorthAmerica,
            RegionId::Oceania,
            RegionId::SouthAmerica,
        ]
    }

    /// The name of the region.
    pub open spec fn text(self) -> Seq<char> {
        match self {
            RegionId::Africa => "Africa"@,
            RegionId::Asia => "Asia"@,
            RegionId::Europe => "Europe"@,
            RegionId::NorthAmerica => "NorthAmerica"@,
            RegionId::Oceania => "Oceania"@,
            RegionId::SouthAmerica => "SouthAmerica"@,
        }
    }

    /// The region that a text names.
    pub open spec fn parse(s: Seq<char>) -> Result<RegionId, VariantNotFound> {
        if s == "Africa"@ {
            Ok(RegionId::Africa)
        } else if s == "Asia"@ {
            Ok(RegionId::Asia)
        } else if s == "Europe"@ {
            Ok(RegionId::Europe)
        } else if s == "NorthAmerica"@ {
            Ok(RegionId::NorthAmerica)
        } else if s == "Oceania"@ {
            Ok(RegionId::Oceania)
        } else if s == "SouthAmerica"@ {
            Ok(RegionId::SouthAmerica)
        } else {
            Err(VariantNotFound)
        }
    }

    /// Writes the name of the region.
    pub fn to_string(&self) -> (r: String)
        ensures
            r@ == self.text(),
    {
        match self {
            RegionId::Africa => String::from_str("Africa"),
            RegionId::Asia => String::from_str("Asia"),
            RegionId::Europe => String::from_str("Europe"),
            RegionId::NorthAmerica => String::from_str("NorthAmerica"),
            RegionId::Oceania => String::from_str("Oceania"),
            RegionId::SouthAmerica => String::from_str("SouthAmerica"),
        }
    }

    /// Reads the name of a region.
    pub fn from_str(s: &str) -> (r: Result<Self, VariantNotFound>)
        ensures
            r == Self::parse(s@),
    {
        if same_text(s, "Africa") {
            Ok(RegionId::Africa)
        } else if same_text(s, "Asia") {
            Ok(RegionId::Asia)
        } else if same_text(s, "Europe") {
            Ok(RegionId::Europe)
        } else if same_text(s, "NorthAmerica") {
            Ok(RegionId::NorthAmerica)
        } else if same_text(s, "Oceania") {
            Ok(RegionId::Oceania)
        } else if same_text(s, "SouthAmerica") {
            Ok(RegionId::SouthAmerica)
        } else {
            Err(VariantNotFound)
        }
    }

    /// The name of a region reads back as that region, and holds no slash.
    pub proof fn lemma_parse_text(self)
        ensures
            Self::parse(self.text()) == Ok::<Self, VariantNotFound>(self),
            !self.text().contains('/'),
    {
        reveal_strlit("Africa");
        reveal_strlit("Asia");
        reveal_strlit("Europe");
        reveal_strlit("NorthAmerica");
        reveal_strlit("Oceania");
        reveal_strlit("SouthAmerica");
        assert("Africa"@.len() != "Asia"@.len());
        assert("Africa"@[0] != "Europe"@[0]);
        assert("Africa"@.len() != "NorthAmerica"@.len());
        assert("Africa"@.len() != "Oceania"@.len());
        assert("Africa"@.len() != "SouthAmerica"@.len());
        assert("Asia"@.len() != "Europe"@.len());
        assert("Asia"@.len() != "NorthAmerica"@.len());
        assert("Asia"@.len() != "Oceania"@.len());
        assert("Asia"@.len() != "SouthAmerica"@.len());
        assert("Europe"@.len() != "NorthAmerica"@.len());
        assert("Europe"@.len() != "Oceania"@.len());
        assert("Europe"@.len() != "SouthAmerica"@.len());
        assert("NorthAmerica"@.len() != "Oceania"@.len());
        assert("NorthAmerica"@[0] != "SouthAmerica"@[0]);
        assert("Oceania"@.len() != "SouthAmerica"@.len());
    }
}

/// The kind of device and browser that a player uses.
#[derive(Clone, Copy, Debug, PartialEq, Eq, Structural, Hash)]
pub enum UserAgentId {
    ChromeOS,
    Desktop,
    DesktopChrome,
    DesktopFirefox,
    DesktopSafari,
    Mobile,
    Spider,
    Tablet,
}

impl UserAgentId {
    /// The eight user agents, in order.
    pub fn iter() -> (r: Vec<Self>)
        ensures
            r@ == seq![
                UserAgentId::ChromeOS,
                UserAgentId::Desktop,
                UserAgentId::DesktopChrome,
                UserAgentId::DesktopFirefox,
                UserAgentId::DesktopSafari,
                UserAgentId::Mobile,
                UserAgentId::Spider,
                UserAgentId::Tablet,
            ],
    {
        vec![
            UserAgentId::ChromeOS,
            UserAgentId::Desktop,
            UserAgentId::DesktopChrome,
            UserAgentId::DesktopFirefox,
            UserAgentId::DesktopSafari,
            UserAgentId::Mobile,
            UserAgentId::Spider,
            UserAgentId::Tablet,
        ]
    }

    /// The name of the user agent.
    pub open spec fn text(self) -> Seq<char> {
        match self {
            UserAgentId::ChromeOS => "ChromeOS"@,
            UserAgentId::Desktop => "Desktop"@,
            UserAgentId::DesktopChrome => "DesktopChrome"@,
            UserAgentId::DesktopFirefox => "DesktopFirefox"@,
            UserAgentId::DesktopSafari => "DesktopSafari"@,
            UserAgentId::Mobile => "Mobile"@,
            UserAgentId::Spider => "Spider"@,
            UserAgentId::Tablet => "Tablet"@,
        }
    }

    /// Writes the name of the user agent.
    pub fn to_string(&self) -> (r: String)
        ensures
            r@ == self.text(),
    {
        match self {
            UserAgentId::ChromeOS => String::from_str("ChromeOS"),
            UserAgentId::Desktop => String::from_str("Desktop"),
            UserAgentId::DesktopChrome => String::from_str("DesktopChrome"),
            UserAgentId::DesktopFirefox => String::from_str("DesktopFirefox"),
            UserAgentId::DesktopSafari => String::from_str("DesktopSafari"),
            UserAgentId::Mobile => String::from_str("Mobile"),
            UserAgentId::Spider => String::from_str("Spider"),
            UserAgentId::Tablet => String::from_str("Tablet"),
        }
    }

}

} // verus!

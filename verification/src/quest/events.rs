use vstd::prelude::*;

verus! {

/// What happened to an advertisement.
#[derive(Clone, Copy, Debug, PartialEq, Eq, Structural)]
pub enum AdEvent {
    Banner(BannerAdEvent),
    Interstitial(VideoAdEvent),
    Rewarded(VideoAdEvent),
}

/// What happened to a banner advertisement.
#[derive(Clone, Copy, Debug, PartialEq, Eq, Structural)]
pub enum BannerAdEvent {
    Request,
    Show,
}

/// What happened to a video advertisement.
#[derive(Clone, Copy, Debug, PartialEq, Eq, Structural)]
pub enum VideoAdEvent {
    Request,
    /// Not in use at present.
    Start,
    Finish,
    Cancel,
}

/// How present a player is.
#[derive(Clone, Copy, Debug, PartialEq, Eq, Structural, PartialOrd, Ord)]
pub enum ClientActivity {
    /// The tab is not visible.
    Hidden,
    /// The tab is visible, but no input was made of late.
    Afk,
    /// The player makes inputs.
    Active,
}

impl Default for ClientActivity {
    fn default() -> (r: Self)
        ensures
            r == ClientActivity::Active,
    {
        ClientActivity::Active
    }
}

impl ClientActivity {
    pub fn is_hidden(&self) -> (r: bool)
        ensures
            r == (*self == ClientActivity::Hidden),
    {
        matches!(self, ClientActivity::Hidden)
    }

    pub fn is_afk(&self) -> (r: bool)
        ensures
            r == (*self == ClientActivity::Afk),
    {
        matches!(self, ClientActivity::Afk)
    }

    pub fn is_active(&self) -> (r: bool)
        ensures
            r == (*self == ClientActivity::Active),
    {
        matches!(self, ClientActivity::Active)
    }
}

} // verus!

use crate::bounded::{text32, text32_as_str, text32_from};
use arrayvec::ArrayString;
use vstd::prelude::*;
use vstd::string::StringExecFns;
use vstd::utf8::encode_utf8;

verus! {

/// A path within the menus of a game.
#[derive(Clone, Copy, Debug, PartialEq, Eq, Hash, PartialOrd, Ord)]
pub struct NexusPath(pub ArrayString<32>);

/// A text takes more than 32 bytes, too many for a path.
#[derive(Clone, Copy, Debug, PartialEq, Eq, Structural)]
pub struct InvalidNexusPath;

impl View for NexusPath {
    type V = Seq<char>;

    open spec fn view(&self) -> Seq<char> {
        text32(self.0)
    }
}

impl NexusPath {
    /// Reads a path: any text that fits in 32 bytes.
    pub fn from_str(s: &str) -> (r: Result<Self, InvalidNexusPath>)
        ensures
            r is Ok <==> encode_utf8(s@).len() <= 32,
            r matches Ok(path) ==> path@ == s@,
    {
        match text32_from(s) {
            Ok(a) => Ok(NexusPath(a)),
            Err(_) => Err(InvalidNexusPath),
        }
    }

    /// The path as text.
    pub fn as_str(&self) -> (r: &str)
        ensures
            r@ == self@,
    {
        text32_as_str(&self.0)
    }

    /// Writes the path.
    pub fn to_string(&self) -> (r: String)
        ensures
            r@ == self@,
    {
        String::from_str(text32_as_str(&self.0))
    }
}

} // verus!

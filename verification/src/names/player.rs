use crate::bounded::{bytes_before, text12, text12_as_str, text12_eq, text12_from, text12_lt};
use crate::names::fmt_utils::{
    byte_prefix, censor, censored, no_confusable_italics, plain_letter, slice_up_to_bytes,
    slice_up_to_chars, trim_and_slice_up_to, trim_to_width, trim_whitespace, trimmed_whitespace,
    width_trimmed,
};
use crate::text::{to_chars, without_end, without_start, trim_end_char, trim_start_char};
use arrayvec::ArrayString;
use rand::seq::SliceRandom;
use vstd::prelude::*;
use vstd::string::{StrSliceExecFns, StringExecFns, StringSliceAdditionalSpecFns};
use vstd::utf8::{encode_utf8, is_ascii_chars, is_ascii_chars_encode_utf8};

verus! {

/// A text takes more than twelve bytes, too many for a name.
#[derive(Clone, Copy, Debug, PartialEq, Eq, Structural)]
pub struct NameTooLong;

/// The nickname of a user.
#[derive(Clone, Copy, Debug, PartialEq, Eq, Hash, PartialOrd, Ord)]
pub struct NickName(pub ArrayString<12>);

impl View for NickName {
    type V = Seq<char>;

    open spec fn view(&self) -> Seq<char> {
        text12(self.0)
    }
}

/// The name made of the start of `s` that fits in twelve bytes.
fn slice_to_name(s: &str) -> (r: ArrayString<12>)
    ensures
        text12(r) == byte_prefix(s@, 12),
{
    match text12_from(slice_up_to_bytes(s, 12)) {
        Ok(a) => a,
        Err(_) => vstd::pervasive::unreached(),
    }
}

impl NickName {
    /// The nickname made of the start of `s` that fits in twelve bytes.
    pub fn new(s: &str) -> (r: Self)
        ensures
            r@ == byte_prefix(s@, 12),
    {
        NickName(slice_to_name(s))
    }

    /// The name as text.
    pub fn as_str(&self) -> (r: &str)
        ensures
            r@ == self@,
    {
        text12_as_str(&self.0)
    }
}

/// The name of a team.
#[derive(Clone, Copy, Debug, PartialEq, Eq, Hash, PartialOrd, Ord)]
pub struct TeamName(ArrayString<12>);

impl View for TeamName {
    type V = Seq<char>;

    closed spec fn view(&self) -> Seq<char> {
        text12(self.0)
    }
}

/// What one round of trimming leaves of the name of a team: no wider than eight
/// letters `m`, without whitespace at its ends, without brackets that open at
/// its start or close at its end.
pub open spec fn team_trimmed(s: Seq<char>) -> Seq<char> {
    without_end(without_start(trimmed_whitespace(width_trimmed(s, 8)), '['), ']')
}

/// What is left of the name of a team once rounds of trimming take no more
/// bytes off it.
pub open spec fn team_settled(s: Seq<char>) -> Seq<char>
    decreases encode_utf8(s).len(),
{
    if encode_utf8(team_trimmed(s)).len() >= encode_utf8(s).len() {
        s
    } else {
        team_settled(team_trimmed(s))
    }
}

impl TeamName {
    /// How many characters the name of a team may have.
    pub const MAX_CHARS: usize = 6;

    /// The name made of the first six characters of `s`, as far as they fit in
    /// twelve bytes; whitespace stays.
    pub fn new_input_sanitized(s: &str) -> (r: Self)
        ensures
            r@ == byte_prefix(
                if 6 <= s@.len() {
                    s@.take(6)
                } else {
                    s@
                },
                12,
            ),
    {
        TeamName(slice_to_name(slice_up_to_chars(s, 6)))
    }

    /// What a text is as the name of a team: italic letters made plain and
    /// inappropriate words censored, the first six characters of that, trimmed
    /// until nothing more comes off, and of that what fits in twelve bytes.
    pub open spec fn sanitized(s: Seq<char>) -> Seq<char> {
        let clean = censored(s.map_values(|c: char| plain_letter(c)));
        let start = if 6 <= clean.len() {
            clean.take(6)
        } else {
            clean
        };
        byte_prefix(team_settled(start), 12)
    }

    /// The name of a team that a text is fit to give.
    pub fn new_sanitized(s: &str) -> (r: Self)
        ensures
            r@ == Self::sanitized(s@),
    {
        let plain = no_confusable_italics(s);
        let clean = censor(plain.as_str());
        let start = slice_up_to_chars(clean.as_str(), 6);
        let mut prev: &str = start;
        loop
            invariant
                team_settled(prev@) == team_settled(start@),
            ensures
                prev@ == team_settled(start@),
            decreases prev.spec_bytes().len(),
        {
            let next = trim_end_char(
                trim_start_char(trim_whitespace(trim_to_width(prev, 8)), '['),
                ']',
            );
            if next.as_bytes().len() >= prev.as_bytes().len() {
                break;
            }
            prev = next;
        }
        Self::new_unsanitized(prev)
    }

    /// The name made of the start of `s` that fits in twelve bytes.
    pub fn new_unsanitized(s: &str) -> (r: Self)
        ensures
            r@ == byte_prefix(s@, 12),
    {
        TeamName(slice_to_name(s))
    }

    /// Reads the name of a team: any text that fits in twelve bytes.
    pub fn from_str(s: &str) -> (r: Result<Self, NameTooLong>)
        ensures
            r is Ok <==> encode_utf8(s@).len() <= 12,
            r matches Ok(name) ==> name@ == s@,
    {
        match text12_from(s) {
            Ok(a) => Ok(TeamName(a)),
            Err(_) => Err(NameTooLong),
        }
    }

    /// The name as text.
    pub fn as_str(&self) -> (r: &str)
        ensures
            r@ == self@,
    {
        text12_as_str(&self.0)
    }

    /// Tells whether two names are the same.
    pub fn same(&self, other: &Self) -> (r: bool)
        ensures
            r == (self@ == other@),
    {
        text12_eq(&self.0, &other.0)
    }
}

/// The name that a player plays under.
#[derive(Clone, Copy, Debug, PartialEq, Eq, Hash, PartialOrd, Ord)]
pub struct PlayerAlias(ArrayString<12>);

impl View for PlayerAlias {
    type V = Seq<char>;

    closed spec fn view(&self) -> Seq<char> {
        text12(self.0)
    }
}

/// A bracket turned into the angle of the same side; any other character is itself.
pub open spec fn angled(c: char) -> char {
    if c == '[' {
        '<'
    } else if c == ']' {
        '>'
    } else {
        c
    }
}

/// The text with its brackets turned into angles.
pub fn with_angles(s: &str) -> (r: String)
    ensures
        r@ == s@.map_values(|c: char| angled(c)),
{
    let chars = to_chars(s);
    let mut r = String::new();
    let mut i: usize = 0;
    while i < chars.len()
        invariant
            i <= chars.len(),
            chars@ == s@,
            r@ == s@.take(i as int).map_values(|c: char| angled(c)),
        decreases chars.len() - i,
    {
        let c = chars[i];
        let a = if c == '[' {
            '<'
        } else if c == ']' {
            '>'
        } else {
            c
        };
        assert(s@.take(i + 1) == s@.take(i as int).push(s@[i as int]));
        assert(s@.take(i + 1).map_values(|c: char| angled(c)) == s@.take(i as int).map_values(
            |c: char| angled(c),
        ).push(a));
        r.push(a);
        i += 1;
    }
    assert(s@.take(i as int) == s@);
    r
}

/// Whether a text could be taken for one that begins with the name of a team:
/// it opens with a bracket and holds a closing one.
pub open spec fn looks_teamed(s: Seq<char>) -> bool {
    s.len() > 0 && s[0] == '[' && s.contains(']')
}

/// Tells whether a text opens with a bracket and holds a closing one.
pub fn is_teamed(s: &str) -> (r: bool)
    ensures
        r == looks_teamed(s@),
{
    let chars = to_chars(s);
    if chars.len() == 0 || chars[0] != '[' {
        return false;
    }
    let mut i: usize = 0;
    while i < chars.len()
        invariant
            i <= chars.len(),
            chars@ == s@,
            s@.len() > 0,
            s@[0] == '[',
            forall|j: int| 0 <= j < i ==> s@[j] != ']',
        decreases chars.len() - i,
    {
        if chars[i] == ']' {
            assert(s@[i as int] == ']');
            return true;
        }
        i += 1;
    }
    false
}

/// The guest names that `random_guest` picks from.
pub open spec fn guest_names() -> Seq<Seq<char>> {
    seq![
        "Guest"@,
        "BestGuest"@,
        "BestGuestern"@,
        "Guestament"@,
        "Guestavo"@,
        "Guestbound"@,
        "GuestHouse"@,
        "Guestify"@,
        "GuestInPeace"@,
        "Guestnut"@,
        "GuestWestern"@,
        "Proguest"@,
        "BlessedGuest"@,
        "EnderGuest"@,
        "GuestControl"@,
        "SafetyGuest"@,
        "CourtGuester"@,
        "Southguest"@,
        "BirdsGuest"@,
        "WildGuest"@,
        "AcidGuest"@,
        "Guestival"@,
        "Lifeguest"@,
        "Guestimate"@,
        "Guesture"@,
        "Sugguest"@,
        "Diguest"@,
        "Maniguest"@,
    ]
}

/// `SliceRandom::choose` with `rand::thread_rng()`: one of the texts, left to
/// chance; none where there is no text to pick from.
#[verifier::external_body]
fn choose_text(options: &[&'static str]) -> (r: Option<&'static str>)
    ensures
        r is Some <==> options@.len() > 0,
        r matches Some(s) ==> exists|i: int| 0 <= i < options@.len() && options@[i]@ == s@,
{
    options.choose(&mut rand::thread_rng()).copied()
}

impl PlayerAlias {
    /// The name under which the server itself speaks.
    pub fn authority() -> (r: Self)
        ensures
            r@ == "Server"@,
    {
        proof {
            reveal_strlit("Server");
            lemma_short_ascii("Server"@);
        }
        Self::new_unsanitized("Server")
    }

    /// How many bytes an alias can take.
    pub fn capacity() -> (r: usize)
        ensures
            r == 12,
    {
        12
    }

    /// The alias as it is shown with the name of the team, if any, before it in
    /// brackets.
    pub fn fmt_with_team_name(self, team_name: Option<TeamName>) -> (r: String)
        ensures
            r@ == match team_name {
                Some(team_name) => seq!['['] + team_name@ + seq![']', ' '] + self@,
                None => self@,
            },
    {
        match team_name {
            Some(team_name) => {
                let mut r = String::new();
                r.push('[');
                r.append(team_name.as_str());
                r.push(']');
                r.push(' ');
                r.append(self.as_str());
                assert(r@ == seq!['['] + team_name@ + seq![']', ' '] + self@);
                r
            },
            None => self.to_string(),
        }
    }

    /// The alias made of the start of `s` that fits in twelve bytes; whitespace stays.
    pub fn new_input_sanitized(s: &str) -> (r: Self)
        ensures
            r@ == byte_prefix(s@, 12),
    {
        PlayerAlias(slice_to_name(s))
    }

    /// What a text is as an alias: italic letters made plain and inappropriate
    /// words censored; where that could be taken to begin with the name of a
    /// team, brackets turned into angles; no wider than fourteen letters `m`,
    /// without whitespace at its ends, and of that what fits in twelve bytes;
    /// `Guest` where nothing is left.
    pub open spec fn sanitized_text(s: Seq<char>) -> Seq<char> {
        let clean = censored(s.map_values(|c: char| plain_letter(c)));
        let guarded = if looks_teamed(trimmed_whitespace(clean)) {
            clean.map_values(|c: char| angled(c))
        } else {
            clean
        };
        let cut = byte_prefix(trimmed_whitespace(width_trimmed(guarded, 14)), 12);
        if cut.len() == 0 {
            "Guest"@
        } else {
            cut
        }
    }

    /// The alias that a text is fit to give; never empty.
    pub fn new_sanitized(s: &str) -> (r: Self)
        ensures
            r@ == Self::sanitized_text(s@),
    {
        let plain = no_confusable_italics(s);
        let mut string = censor(plain.as_str());
        if is_teamed(trim_whitespace(string.as_str())) {
            string = with_angles(string.as_str());
        }
        let cut = trim_and_slice_up_to(trim_to_width(string.as_str(), 14), 12);
        let ret = match text12_from(cut) {
            Ok(a) => PlayerAlias(a),
            Err(_) => vstd::pervasive::unreached(),
        };
        if cut.unicode_len() == 0 {
            PlayerAlias::default()
        } else {
            ret
        }
    }

    /// The alias made of the start of `s` that fits in twelve bytes.
    pub fn new_unsanitized(s: &str) -> (r: Self)
        ensures
            r@ == byte_prefix(s@, 12),
    {
        PlayerAlias(slice_to_name(s))
    }

    /// One of the guest names, left to chance, as far as it fits in twelve bytes.
    pub fn random_guest() -> (r: Self)
        ensures
            exists|i: int| 0 <= i < guest_names().len() && r@ == byte_prefix(guest_names()[i], 12),
    {
        let options: [&'static str; 28] = [
            "Guest",
            "BestGuest",
            "BestGuestern",
            "Guestament",
            "Guestavo",
            "Guestbound",
            "GuestHouse",
            "Guestify",
            "GuestInPeace",
            "Guestnut",
            "GuestWestern",
            "Proguest",
            "BlessedGuest",
            "EnderGuest",
            "GuestControl",
            "SafetyGuest",
            "CourtGuester",
            "Southguest",
            "BirdsGuest",
            "WildGuest",
            "AcidGuest",
            "Guestival",
            "Lifeguest",
            "Guestimate",
            "Guesture",
            "Sugguest",
            "Diguest",
            "Maniguest",
        ];
        assert(options@.len() == 28);
        assert forall|i: int| 0 <= i < 28 implies (#[trigger] options@[i])@ == guest_names()[i] by {}
        match choose_text(options.as_slice()) {
            Some(name) => {
                let r = Self::new_unsanitized(name);
                let ghost i = choose|i: int| 0 <= i < options@.len() && options@[i]@ == name@;
                assert(r@ == byte_prefix(guest_names()[i], 12));
                r
            },
            None => vstd::pervasive::unreached(),
        }
    }

    /// The alias that this alias is fit to give.
    pub fn sanitized(self) -> (r: Self)
        ensures
            r@ == Self::sanitized_text(self@),
    {
        Self::new_sanitized(self.as_str())
    }

    /// The alias of a player who is not known.
    pub fn unknown() -> (r: Self)
        ensures
            r@ == "???"@,
    {
        proof {
            reveal_strlit("???");
            lemma_short_ascii("???"@);
        }
        Self::new_unsanitized("???")
    }

    /// Reads an alias: any text that fits in twelve bytes.
    pub fn from_str(s: &str) -> (r: Result<Self, NameTooLong>)
        ensures
            r is Ok <==> encode_utf8(s@).len() <= 12,
            r matches Ok(name) ==> name@ == s@,
    {
        match text12_from(s) {
            Ok(a) => Ok(PlayerAlias(a)),
            Err(_) => Err(NameTooLong),
        }
    }

    /// The alias as text.
    pub fn as_str(&self) -> (r: &str)
        ensures
            r@ == self@,
    {
        text12_as_str(&self.0)
    }

    /// Writes the alias.
    pub fn to_string(&self) -> (r: String)
        ensures
            r@ == self@,
    {
        String::from_str(text12_as_str(&self.0))
    }

    /// Tells whether two aliases are the same.
    pub fn same(&self, other: &Self) -> (r: bool)
        ensures
            r == (self@ == other@),
    {
        text12_eq(&self.0, &other.0)
    }

    /// Tells whether this alias comes before another in the order of their bytes.
    pub fn before(&self, other: &Self) -> (r: bool)
        ensures
            r == bytes_before(encode_utf8(self@), encode_utf8(other@)),
    {
        text12_lt(&self.0, &other.0)
    }
}

impl Default for PlayerAlias {
    fn default() -> (r: Self)
        ensures
            r@ == "Guest"@,
    {
        proof {
            reveal_strlit("Guest");
            lemma_short_ascii("Guest"@);
        }
        PlayerAlias::new_unsanitized("Guest")
    }
}

/// An ASCII text of twelve characters at most is its own start of twelve bytes.
pub proof fn lemma_short_ascii(s: Seq<char>)
    requires
        is_ascii_chars(s),
        s.len() <= 12,
    ensures
        byte_prefix(s, 12) == s,
{
    is_ascii_chars_encode_utf8(s);
    let bytes = encode_utf8(s);
    vstd::utf8::encode_utf8_valid_utf8(s);
    vstd::utf8::is_char_boundary_start_end_of_seq(bytes);
    crate::names::fmt_utils::lemma_floor_boundary_at_end(bytes, 12);
    assert(bytes.take(bytes.len() as int) == bytes);
    vstd::utf8::encode_utf8_decode_utf8(s);
}

} // verus!

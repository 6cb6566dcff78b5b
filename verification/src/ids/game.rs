use crate::bounded::{text12, text12_as_str, text12_eq, text12_from};
use crate::ids::server::ServerNumber;
use crate::nonzero::NonZero8;
use crate::text::to_chars;
use arrayvec::ArrayString;
use rand::Rng;
use vstd::prelude::*;
use vstd::string::{StringExecFns, StringSliceAdditionalSpecFns};
use vstd::utf8::{encode_utf8, is_ascii_chars, is_ascii_chars_encode_utf8};

verus! {

/// Whether `c` is an ASCII letter or digit.
pub open spec fn is_alphanumeric(c: char) -> bool {
    ('0' <= c <= '9') || ('a' <= c <= 'z') || ('A' <= c <= 'Z')
}

/// The short name of a game.
#[derive(Clone, Copy, Debug, PartialEq, Eq, Hash, PartialOrd, Ord)]
pub struct GameId(pub ArrayString<12>);

/// A text is too long to be a game id.
#[derive(Clone, Copy, Debug, PartialEq, Eq, Structural)]
pub struct InvalidGameId;

impl View for GameId {
    type V = Seq<char>;

    open spec fn view(&self) -> Seq<char> {
        text12(self.0)
    }
}

impl GameId {
    /// Whether a text is the name of a game as `new` takes it: letters and digits,
    /// twelve at most.
    pub open spec fn well_formed(s: Seq<char>) -> bool {
        s.len() <= 12 && forall|i: int| 0 <= i < s.len() ==> is_alphanumeric(#[trigger] s[i])
    }

    /// Letters and digits take one byte each.
    pub proof fn lemma_well_formed_bytes(s: Seq<char>)
        requires
            Self::well_formed(s),
        ensures
            encode_utf8(s).len() == s.len(),
            !s.contains('/'),
    {
        assert(is_ascii_chars(s)) by {
            assert forall|i: int| 0 <= i < s.len() implies '\0' <= #[trigger] s[i] <= '\u{7f}' by {
                assert(is_alphanumeric(s[i]));
            }
        }
        is_ascii_chars_encode_utf8(s);
        if s.contains('/') {
            let j = choose|j: int| 0 <= j < s.len() && s[j] == '/';
            assert(is_alphanumeric(s[j]));
        }
    }

    /// The game of the given name.
    pub fn new(s: &str) -> (r: Self)
        requires
            Self::well_formed(s@),
        ensures
            r@ == s@,
    {
        proof {
            Self::lemma_well_formed_bytes(s@);
        }
        match text12_from(s) {
            Ok(a) => GameId(a),
            Err(_) => vstd::pervasive::unreached(),
        }
    }

    /// What a text denotes: the game of that name, where the name fits in twelve bytes.
    pub open spec fn parse(s: Seq<char>) -> Result<Seq<char>, InvalidGameId> {
        if encode_utf8(s).len() <= 12 {
            Ok(s)
        } else {
            Err(InvalidGameId)
        }
    }

    /// Reads the name of a game.
    pub fn from_str(s: &str) -> (r: Result<Self, InvalidGameId>)
        ensures
            match r {
                Ok(id) => Self::parse(s@) == Ok::<Seq<char>, InvalidGameId>(id@),
                Err(e) => Self::parse(s@) == Err::<Seq<char>, InvalidGameId>(e),
            },
    {
        match text12_from(s) {
            Ok(a) => Ok(GameId(a)),
            Err(_) => Err(InvalidGameId),
        }
    }

    /// The name as text.
    pub fn as_str(&self) -> (r: &str)
        ensures
            r@ == self@,
            encode_utf8(self@).len() <= 12,
    {
        text12_as_str(&self.0)
    }

    /// Writes the name.
    pub fn to_string(&self) -> (r: String)
        ensures
            r@ == self@,
    {
        String::from_str(text12_as_str(&self.0))
    }

    /// Tells whether two ids name the same game.
    pub fn same(&self, other: &Self) -> (r: bool)
        ensures
            r == (self@ == other@),
    {
        text12_eq(&self.0, &other.0)
    }
}

/// The sixteen letters that invitation codes are written in.
pub open spec fn alphabet() -> Seq<char> {
    "CDFHJKLMNPRTVWXY"@
}

/// Where in the alphabet a letter stands.
pub open spec fn letter_position(c: char) -> Option<nat> {
    if c == 'C' {
        Some(0)
    } else if c == 'D' {
        Some(1)
    } else if c == 'F' {
        Some(2)
    } else if c == 'H' {
        Some(3)
    } else if c == 'J' {
        Some(4)
    } else if c == 'K' {
        Some(5)
    } else if c == 'L' {
        Some(6)
    } else if c == 'M' {
        Some(7)
    } else if c == 'N' {
        Some(8)
    } else if c == 'P' {
        Some(9)
    } else if c == 'R' {
        Some(10)
    } else if c == 'T' {
        Some(11)
    } else if c == 'V' {
        Some(12)
    } else if c == 'W' {
        Some(13)
    } else if c == 'X' {
        Some(14)
    } else if c == 'Y' {
        Some(15)
    } else {
        None
    }
}

/// The alphabet and `letter_position` agree.
pub proof fn lemma_alphabet()
    ensures
        alphabet().len() == 16,
        forall|d: int| 0 <= d < 16 ==> letter_position(#[trigger] alphabet()[d]) == Some(d as nat),
        forall|c: char| #[trigger]
            letter_position(c) matches Some(d) ==> d < 16 && alphabet()[d as int] == c,
{
    reveal_strlit("CDFHJKLMNPRTVWXY");
}

/// The code of `len` letters for `n`, where the letter at place `i` is moved on
/// by `i` in the alphabet: the lowest four bits come first.
pub open spec fn code_text(n: nat, i: nat, len: nat) -> Seq<char>
    decreases len,
{
    if len == 0 {
        Seq::empty()
    } else {
        seq![alphabet()[((n % 16 + i) % 16) as int]] + code_text(n / 16, i + 1, (len - 1) as nat)
    }
}

/// The number that a code of letters stands for, the first letter being at place `i`.
pub open spec fn code_value(s: Seq<char>, i: nat) -> nat
    decreases s.len(),
{
    if s.len() == 0 {
        0
    } else {
        let position = match letter_position(s[0]) {
            Some(p) => p,
            None => 0,
        };
        ((position + 16 - i % 16) % 16) as nat + 16 * code_value(s.drop_first(), i + 1)
    }
}

pub open spec fn all_letters(s: Seq<char>) -> bool {
    forall|i: int| 0 <= i < s.len() ==> letter_position(#[trigger] s[i]) is Some
}

/// Sixteen to the power `n`.
pub open spec fn pow16(n: nat) -> nat
    decreases n,
{
    if n == 0 {
        1
    } else {
        16 * pow16((n - 1) as nat)
    }
}

/// Moving a digit on by `i` places and back again gives the digit.
pub proof fn lemma_shift_back(d: nat, i: nat)
    requires
        d < 16,
    ensures
        (d + i) % 16 < 16,
        (((d + i) % 16 + 16 - i % 16) % 16) as nat == d,
{
}

/// The letter at place `d` stands at place `d`.
pub proof fn lemma_letter(d: nat)
    requires
        d < 16,
    ensures
        letter_position(alphabet()[d as int]) == Some(d),
{
    reveal_strlit("CDFHJKLMNPRTVWXY");
}

/// A code has the length asked for, is made of letters, and stands for the
/// number it was made from.
pub proof fn lemma_code(n: nat, i: nat, len: nat)
    requires
        n < pow16(len),
    ensures
        code_text(n, i, len).len() == len,
        all_letters(code_text(n, i, len)),
        code_value(code_text(n, i, len), i) == n,
    decreases len,
{
    if len > 0 {
        let d = n % 16;
        let place = (d + i) % 16;
        let c = alphabet()[place as int];
        let rest = code_text(n / 16, i + 1, (len - 1) as nat);
        let s = seq![c] + rest;
        lemma_code(n / 16, i + 1, (len - 1) as nat);
        lemma_shift_back(d, i);
        lemma_letter(place);
        assert(s.drop_first() == rest);
        assert(s[0] == c);
        assert forall|j: int| 0 <= j < s.len() implies letter_position(#[trigger] s[j]) is Some by {
            if j > 0 {
                assert(s[j] == rest[j - 1]);
            }
        }
        assert(code_value(s, i) == d + 16 * code_value(rest, i + 1));
    }
}

/// A code of letters stands for a number below sixteen to the power of its length.
pub proof fn lemma_code_value_bound(s: Seq<char>, i: nat)
    ensures
        code_value(s, i) < pow16(s.len()),
    decreases s.len(),
{
    if s.len() > 0 {
        lemma_code_value_bound(s.drop_first(), i + 1);
    }
}

/// An invitation into a temporary realm: the server that made it, and a number.
#[derive(Clone, Copy, Debug, PartialEq, Eq, Structural, Hash, PartialOrd, Ord)]
pub struct InvitationId {
    pub server_number: ServerNumber,
    pub number: u16,
}

/// Why a text is no invitation code.
#[derive(Clone, Copy, Debug, PartialEq, Eq, Structural)]
pub enum InvalidInvitationId {
    /// The text is not six bytes long.
    Length,
    /// A character is none of the sixteen letters.
    Character,
    /// The code stands for server number zero.
    ZeroServerNumber,
}

/// `rand::thread_rng().gen::<u16>()`: a number that is left to chance.
#[verifier::external_body]
fn random_u16() -> u16 {
    rand::thread_rng().gen()
}

impl InvitationId {
    /// A new invitation of the given server, with a number left to chance.
    pub fn generate(server_number: ServerNumber) -> (r: Self)
        ensures
            r.server_number == server_number,
    {
        Self::numbered(server_number, random_u16())
    }

    /// The invitation of the given server and number.
    pub fn numbered(server_number: ServerNumber, number: u16) -> (r: Self)
        ensures
            r == (InvitationId { server_number, number }),
    {
        InvitationId { server_number, number }
    }

    /// The server that made the invitation.
    pub fn server_number(self) -> (r: ServerNumber)
        ensures
            r == self.server_number,
    {
        self.server_number
    }

    /// The invitation as one number: the server number above the sixteen bits of `number`.
    pub open spec fn packed(self) -> nat {
        (self.server_number.0@ * 65536 + self.number) as nat
    }

    /// The code of an invitation: six letters.
    pub open spec fn text(self) -> Seq<char> {
        code_text(self.packed(), 0, 6)
    }

    /// What a text denotes: an invitation, or the reason why none.
    pub open spec fn parse(s: Seq<char>) -> Result<InvitationId, InvalidInvitationId> {
        if encode_utf8(s).len() != 6 {
            Err(InvalidInvitationId::Length)
        } else if !all_letters(s) {
            Err(InvalidInvitationId::Character)
        } else if code_value(s, 0) / 65536 == 0 {
            Err(InvalidInvitationId::ZeroServerNumber)
        } else {
            Ok(
                InvitationId {
                    server_number: ServerNumber(NonZero8::of(code_value(s, 0) as int / 65536)),
                    number: (code_value(s, 0) % 65536) as u16,
                },
            )
        }
    }

    /// Writes the code of the invitation.
    pub fn to_string(&self) -> (r: String)
        ensures
            r@ == self.text(),
    {
        let mut n: u32 = (self.server_number.0.get() as u32) * 65536 + self.number as u32;
        let mut r = String::new();
        let mut i: u32 = 0;
        assert(Seq::<char>::empty() + code_text(n as nat, 0, 6) == code_text(n as nat, 0, 6));
        while i < 6
            invariant
                i <= 6,
                r@ + code_text(n as nat, i as nat, (6 - i) as nat) == self.text(),
            decreases 6 - i,
        {
            let ghost rest = code_text((n / 16) as nat, (i + 1) as nat, (6 - i - 1) as nat);
            let c = letter_at(((n % 16 + i) % 16) as u8);
            assert(r@ + (seq![c] + rest) == r@.push(c) + rest);
            r.push(c);
            n = n / 16;
            i += 1;
        }
        assert(r@ + Seq::<char>::empty() == r@);
        r
    }

    /// Reads the code of an invitation.
    pub fn from_str(code: &str) -> (r: Result<Self, InvalidInvitationId>)
        ensures
            r == Self::parse(code@),
            r matches Ok(id) ==> id.server_number.0.valid(),
    {
        broadcast use NonZero8::lemma_view_of;

        if code.as_bytes().len() != 6 {
            return Err(InvalidInvitationId::Length);
        }
        let chars = to_chars(code);
        let mut k: usize = 0;
        while k < chars.len()
            invariant
                k <= chars.len(),
                chars@ == code@,
                code.spec_bytes().len() == 6,
                forall|j: int| 0 <= j < k ==> letter_position(#[trigger] chars@[j]) is Some,
            decreases chars.len() - k,
        {
            if position_of(chars[k]).is_none() {
                return Err(InvalidInvitationId::Character);
            }
            k += 1;
        }
        proof {
            lemma_letters_ascii(chars@);
            assert(pow16(6) == 16777216) by {
                reveal_with_fuel(pow16, 7);
            }
            lemma_code_value_bound(chars@, 0);
        }
        let mut ret: u32 = 0;
        let mut i: usize = 6;
        assert(chars@.skip(6) == Seq::<char>::empty());
        while i > 0
            invariant
                i <= 6,
                chars.len() == 6,
                all_letters(chars@),
                ret == code_value(chars@.skip(i as int), i as nat),
                ret < pow16((6 - i) as nat),
            decreases i,
        {
            assert(pow16((6 - i) as nat) <= 1048576 && pow16(6) == 16777216) by {
                reveal_with_fuel(pow16, 7);
            }
            i -= 1;
            let ghost tail = chars@.skip(i as int);
            assert(tail.drop_first() == chars@.skip(i + 1));
            assert(tail[0] == chars@[i as int]);
            let position = match position_of(chars[i]) {
                Some(p) => p,
                None => 0,
            };
            proof {
                lemma_code_value_bound(tail, i as nat);
            }
            ret = ret * 16 + ((position as u32 + 16 - i as u32) % 16);
        }
        assert(chars@.skip(0) == chars@);
        assert(pow16(6) == 16777216) by {
            reveal_with_fuel(pow16, 7);
        }
        let server = (ret / 65536) as u8;
        let number = (ret % 65536) as u16;
        match ServerNumber::new(server) {
            Some(server_number) => {
                assert(NonZero8::of(server_number.0@) == server_number.0);
                Ok(InvitationId { server_number, number })
            },
            None => Err(InvalidInvitationId::ZeroServerNumber),
        }
    }

    /// The code of an invitation reads back as that invitation.
    pub proof fn lemma_parse_text(self)
        requires
            self.server_number.0.valid(),
        ensures
            Self::parse(self.text()) == Ok::<Self, InvalidInvitationId>(self),
            self.text().len() == 6,
            !self.text().contains('/'),
    {
        broadcast use NonZero8::lemma_view_of;

        let n = self.packed();
        assert(pow16(6) == 16777216) by {
            reveal_with_fuel(pow16, 7);
        }
        lemma_code(n, 0, 6);
        let s = self.text();
        lemma_letters_ascii(s);
        assert(n / 65536 == self.server_number.0@);
        assert(n % 65536 == self.number);
    }
}

/// The letter at a place of the alphabet.
pub fn letter_at(d: u8) -> (c: char)
    requires
        d < 16,
    ensures
        c == alphabet()[d as int],
{
    proof {
        lemma_alphabet();
    }
    match d {
        0 => 'C',
        1 => 'D',
        2 => 'F',
        3 => 'H',
        4 => 'J',
        5 => 'K',
        6 => 'L',
        7 => 'M',
        8 => 'N',
        9 => 'P',
        10 => 'R',
        11 => 'T',
        12 => 'V',
        13 => 'W',
        14 => 'X',
        _ => 'Y',
    }
}

/// The place of a letter in the alphabet.
pub fn position_of(c: char) -> (r: Option<u8>)
    ensures
        match r {
            Some(p) => letter_position(c) == Some(p as nat),
            None => letter_position(c) is None,
        },
{
    match c {
        'C' => Some(0),
        'D' => Some(1),
        'F' => Some(2),
        'H' => Some(3),
        'J' => Some(4),
        'K' => Some(5),
        'L' => Some(6),
        'M' => Some(7),
        'N' => Some(8),
        'P' => Some(9),
        'R' => Some(10),
        'T' => Some(11),
        'V' => Some(12),
        'W' => Some(13),
        'X' => Some(14),
        'Y' => Some(15),
        _ => None,
    }
}

/// Letters of the alphabet are ASCII and none is a slash.
pub proof fn lemma_letters_ascii(s: Seq<char>)
    requires
        all_letters(s),
    ensures
        is_ascii_chars(s),
        encode_utf8(s).len() == s.len(),
        !s.contains('/'),
{
    assert forall|i: int| 0 <= i < s.len() implies '\0' <= #[trigger] s[i] <= '\u{7f}' by {
        assert(letter_position(s[i]) is Some);
    }
    is_ascii_chars_encode_utf8(s);
    if s.contains('/') {
        let j = choose|j: int| 0 <= j < s.len() && s[j] == '/';
        assert(letter_position(s[j]) is Some);
    }
}

} // verus!

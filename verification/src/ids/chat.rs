use crate::ids::arena::{ArenaId, ArenaIdView};
use crate::ids::realm::RealmIdView;
use crate::ids::scene::{InstanceNumber, SceneId};
use crate::ids::server::{ServerId, ServerKind, ServerNumber};
use crate::text::{first_index, nth_index, split_around, split_once, split_once_nth};
use crate::time::NonZeroUnixMillis;
use vstd::prelude::*;
use vstd::string::StringExecFns;

verus! {

/// The number of a message among those of one instant.
pub type MessageNumber = u8;

/// A chat message: when it was sent, by which server, in which arena.
#[derive(Clone, Copy, Debug, PartialEq, Eq, Hash)]
pub struct ChatId {
    pub arena_id: ArenaId,
    pub message_id: NonZeroUnixMillis,
    pub server_id: ServerId,
}

/// A chat id with the name of its realm as plain text.
pub ghost struct ChatIdView {
    pub arena_id: ArenaIdView,
    pub message_id: NonZeroUnixMillis,
    pub server_id: ServerId,
}

/// Why a text is no chat id.
#[derive(Clone, Copy, Debug, PartialEq, Eq, Structural)]
pub enum InvalidChatId {
    InvalidArenaId,
    InvalidMessageId,
    InvalidServerId,
    MissingAtSign,
    MissingSlash,
}

impl View for ChatId {
    type V = ChatIdView;

    open spec fn view(&self) -> ChatIdView {
        ChatIdView {
            arena_id: self.arena_id@,
            message_id: self.message_id,
            server_id: self.server_id,
        }
    }
}

impl ChatIdView {
    /// The text of a chat id: time, at sign, server, slash, arena.
    pub open spec fn text(self) -> Seq<char> {
        self.message_id.text() + seq!['@'] + (self.server_id.text() + seq!['/']
            + self.arena_id.text())
    }

    /// What a text denotes: a chat id, or the reason why none. The text is parted
    /// at its first at sign, and what follows at its second slash.
    pub open spec fn parse(s: Seq<char>) -> Result<ChatIdView, InvalidChatId> {
        match first_index(s, '@') {
            None => Err(InvalidChatId::MissingAtSign),
            Some(i) => match NonZeroUnixMillis::parse(split_around(s, i).0) {
                Err(_) => Err(InvalidChatId::InvalidMessageId),
                Ok(message_id) => {
                    let path = split_around(s, i).1;
                    match nth_index(path, '/', 1) {
                        None => Err(InvalidChatId::MissingSlash),
                        Some(j) => match ServerId::parse(split_around(path, j).0) {
                            Err(_) => Err(InvalidChatId::InvalidServerId),
                            Ok(server_id) => match ArenaIdView::parse(split_around(path, j).1) {
                                Err(_) => Err(InvalidChatId::InvalidArenaId),
                                Ok(arena_id) => Ok(ChatIdView { arena_id, message_id, server_id }),
                            },
                        },
                    }
                },
            },
        }
    }
}

impl ChatIdView {
    /// Whether the id can be read back: its time, its server and its arena are valid.
    pub open spec fn valid(self) -> bool {
        &&& self.message_id.valid()
        &&& self.server_id.number.0.valid()
        &&& self.arena_id.valid()
    }

    /// The text of a chat id reads back as that id.
    pub proof fn lemma_parse_text(self)
        requires
            self.valid(),
        ensures
            Self::parse(self.text()) == Ok::<Self, InvalidChatId>(self),
    {
        let time = self.message_id.text();
        let server = self.server_id.text();
        let arena = self.arena_id.text();
        let path = server + seq!['/'] + arena;
        self.message_id.lemma_parse_text();
        self.server_id.lemma_parse_text();
        self.arena_id.lemma_parse_text();
        crate::decimal::lemma_decimal_digits(self.message_id@ as nat);
        assert(!time.contains('@')) by {
            if time.contains('@') {
                let j = choose|j: int| 0 <= j < time.len() && time[j] == '@';
                assert(crate::decimal::is_digit(time[j]));
            }
        }
        crate::text::lemma_count_zero(time, '@');
        crate::text::lemma_nth_index_joined(time, path, '@', 0);
        crate::text::lemma_nth_index_joined(server, arena, '/', 1);
    }
}

impl ChatId {
    /// The chat id of a time alone, to search by time: of the default arena and
    /// of the first cloud server.
    pub fn timestamp(message_id: NonZeroUnixMillis) -> (r: Self)
        ensures
            r.message_id == message_id,
            r.arena_id@ == (ArenaIdView {
                realm_id: RealmIdView::PublicDefault,
                scene_id: SceneId { tier_number: None, instance_number: InstanceNumber(0) },
            }),
            r.server_id.kind == ServerKind::Cloud,
            r.server_id.number.0@ == 1,
    {
        let number = match ServerNumber::new(1) {
            Some(number) => number,
            None => vstd::pervasive::unreached(),
        };
        ChatId {
            arena_id: ArenaId::default(),
            message_id,
            server_id: ServerId { kind: ServerKind::Cloud, number },
        }
    }

    /// Writes the id as text.
    pub fn to_string(&self) -> (r: String)
        ensures
            r@ == self@.text(),
    {
        let mut r = self.message_id.to_string();
        r.push('@');
        let server = self.server_id.to_string();
        r.append(server.as_str());
        r.push('/');
        let arena = self.arena_id.to_string();
        r.append(arena.as_str());
        r
    }

    /// Reads a chat id from text.
    pub fn from_str(s: &str) -> (r: Result<Self, InvalidChatId>)
        ensures
            match r {
                Ok(id) => ChatIdView::parse(s@) == Ok::<ChatIdView, InvalidChatId>(id@),
                Err(e) => ChatIdView::parse(s@) == Err::<ChatIdView, InvalidChatId>(e),
            },
    {
        let (message_id, path) = match split_once(s, '@') {
            Some(pair) => pair,
            None => {
                return Err(InvalidChatId::MissingAtSign);
            },
        };
        let message_id = match NonZeroUnixMillis::from_str(message_id) {
            Ok(message_id) => message_id,
            Err(_) => {
                return Err(InvalidChatId::InvalidMessageId);
            },
        };
        let (server_id, arena_id) = match split_once_nth(path, '/', 1) {
            Some(pair) => pair,
            None => {
                return Err(InvalidChatId::MissingSlash);
            },
        };
        let server_id = match ServerId::from_str(server_id) {
            Ok(server_id) => server_id,
            Err(_) => {
                return Err(InvalidChatId::InvalidServerId);
            },
        };
        match ArenaId::from_str(arena_id) {
            Ok(arena_id) => Ok(ChatId { arena_id, message_id, server_id }),
            Err(_) => Err(InvalidChatId::InvalidArenaId),
        }
    }
}

} // verus!

use crate::bounded::{text60, text60_as_str, text60_from};
use crate::decimal::push_decimal;
use crate::ids::server::ServerNumber;
use crate::ids::visitor::{PlayerId, UserId, VisitorId};
use crate::time::NonZeroUnixMillis;
use arrayvec::ArrayString;
use vstd::prelude::*;
use vstd::string::StringExecFns;
use vstd::utf8::encode_utf8;

verus! {

/// Who is to get a chat message.
#[derive(Clone, Copy, Debug, PartialEq, Eq, Structural)]
pub enum ChatRecipient {
    /// The arena, on the server, that sent it.
    Arena,
    /// All arenas, on all servers, of the realm.
    Broadcast,
    Player(PlayerId),
    TeamOf(PlayerId),
    /// The message is logged only.
    Nobody,
}

impl Default for ChatRecipient {
    fn default() -> (r: Self)
        ensures
            r == ChatRecipient::Broadcast,
    {
        ChatRecipient::Broadcast
    }
}

/// How grave a log entry is.
#[derive(Clone, Copy, Debug, PartialEq, Eq, Structural)]
pub enum LogLevel {
    Error,
    Warn,
    Info,
    Debug,
    Trace,
}

/// Who may, or may not, enter a realm. A list names each id once; the order
/// says nothing.
#[derive(Clone, Debug, PartialEq)]
pub enum RealmAcl {
    UserBlacklist(Vec<UserId>),
    VisitorBlacklist(Vec<VisitorId>),
    VisitorWhitelist(Vec<VisitorId>),
}

impl Default for RealmAcl {
    fn default() -> (r: Self)
        ensures
            r matches RealmAcl::VisitorBlacklist(list) && list@.len() == 0,
    {
        RealmAcl::VisitorBlacklist(Vec::new())
    }
}

/// What is known of why a server failed.
#[derive(Clone, Copy, PartialEq, Eq)]
pub struct ServerFailureDiagnostic(ArrayString<60>);

impl View for ServerFailureDiagnostic {
    type V = Seq<char>;

    closed spec fn view(&self) -> Seq<char> {
        text60(self.0)
    }
}

impl ServerFailureDiagnostic {
    /// The diagnostic of the given text, where it fits in 60 bytes.
    pub fn new(s: &str) -> (r: Option<Self>)
        ensures
            r is Some <==> encode_utf8(s@).len() <= 60,
            r matches Some(d) ==> d@ == s@,
    {
        match text60_from(s) {
            Ok(a) => Some(ServerFailureDiagnostic(a)),
            Err(_) => None,
        }
    }

    /// The diagnostic as text.
    pub fn as_str(&self) -> (r: &str)
        ensures
            r@ == self@,
    {
        text60_as_str(&self.0)
    }
}

/// An entry of the log of a server.
#[derive(Clone, Debug, PartialEq, Eq)]
pub struct ServerLogDto {
    /// When the entry was made.
    pub timestamp: NonZeroUnixMillis,
    pub level: LogLevel,
    /// The code that made the entry.
    pub source: String,
    pub message: String,
}

/// What a server is there for at present.
#[derive(Clone, Copy, PartialEq, Eq)]
pub enum ServerRole {
    /// The server is being deleted.
    Deleting,
    /// The server closed to new players of itself; those who play may go on. It
    /// stays so for diagnosis.
    Failed {
        date_failed: NonZeroUnixMillis,
        diagnostic: Option<ServerFailureDiagnostic>,
        redirect: Option<ServerNumber>,
    },
    /// The server takes new players from the public website.
    Public,
    /// The server takes new players from the websites of realms.
    Realms,
    /// The server was closed to new players by hand, and can be made public again.
    Standby { redirect: Option<ServerNumber> },
    /// The server was closed to new players by hand; those who play may go on.
    Terminating { redirect: Option<ServerNumber> },
    /// The server takes new players but is not listed.
    Unlisted,
}

impl Default for ServerRole {
    fn default() -> (r: Self)
        ensures
            r is Unlisted,
    {
        ServerRole::Unlisted
    }
}

impl ServerRole {
    /// Whether the server is closed to new players: failed, on standby or terminating.
    pub open spec fn closing(self) -> bool {
        self is Failed || self is Standby || self is Terminating
    }

    /// The server to which new players are sent on, if any.
    pub open spec fn redirected_to(self) -> Option<ServerNumber> {
        match self {
            ServerRole::Failed { redirect, .. } => redirect,
            ServerRole::Standby { redirect } => redirect,
            ServerRole::Terminating { redirect } => redirect,
            _ => None,
        }
    }

    pub fn is_closing(self) -> (r: bool)
        ensures
            r == self.closing(),
    {
        match self {
            ServerRole::Failed { .. }
            | ServerRole::Standby { .. }
            | ServerRole::Terminating { .. } => true,
            _ => false,
        }
    }

    pub fn is_public(self) -> (r: bool)
        ensures
            r == (self is Public),
    {
        matches!(self, ServerRole::Public)
    }

    pub fn is_realms(self) -> (r: bool)
        ensures
            r == (self is Realms),
    {
        matches!(self, ServerRole::Realms)
    }

    pub fn is_redirected(self) -> (r: bool)
        ensures
            r == (self.redirected_to() is Some),
    {
        self.redirect().is_some()
    }

    pub fn is_unlisted(self) -> (r: bool)
        ensures
            r == (self is Unlisted),
    {
        matches!(self, ServerRole::Unlisted)
    }

    /// The server to which new players are sent on, if any.
    pub fn redirect(self) -> (r: Option<ServerNumber>)
        ensures
            r == self.redirected_to(),
    {
        match self {
            ServerRole::Failed { redirect, .. } => redirect,
            ServerRole::Standby { redirect } => redirect,
            ServerRole::Terminating { redirect } => redirect,
            _ => None,
        }
    }

    /// The name of the kind of role, in lower case.
    pub open spec fn kind_text(self) -> Seq<char> {
        match self {
            ServerRole::Deleting => "deleting"@,
            ServerRole::Failed { .. } => "failed"@,
            ServerRole::Public => "public"@,
            ServerRole::Realms => "realms"@,
            ServerRole::Standby { .. } => "standby"@,
            ServerRole::Terminating { .. } => "terminating"@,
            ServerRole::Unlisted => "unlisted"@,
        }
    }

    /// How the role is shown: its kind and, where new players are sent on, to
    /// which server.
    pub open spec fn text(self) -> Seq<char> {
        match self.redirected_to() {
            Some(redirect) => self.kind_text() + " (redirect to "@ + redirect.text() + ")"@,
            None => self.kind_text(),
        }
    }

    /// Writes how the role is shown.
    pub fn to_string(&self) -> (r: String)
        ensures
            r@ == self.text(),
    {
        let mut r = match self {
            ServerRole::Deleting => String::from_str("deleting"),
            ServerRole::Failed { .. } => String::from_str("failed"),
            ServerRole::Public => String::from_str("public"),
            ServerRole::Realms => String::from_str("realms"),
            ServerRole::Standby { .. } => String::from_str("standby"),
            ServerRole::Terminating { .. } => String::from_str("terminating"),
            ServerRole::Unlisted => String::from_str("unlisted"),
        };
        match self.redirect() {
            Some(redirect) => {
                r.append(" (redirect to ");
                push_decimal(&mut r, redirect.0.get() as u64);
                r.append(")");
            },
            None => {},
        }
        r
    }
}

} // verus!

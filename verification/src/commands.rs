//! The bot's commands and its handler for "first" messages, as decisions on
//! plain values and as steps on the store.

use crate::clock::Timestamp;
use crate::db::{get_timezone, record_bet, upsert_timezone, Store, Tables};
use crate::zone::{known_zone, unknown_zone_text, Zone};
use vstd::prelude::*;
use vstd::string::*;

verus! {

/// What every handler is given: the store.
pub struct Data {
    pub pool: Store,
}

impl View for Data {
    type V = Tables;

    open spec fn view(&self) -> Tables {
        self.pool@
    }
}

impl Data {
    /// The state of a bot that has seen nothing yet.
    pub fn new() -> (data: Data)
        ensures
            data@ == Tables::empty(),
    {
        Data { pool: Store::new() }
    }
}

/// An inbound chat message, as far as the game reads it.
#[derive(Clone, Debug, PartialEq, Eq)]
pub struct Message {
    pub author: u64,
    pub content: String,
}

/// A reply to the invoker of a command.
#[derive(Clone, Debug, PartialEq, Eq)]
pub struct Reply {
    pub content: String,
    /// Threaded as a reply to the invoking message.
    pub reply: bool,
    /// Visible to the invoker only.
    pub ephemeral: bool,
}

impl Reply {
    /// A threaded, ephemeral reply of exactly this text.
    pub open spec fn says(self, text: Seq<char>) -> bool {
        &&& self.content@ == text
        &&& self.reply
        &&& self.ephemeral
    }

    fn saying(content: String) -> (reply: Reply)
        ensures
            reply.says(content@),
    {
        Reply { content, reply: true, ephemeral: true }
    }
}

/// Why a handler gave up.
#[derive(Clone, Copy, Debug, PartialEq, Eq, Structural)]
pub enum CommandError {
    /// The author's id does not fit the signed 64-bit key of the store.
    AuthorOutOfRange,
    /// The zone name stored for the author does not name a zone.
    CorruptTimezone,
}

/// The store's key for a platform account id.
pub open spec fn author_key(author: u64) -> Option<i64> {
    if author <= i64::MAX {
        Some(author as i64)
    } else {
        None
    }
}

pub fn user_key(author: u64) -> (r: Option<i64>)
    ensures
        r == author_key(author),
{
    if author <= i64::MAX as u64 {
        Some(author as i64)
    } else {
        None
    }
}

pub open spec fn registered_text(zone: Seq<char>) -> Seq<char> {
    "Registered "@ + zone + " as your timezone"@
}

pub open spec fn current_zone_text(zone: Seq<char>) -> Seq<char> {
    "Your timezone is "@ + zone
}

pub open spec fn no_zone_text() -> Seq<char> {
    "You do not have a registered timezone"@
}

/// The confirmation of a registration.
pub fn registered_reply(zone: &Zone) -> (reply: Reply)
    ensures
        reply.says(registered_text(zone@)),
{
    let mut content = "Registered ".to_owned();
    content.append(zone.name());
    content.append(" as your timezone");
    Reply::saying(content)
}

/// The answer to a query for one's zone.
pub fn timezone_reply(registered: Option<&Zone>) -> (reply: Reply)
    ensures
        reply.says(
            match registered {
                Some(zone) => current_zone_text(zone@),
                None => no_zone_text(),
            },
        ),
{
    match registered {
        Some(zone) => {
            let mut content = "Your timezone is ".to_owned();
            content.append(zone.name());
            Reply::saying(content)
        },
        None => Reply::saying("You do not have a registered timezone".to_owned()),
    }
}

/// What a request to change one's zone comes to.
pub enum TimezoneChange {
    /// The name is no zone; the reply carries the parser's complaint.
    Rejected { reply: Reply },
    /// The zone is to be stored under `user_id`, and then confirmed.
    Accepted { user_id: i64, zone: Zone, reply: Reply },
}

/// Decides a request of `author` to register `timezone`: an unknown name is
/// answered with the parser's error text and changes nothing.
pub fn timezone_change(author: u64, timezone: &str) -> (r: Result<TimezoneChange, CommandError>)
    ensures
        match r {
            Ok(TimezoneChange::Rejected { reply }) => {
                &&& !known_zone(timezone@)
                &&& reply.says(unknown_zone_text(timezone@))
            },
            Ok(TimezoneChange::Accepted { user_id, zone, reply }) => {
                &&& known_zone(timezone@)
                &&& author_key(author) == Some(user_id)
                &&& zone@ == timezone@
                &&& reply.says(registered_text(timezone@))
            },
            Err(e) => {
                &&& e == CommandError::AuthorOutOfRange
                &&& known_zone(timezone@)
                &&& author_key(author) is None
            },
        },
{
    match Zone::parse(timezone) {
        Err(text) => Ok(TimezoneChange::Rejected { reply: Reply::saying(text) }),
        Ok(zone) => match user_key(author) {
            None => Err(CommandError::AuthorOutOfRange),
            Some(user_id) => {
                let reply = registered_reply(&zone);
                Ok(TimezoneChange::Accepted { user_id, zone, reply })
            },
        },
    }
}

/// The command `change_timezone <timezone>`: validates the name, stores it
/// for the author and confirms; a name that is no zone is answered with the
/// parser's error text, and the store stays as it was.
pub fn change_timezone(data: &mut Data, author: u64, timezone: &str) -> (r: Result<
    Reply,
    CommandError,
>)
    ensures
        match r {
            Ok(reply) => if known_zone(timezone@) {
                &&& author_key(author) is Some
                &&& final(data)@ == old(data)@.upsert_timezone(
                    author_key(author).unwrap(),
                    timezone@,
                )
                &&& reply.says(registered_text(timezone@))
            } else {
                &&& final(data)@ == old(data)@
                &&& reply.says(unknown_zone_text(timezone@))
            },
            Err(e) => {
                &&& e == CommandError::AuthorOutOfRange
                &&& known_zone(timezone@)
                &&& author_key(author) is None
                &&& final(data)@ == old(data)@
            },
        },
        old(data)@.zones_known() ==> final(data)@.zones_known(),
{
    match timezone_change(author, timezone) {
        Err(e) => Err(e),
        Ok(TimezoneChange::Rejected { reply }) => Ok(reply),
        Ok(TimezoneChange::Accepted { user_id, zone, reply }) => {
            upsert_timezone(user_id, zone.name(), &mut data.pool);
            Ok(reply)
        },
    }
}

/// The command `timezone`: tells the author their registered zone, or that
/// they have none.
pub fn timezone(data: &Data, author: u64) -> (r: Result<Reply, CommandError>)
    ensures
        match author_key(author) {
            None => r == Err::<Reply, CommandError>(CommandError::AuthorOutOfRange),
            Some(id) => if !data@.users.contains_key(id) {
                r matches Ok(reply) && reply.says(no_zone_text())
            } else if known_zone(data@.users[id]) {
                r matches Ok(reply) && reply.says(current_zone_text(data@.users[id]))
            } else {
                r == Err::<Reply, CommandError>(CommandError::CorruptTimezone)
            },
        },
{
    match user_key(author) {
        None => Err(CommandError::AuthorOutOfRange),
        Some(id) => match get_timezone(id, &data.pool) {
            Ok(Some(zone)) => Ok(timezone_reply(Some(&zone))),
            Ok(None) => Ok(timezone_reply(None)),
            Err(_) => Err(CommandError::CorruptTimezone),
        },
    }
}

/// How the `help` command answers: the command asked about, if any, and the
/// line under the menu.
#[derive(Clone, Debug, PartialEq, Eq)]
pub struct HelpMenu {
    pub command: Option<String>,
    pub extra_text_at_bottom: &'static str,
    pub ephemeral: bool,
}

/// The command `help [command]`: the platform's usual help menu, closed by
/// the game's motto.
pub fn help(command: Option<String>) -> (menu: HelpMenu)
    ensures
        menu.command == command,
        menu.extra_text_at_bottom@ == "Who can say first, first?"@,
        menu.ephemeral,
{
    HelpMenu { command, extra_text_at_bottom: "Who can say first, first?", ephemeral: true }
}

/// The prefix under which the commands are also offered as plain messages.
pub fn command_prefix() -> (prefix: &'static str)
    ensures
        prefix@ == "!"@,
{
    "!"
}

/// Where a failure arose in the command framework.
#[derive(Clone, Copy, Debug, PartialEq, Eq, Structural)]
pub enum Failure {
    /// While the bot was starting.
    Setup,
    /// Inside a command handler.
    Command,
    /// Anywhere else in the framework.
    Other,
}

/// What is done about a failure.
#[derive(Clone, Copy, Debug, PartialEq, Eq, Structural)]
pub enum Handling {
    /// The process gives up.
    Abort,
    /// The failure is logged with the command's name; the bot goes on.
    Log,
    /// The framework's own handler deals with it.
    Delegate,
}

pub open spec fn handling_of(failure: Failure) -> Handling {
    match failure {
        Failure::Setup => Handling::Abort,
        Failure::Command => Handling::Log,
        Failure::Other => Handling::Delegate,
    }
}

/// The top-level error policy: a bot that cannot start stops, a failed
/// command is logged, everything else is left to the framework.
pub fn on_error(failure: Failure) -> (handling: Handling)
    ensures
        handling == handling_of(failure),
{
    match failure {
        Failure::Setup => Handling::Abort,
        Failure::Command => Handling::Log,
        Failure::Other => Handling::Delegate,
    }
}

/// What `str::to_lowercase` makes of a text.
pub uninterp spec fn lowercased(text: Seq<char>) -> Seq<char>;

/// `str::to_lowercase` depends on its argument alone: it maps the text by
/// Unicode's lowercase rules, whatever the locale.
pub assume_specification[ str::to_lowercase ](text: &str) -> (folded: String)
    ensures
        folded@ == lowercased(text@),
;

/// Whether a text, already folded to lower case, begins with `first`.
pub fn starts_with_first(folded: &str) -> (r: bool)
    ensures
        r == "first"@.is_prefix_of(folded@),
{
    proof {
        reveal_strlit("first");
    }
    if folded.unicode_len() < 5 {
        return false;
    }
    let r = folded.get_char(0) == 'f' && folded.get_char(1) == 'i' && folded.get_char(2) == 'r'
        && folded.get_char(3) == 's' && folded.get_char(4) == 't';
    proof {
        let head = folded@.subrange(0, 5);
        if r {
            assert("first"@ =~= head);
        } else {
            assert(head[0] == folded@[0]);
            assert(head[1] == folded@[1]);
            assert(head[2] == folded@[2]);
            assert(head[3] == folded@[3]);
            assert(head[4] == folded@[4]);
        }
    }
    r
}

/// Whether a message counts as a bet: its content, folded to lower case,
/// begins with `first`.
pub open spec fn is_trigger(content: Seq<char>) -> bool {
    "first"@.is_prefix_of(lowercased(content))
}

pub fn is_first_message(content: &str) -> (r: bool)
    ensures
        r == is_trigger(content@),
{
    let folded = content.to_lowercase();
    starts_with_first(folded.as_str())
}

/// What became of a message.
#[derive(Clone, Copy, Debug, PartialEq, Eq, Structural)]
pub enum Intake {
    /// The message is no "first" message.
    Ignored,
    /// The author has no registered zone; nothing is recorded or said.
    Unregistered,
    /// The bet went to the store, which keeps the first bet of each author.
    Accepted,
}

/// What a "first" message of `author` at `now` does to the tables, and what
/// becomes of it.
pub open spec fn bet_step(tables: Tables, author: u64, now: Timestamp) -> (
    Tables,
    Result<Intake, CommandError>,
) {
    match author_key(author) {
        None => (tables, Err(CommandError::AuthorOutOfRange)),
        Some(id) => if !tables.users.contains_key(id) {
            (tables, Ok(Intake::Unregistered))
        } else if known_zone(tables.users[id]) {
            (tables.record_bet(id, now), Ok(Intake::Accepted))
        } else {
            (tables, Err(CommandError::CorruptTimezone))
        },
    }
}

/// What any message at `now` does to the tables, and what becomes of it.
pub open spec fn message_step(tables: Tables, message: Message, now: Timestamp) -> (
    Tables,
    Result<Intake, CommandError>,
) {
    if is_trigger(message.content@) {
        bet_step(tables, message.author, now)
    } else {
        (tables, Ok(Intake::Ignored))
    }
}

/// Silence for the unregistered: a message of an author without a row in
/// `users` changes neither table, whatever it says.
pub proof fn lemma_unregistered_author_changes_nothing(
    tables: Tables,
    message: Message,
    now: Timestamp,
)
    requires
        author_key(message.author) matches Some(id) && !tables.users.contains_key(id),
    ensures
        message_step(tables, message, now).0 == tables,
        message_step(tables, message, now).1 is Ok,
        bet_step(tables, message.author, now) == (
            tables,
            Ok::<Intake, CommandError>(Intake::Unregistered),
        ),
{
}

/// No message changes the registrations, and none changes the bet of
/// anybody but its author.
pub proof fn lemma_message_touches_only_its_author(
    tables: Tables,
    message: Message,
    now: Timestamp,
    other: i64,
)
    requires
        author_key(message.author) != Some(other),
    ensures
        message_step(tables, message, now).0.users == tables.users,
        message_step(tables, message, now).0.bets.contains_key(other)
            == tables.bets.contains_key(other),
        tables.bets.contains_key(other) ==> message_step(tables, message, now).0.bets[other]
            == tables.bets[other],
{
}

/// Takes a "first" message of a registered author as a bet at `now`. An
/// author without a zone is passed over in silence, and an author who
/// already holds a bet keeps it.
pub fn first(message: &Message, data: &mut Data, now: Timestamp) -> (r: Result<
    Intake,
    CommandError,
>)
    ensures
        (final(data)@, r) == bet_step(old(data)@, message.author, now),
{
    let id = match user_key(message.author) {
        Some(id) => id,
        None => {
            return Err(CommandError::AuthorOutOfRange);
        },
    };
    match get_timezone(id, &data.pool) {
        Err(_) => Err(CommandError::CorruptTimezone),
        Ok(None) => Ok(Intake::Unregistered),
        Ok(Some(_)) => {
            let taken = record_bet(id, now, &mut data.pool);
            assert(taken is Ok);
            Ok(Intake::Accepted)
        },
    }
}

/// The handler for every inbound message: a message that is no "first"
/// message is ignored, any other goes to [`first`].
pub fn on_message(message: &Message, data: &mut Data, now: Timestamp) -> (r: Result<
    Intake,
    CommandError,
>)
    ensures
        (final(data)@, r) == message_step(old(data)@, *message, now),
{
    if !is_first_message(message.content.as_str()) {
        return Ok(Intake::Ignored);
    }
    first(message, data, now)
}

} // verus!

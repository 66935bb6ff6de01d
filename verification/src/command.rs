//! What each command of the chat front end does to the store and what is
//! to be answered: the step from a store and a command to the next store
//! and a reply. Receiving the command and wording the reply are left to the
//! caller.

use vstd::prelude::*;
use crate::amount::{amount_and_reason, parse_amount_and_reason, AmountError};
use crate::db::{entry_views, is_row_stamp, timestamp, Db, Entry};
use crate::ledger::{
    add_entry_result, add_entry_state, archive_result, archive_state, balance, fits_i64,
    grand_total, history, lemma_add_entry_sums, recent, wf, DbError, DbView, EntryKind,
    EntryView,
};
use crate::text::{
    chars_of, copy_range, copy_text, integer_of, opt_text, parse_integer, skip_spaces,
    spaces_end, text_end, trim_end,
};

verus! {

/// A command of a user, with its argument text where it takes one.
#[derive(Debug, Clone, PartialEq, Eq)]
pub enum Command {
    /// Register, or show the identifier.
    Start,
    /// Save an amount, with an optional reason.
    Save(String),
    /// Adjust the balance by a signed amount, with an optional reason.
    Adjust(String),
    /// Move the whole balance into history.
    Allinvoo,
    /// List the most recent entries.
    Query(String),
    /// Show the help text.
    Help,
}

/// A command, as a value.
pub enum CommandView {
    Start,
    Save(Seq<char>),
    Adjust(Seq<char>),
    Allinvoo,
    Query(Seq<char>),
    Help,
}

impl View for Command {
    type V = CommandView;

    open spec fn view(&self) -> CommandView {
        match *self {
            Command::Start => CommandView::Start,
            Command::Save(args) => CommandView::Save(args@),
            Command::Adjust(args) => CommandView::Adjust(args@),
            Command::Allinvoo => CommandView::Allinvoo,
            Command::Query(args) => CommandView::Query(args@),
            Command::Help => CommandView::Help,
        }
    }
}

/// What is to be answered to a command.
#[derive(Debug, Clone, PartialEq, Eq)]
pub enum Reply {
    /// The user is registered.
    Welcome,
    /// The help text is asked for.
    Help,
    /// The amount was saved; the balance is now `total_cents`.
    Saved { amount_cents: i64, reason: Option<String>, total_cents: i64 },
    /// Nothing was saved: the amount is not positive.
    NotPositive,
    /// The balance was adjusted; it is now `total_cents`.
    Adjusted { delta_cents: i64, reason: Option<String>, total_cents: i64 },
    /// Nothing was adjusted: the amount is zero.
    ZeroAdjustment,
    /// Nothing was moved: the balance is zero.
    NothingToInvest,
    /// The balance was moved into history, which now stands at
    /// `history_cents`.
    Invested { moved_cents: i64, history_cents: i64 },
    /// The user has no entries.
    NoEntries,
    /// The user's most recent entries, most recent first, with the sums:
    /// the balance, the history total, and both together where that fits
    /// 64 bits.
    Listing {
        entries: Vec<Entry>,
        current_cents: i64,
        history_cents: i64,
        grand_cents: Option<i64>,
    },
}

/// A reply, as a value.
pub enum ReplyView {
    Welcome,
    Help,
    Saved { amount_cents: int, reason: Option<Seq<char>>, total_cents: int },
    NotPositive,
    Adjusted { delta_cents: int, reason: Option<Seq<char>>, total_cents: int },
    ZeroAdjustment,
    NothingToInvest,
    Invested { moved_cents: int, history_cents: int },
    NoEntries,
    Listing {
        entries: Seq<EntryView>,
        current_cents: int,
        history_cents: int,
        grand_cents: Option<int>,
    },
}

impl View for Reply {
    type V = ReplyView;

    open spec fn view(&self) -> ReplyView {
        match *self {
            Reply::Welcome => ReplyView::Welcome,
            Reply::Help => ReplyView::Help,
            Reply::Saved { amount_cents, reason, total_cents } => ReplyView::Saved {
                amount_cents: amount_cents as int,
                reason: opt_text(reason),
                total_cents: total_cents as int,
            },
            Reply::NotPositive => ReplyView::NotPositive,
            Reply::Adjusted { delta_cents, reason, total_cents } => ReplyView::Adjusted {
                delta_cents: delta_cents as int,
                reason: opt_text(reason),
                total_cents: total_cents as int,
            },
            Reply::ZeroAdjustment => ReplyView::ZeroAdjustment,
            Reply::NothingToInvest => ReplyView::NothingToInvest,
            Reply::Invested { moved_cents, history_cents } => ReplyView::Invested {
                moved_cents: moved_cents as int,
                history_cents: history_cents as int,
            },
            Reply::NoEntries => ReplyView::NoEntries,
            Reply::Listing { entries, current_cents, history_cents, grand_cents } => {
                ReplyView::Listing {
                    entries: entry_views(entries@),
                    current_cents: current_cents as int,
                    history_cents: history_cents as int,
                    grand_cents: match grand_cents {
                        Some(g) => Some(g as int),
                        None => None,
                    },
                }
            },
        }
    }
}

/// Why a command was not carried out. The store is then as it was.
#[derive(Debug, Clone, Copy, PartialEq, Eq, Structural)]
pub enum CommandError {
    /// The amount text was rejected.
    Amount(AmountError),
    /// The store refused the operation.
    Store(DbError),
}

/// How many entries are listed where the argument names no number.
pub const DEFAULT_LIMIT: i64 = 10;

/// The most entries that are ever listed.
pub const MAX_LIMIT: i64 = 50;

/// How many entries a `Query` with the argument `args` lists: the number
/// that the argument, without the white space around it, writes, held
/// between 1 and `MAX_LIMIT`; `DEFAULT_LIMIT` where it writes none.
pub open spec fn limit_of(args: Seq<char>) -> int {
    let a = spaces_end(args, 0);
    let b = text_end(args, a, args.len() as int);
    match integer_of(args.subrange(a, b)) {
        Some(n) => if n < 1 {
            1
        } else if n > MAX_LIMIT {
            MAX_LIMIT as int
        } else {
            n
        },
        None => DEFAULT_LIMIT as int,
    }
}

/// The store after a command of `user` at the time `now`.
pub open spec fn command_state(s: DbView, user: u128, cmd: CommandView, now: Seq<char>) -> DbView {
    match cmd {
        CommandView::Save(args) => match amount_and_reason(args, false) {
            Ok((cents, note)) => if cents > 0 {
                add_entry_state(s, user, cents, EntryKind::Save, note, now)
            } else {
                s
            },
            Err(_) => s,
        },
        CommandView::Adjust(args) => match amount_and_reason(args, true) {
            Ok((cents, note)) => if cents != 0 {
                add_entry_state(s, user, cents, EntryKind::Adjust, note, now)
            } else {
                s
            },
            Err(_) => s,
        },
        CommandView::Allinvoo => archive_state(s, user, now),
        _ => s,
    }
}

/// The answer to a `Save` or an `Adjust` of `cents` once the amount is
/// known to be acceptable.
pub open spec fn append_reply(
    s: DbView,
    user: u128,
    cents: int,
    kind: EntryKind,
    note: Option<Seq<char>>,
) -> Result<ReplyView, CommandError> {
    match add_entry_result(s, user, cents, kind) {
        Err(e) => Err(CommandError::Store(e)),
        Ok(_) => {
            let total = balance(s.entries, user) + cents;
            if kind == EntryKind::Save {
                Ok(ReplyView::Saved { amount_cents: cents, reason: note, total_cents: total })
            } else {
                Ok(ReplyView::Adjusted { delta_cents: cents, reason: note, total_cents: total })
            }
        },
    }
}

/// The answer to a command of `user` on the store `s`.
pub open spec fn command_reply(s: DbView, user: u128, cmd: CommandView) -> Result<
    ReplyView,
    CommandError,
> {
    match cmd {
        CommandView::Start => Ok(ReplyView::Welcome),
        CommandView::Help => Ok(ReplyView::Help),
        CommandView::Save(args) => match amount_and_reason(args, false) {
            Err(e) => Err(CommandError::Amount(e)),
            Ok((cents, note)) => if cents <= 0 {
                Ok(ReplyView::NotPositive)
            } else {
                append_reply(s, user, cents, EntryKind::Save, note)
            },
        },
        CommandView::Adjust(args) => match amount_and_reason(args, true) {
            Err(e) => Err(CommandError::Amount(e)),
            Ok((cents, note)) => if cents == 0 {
                Ok(ReplyView::ZeroAdjustment)
            } else {
                append_reply(s, user, cents, EntryKind::Adjust, note)
            },
        },
        CommandView::Allinvoo => match archive_result(s, user) {
            Ok(moved) => Ok(
                ReplyView::Invested {
                    moved_cents: moved,
                    history_cents: history(s.entries, user) + moved,
                },
            ),
            Err(DbError::NothingToArchive) => Ok(ReplyView::NothingToInvest),
            Err(e) => Err(CommandError::Store(e)),
        },
        CommandView::Query(args) => {
            let entries = recent(s.entries, user, limit_of(args));
            if entries.len() == 0 {
                Ok(ReplyView::NoEntries)
            } else {
                Ok(
                    ReplyView::Listing {
                        entries,
                        current_cents: balance(s.entries, user),
                        history_cents: history(s.entries, user),
                        grand_cents: if fits_i64(grand_total(s.entries, user)) {
                            Some(grand_total(s.entries, user))
                        } else {
                            None
                        },
                    },
                )
            }
        },
    }
}

/// The view of the outcome of a command.
pub open spec fn outcome_view(r: Result<Reply, CommandError>) -> Result<ReplyView, CommandError> {
    match r {
        Ok(reply) => Ok(reply@),
        Err(e) => Err(e),
    }
}

/// How many entries a `Query` with the argument `args` lists.
pub fn query_limit(args: &str) -> (limit: i64)
    ensures
        limit == limit_of(args@),
        1 <= limit <= MAX_LIMIT,
{
    let chars = chars_of(args);
    let a: usize = skip_spaces(&chars, 0);
    let b: usize = trim_end(&chars, a, chars.len());
    let token = copy_range(&chars, a, b);
    match parse_integer(&token) {
        Some(n) => if n < 1 {
            1
        } else if n > MAX_LIMIT {
            MAX_LIMIT
        } else {
            n
        },
        None => DEFAULT_LIMIT,
    }
}

/// Appends the entry of a `Save` or an `Adjust` and answers with the new
/// balance.
fn append_and_report(
    db: &mut Db,
    user_id: u128,
    cents: i64,
    kind: EntryKind,
    reason: Option<String>,
    now: String,
) -> (r: Result<Reply, CommandError>)
    requires
        wf(old(db)@),
        kind != EntryKind::Archive,
    ensures
        wf(final(db)@),
        final(db)@ == add_entry_state(
            old(db)@,
            user_id,
            cents as int,
            kind,
            opt_text(reason),
            now@,
        ),
        outcome_view(r) == append_reply(old(db)@, user_id, cents as int, kind, opt_text(reason)),
{
    let shown: Option<String> = copy_text(&reason);
    proof {
        if add_entry_result(db@, user_id, cents as int, kind) is Ok {
            lemma_add_entry_sums(db@, user_id, cents as int, kind, opt_text(reason), now@);
        }
    }
    match db.add_entry_at(user_id, cents, kind, reason, now) {
        Err(e) => Err(CommandError::Store(e)),
        Ok(_) => {
            let total: i64 = db.total_cents(user_id);
            match kind {
                EntryKind::Save => Ok(
                    Reply::Saved { amount_cents: cents, reason: shown, total_cents: total },
                ),
                _ => Ok(Reply::Adjusted { delta_cents: cents, reason: shown, total_cents: total }),
            }
        },
    }
}

/// Carries out one command of the user `user_id` at the current time: the
/// store takes the entry that the command asks for, if it asks for one and
/// the entry is accepted, and the reply says what was done.
pub fn handle_command(db: &mut Db, user_id: u128, cmd: Command) -> (r: Result<Reply, CommandError>)
    requires
        wf(old(db)@),
    ensures
        wf(final(db)@),
        final(db)@ == command_state(
            old(db)@,
            user_id,
            cmd@,
            final(db)@.entries.last().created_at,
        ),
        outcome_view(r) == command_reply(old(db)@, user_id, cmd@),
        final(db)@ != old(db)@ ==> is_row_stamp(final(db)@.entries.last().created_at),
{
    let now: String = timestamp();
    handle_command_at(db, user_id, cmd, now)
}

/// What carrying out a command came to: the reply, or why the command was
/// not carried out, and the entry that the store took, if it took one.
#[derive(Debug, PartialEq, Eq)]
pub struct Applied {
    pub outcome: Result<Reply, CommandError>,
    pub appended: Option<Entry>,
}

/// Carries out one command like `handle_command`, and says besides the
/// reply which entry the store took: a command appends one entry of the
/// user or leaves the store as it was.
pub fn apply_command(db: &mut Db, user_id: u128, cmd: Command) -> (done: Applied)
    requires
        wf(old(db)@),
    ensures
        wf(final(db)@),
        outcome_view(done.outcome) == command_reply(old(db)@, user_id, cmd@),
        match done.appended {
            Some(entry) => {
                &&& final(db)@ == command_state(old(db)@, user_id, cmd@, entry.created_at@)
                &&& final(db)@.users == old(db)@.users
                &&& final(db)@.entries == old(db)@.entries.push(entry@)
                &&& entry.user_id == user_id
                &&& is_row_stamp(entry.created_at@)
            },
            None => final(db)@ == old(db)@,
        },
{
    let before: usize = db.entry_count();
    let outcome = handle_command(db, user_id, cmd);
    let appended: Option<Entry> = if db.entry_count() > before {
        db.latest_entry()
    } else {
        None
    };
    Applied { outcome, appended }
}

/// Carries out one command of the user `user_id` at the time `now`: the
/// store takes the entry that the command asks for, if it asks for one and
/// the entry is accepted, and the reply says what was done.
pub fn handle_command_at(db: &mut Db, user_id: u128, cmd: Command, now: String) -> (r: Result<
    Reply,
    CommandError,
>)
    requires
        wf(old(db)@),
    ensures
        wf(final(db)@),
        final(db)@ == command_state(old(db)@, user_id, cmd@, now@),
        outcome_view(r) == command_reply(old(db)@, user_id, cmd@),
{
    match cmd {
        Command::Start => Ok(Reply::Welcome),
        Command::Help => Ok(Reply::Help),
        Command::Save(args) => match parse_amount_and_reason(args.as_str(), false) {
            Err(e) => Err(CommandError::Amount(e)),
            Ok((cents, reason)) => {
                if cents <= 0 {
                    Ok(Reply::NotPositive)
                } else {
                    append_and_report(db, user_id, cents, EntryKind::Save, reason, now)
                }
            },
        },
        Command::Adjust(args) => match parse_amount_and_reason(args.as_str(), true) {
            Err(e) => Err(CommandError::Amount(e)),
            Ok((cents, reason)) => {
                if cents == 0 {
                    Ok(Reply::ZeroAdjustment)
                } else {
                    append_and_report(db, user_id, cents, EntryKind::Adjust, reason, now)
                }
            },
        },
        Command::Allinvoo => {
            proof {
                if archive_result(db@, user_id) is Ok {
                    lemma_add_entry_sums(
                        db@,
                        user_id,
                        -balance(db@.entries, user_id),
                        EntryKind::Archive,
                        None,
                        now@,
                    );
                }
            }
            match db.archive_user_entries_at(user_id, now) {
                Ok(moved) => {
                    let history_cents: i64 = db.history_total_cents(user_id);
                    Ok(Reply::Invested { moved_cents: moved, history_cents })
                },
                Err(DbError::NothingToArchive) => Ok(Reply::NothingToInvest),
                Err(e) => Err(CommandError::Store(e)),
            }
        },
        Command::Query(args) => {
            let limit: i64 = query_limit(args.as_str());
            let entries = db.last_entries(user_id, limit);
            if entries.len() == 0 {
                Ok(Reply::NoEntries)
            } else {
                let current_cents: i64 = db.total_cents(user_id);
                let history_cents: i64 = db.history_total_cents(user_id);
                let grand_cents: Option<i64> = db.grand_total_cents(user_id);
                Ok(Reply::Listing { entries, current_cents, history_cents, grand_cents })
            }
        },
    }
}

} // verus!

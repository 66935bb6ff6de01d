//! The entry store: users, their entries and the sums derived from them.

use vstd::prelude::*;
use crate::ledger::{
    add_entry_result, add_entry_state, archive_result, archive_state, balance, empty_db,
    ensure_user_result, ensure_user_state, fits_i64, grand_total, history, holds_random_id, id_of,
    is_random_uuid, known, lemma_add_entry_sums, lemma_add_entry_wf, lemma_ensure_user_found,
    lemma_ensure_user_wf, lemma_history_nonnegative, magnitude, new_entry, newest_first,
    next_entry_id, recent, registered, sums_moved, user_of, valid_entry, wf, DbError, DbView,
    EntryKind, EntryView, UserView,
};
use crate::text::{chars_of, copy_text, is_digit, opt_text};

verus! {

/// A registered user.
#[derive(Debug, Clone, PartialEq, Eq)]
pub struct User {
    pub id: u128,
    pub tg_user_id: i64,
    pub tg_username: Option<String>,
    pub first_name: String,
    pub last_name: Option<String>,
    pub created_at: String,
}

impl View for User {
    type V = UserView;

    open spec fn view(&self) -> UserView {
        UserView {
            id: self.id,
            tg_user_id: self.tg_user_id,
            tg_username: opt_text(self.tg_username),
            first_name: self.first_name@,
            last_name: opt_text(self.last_name),
            created_at: self.created_at@,
        }
    }
}

/// A single ledger entry.
#[derive(Debug, Clone, PartialEq, Eq)]
pub struct Entry {
    pub id: i64,
    pub user_id: u128,
    pub amount_cents: i64,
    pub kind: EntryKind,
    pub reason: Option<String>,
    pub created_at: String,
}

impl View for Entry {
    type V = EntryView;

    open spec fn view(&self) -> EntryView {
        EntryView {
            id: self.id,
            user_id: self.user_id,
            amount_cents: self.amount_cents,
            kind: self.kind,
            reason: opt_text(self.reason),
            created_at: self.created_at@,
        }
    }
}

/// The users of a vector of rows, as values.
pub open spec fn user_views(rows: Seq<User>) -> Seq<UserView> {
    rows.map_values(|u: User| u@)
}

/// The entries of a vector of rows, as values.
pub open spec fn entry_views(rows: Seq<Entry>) -> Seq<EntryView> {
    rows.map_values(|e: Entry| e@)
}

/// The row of a user, as a value.
pub open spec fn user_row(
    id: u128,
    tg_user_id: i64,
    tg_username: Option<Seq<char>>,
    first_name: Seq<char>,
    last_name: Option<Seq<char>>,
    created_at: Seq<char>,
) -> UserView {
    UserView { id, tg_user_id, tg_username, first_name, last_name, created_at }
}

/// A copy of an entry.
pub fn copy_entry(e: &Entry) -> (copy: Entry)
    ensures
        copy@ == e@,
{
    Entry {
        id: e.id,
        user_id: e.user_id,
        amount_cents: e.amount_cents,
        kind: e.kind,
        reason: copy_text(&e.reason),
        created_at: e.created_at.clone(),
    }
}

/// What a registration came to: the identifier of the user, and the row
/// that was added where the user is new.
#[derive(Debug, Clone, PartialEq, Eq)]
pub struct Registration {
    pub user_id: u128,
    pub added: Option<User>,
}

/// The store: the registered users and the append-only list of entries.
/// Balances and history totals are not kept; they are sums over the
/// entries. A store starts empty and changes only through the methods
/// below, each of which keeps the invariant `wf`, so every store there is
/// satisfies it.
#[derive(Debug)]
pub struct Db {
    users: Vec<User>,
    entries: Vec<Entry>,
}

impl View for Db {
    type V = DbView;

    closed spec fn view(&self) -> DbView {
        DbView { users: user_views(self.users@), entries: entry_views(self.entries@) }
    }
}

/// A fresh random identifier for a user. Calls `uuid::Uuid::new_v4` and
/// hands the UUID out as the 128-bit number it is. Nothing is claimed of the
/// random bits, so nothing of the identifier being new; only that the
/// result carries the version and variant marks that `new_v4` sets.
#[verifier::external_body]
fn random_user_id() -> (id: u128)
    ensures
        is_random_uuid(id),
{
    uuid::Uuid::new_v4().as_u128()
}

/// Whether `s` has the shape of a time in UTC as RFC 3339 writes it:
/// `YYYY-MM-DDThh:mm:ss`, then optionally a point and one to nine digits
/// of the second's fraction, then `Z`.
pub open spec fn is_utc_stamp(s: Seq<char>) -> bool {
    &&& s.len() == 20 || 22 <= s.len() <= 30
    &&& forall|i: int|
        0 <= i < 19 ==> if i == 4 || i == 7 {
            #[trigger] s[i] == '-'
        } else if i == 10 {
            s[i] == 'T'
        } else if i == 13 || i == 16 {
            s[i] == ':'
        } else {
            is_digit(s[i])
        }
    &&& s.len() > 20 ==> s[19] == '.'
    &&& forall|i: int| 20 <= i < s.len() - 1 ==> is_digit(#[trigger] s[i])
    &&& s.last() == 'Z'
}

/// The current time in UTC as RFC 3339 text, where it can be written so.
/// Calls `time::OffsetDateTime::now_utc` and formats the result with
/// `time::format_description::well_known::Rfc3339`, which refuses a year
/// outside 0 to 9999. Nothing is claimed of the time that the text tells; only
/// the shape that the formatter writes for a time in UTC: the date and the
/// time of day in digits of fixed width, a fraction of the second where it
/// is not zero, and `Z`.
#[verifier::external_body]
fn utc_timestamp() -> (stamp: Option<String>)
    ensures
        stamp matches Some(t) ==> is_utc_stamp(t@),
{
    time::OffsetDateTime::now_utc().format(&time::format_description::well_known::Rfc3339).ok()
}

/// Whether `s` can stamp a new row: it is a time in UTC as RFC 3339 writes
/// it, or the word `now`.
pub open spec fn is_row_stamp(s: Seq<char>) -> bool {
    s == "now"@ || is_utc_stamp(s)
}

/// The text that stamps a new row when the time was written as `written`:
/// that text, or the word `now` where the time could not be written.
pub open spec fn stamp_text(written: Option<Seq<char>>) -> Seq<char> {
    match written {
        Some(t) => t,
        None => "now"@,
    }
}

/// The time stamp for a new row, given the time as it was written, if it
/// was: the text written, or the word `now`.
pub fn stamp_or_now(written: Option<String>) -> (stamp: String)
    ensures
        stamp@ == stamp_text(opt_text(written)),
{
    match written {
        Some(stamp) => stamp,
        None => "now".to_owned(),
    }
}

/// The time stamp for a new row: the current time in UTC as RFC 3339
/// text, or the word `now` where the time cannot be written so.
pub(crate) fn timestamp() -> (stamp: String)
    ensures
        is_row_stamp(stamp@),
{
    stamp_or_now(utc_timestamp())
}

impl Db {
    /// An empty store.
    pub fn new() -> (db: Db)
        ensures
            db@ == empty_db(),
            wf(db@),
    {
        let db = Db { users: Vec::new(), entries: Vec::new() };
        assert(db@.users =~= Seq::<UserView>::empty());
        assert(db@.entries =~= Seq::<EntryView>::empty());
        assert(forall|u: u128| balance(db@.entries, u) == 0);
        assert(forall|u: u128| history(db@.entries, u) == 0);
        db
    }

    /// Whether a user with the identifier `user_id` is registered.
    pub fn has_user(&self, user_id: u128) -> (found: bool)
        ensures
            found == registered(self@.users, user_id),
    {
        let mut i: usize = 0;
        while i < self.users.len()
            invariant
                i <= self.users.len(),
                forall|k: int| 0 <= k < i ==> (#[trigger] self@.users[k]).id != user_id,
            decreases self.users.len() - i,
        {
            if self.users[i].id == user_id {
                assert(self@.users[i as int].id == user_id);
                return true;
            }
            i += 1;
        }
        false
    }

    /// Where the user with the external identity `tg_user_id` stands among
    /// the users, if one is registered.
    fn find_external(&self, tg_user_id: i64) -> (found: Option<usize>)
        requires
            wf(self@),
        ensures
            found.is_some() == known(self@.users, tg_user_id),
            found matches Some(i) ==> i < self.users.len() && self.users@[i as int]@ == user_of(
                self@.users,
                tg_user_id,
            ),
    {
        let mut i: usize = 0;
        while i < self.users.len()
            invariant
                i <= self.users.len(),
                wf(self@),
                forall|k: int| 0 <= k < i ==> (#[trigger] self@.users[k]).tg_user_id != tg_user_id,
            decreases self.users.len() - i,
        {
            if self.users[i].tg_user_id == tg_user_id {
                proof {
                    let users = self@.users;
                    assert(users[i as int].tg_user_id == tg_user_id);
                    let k = choose|k: int|
                        0 <= k < users.len() && (#[trigger] users[k]).tg_user_id == tg_user_id;
                    assert(k == i) by {
                        if k < i {
                            assert(users[k].tg_user_id != users[i as int].tg_user_id);
                        } else if k > i {
                            assert(users[i as int].tg_user_id != users[k].tg_user_id);
                        }
                    }
                }
                return Some(i);
            }
            i += 1;
        }
        None
    }

    /// The identifier of the user with the external identity `tg_user_id`,
    /// if one is registered.
    pub fn user_id_of(&self, tg_user_id: i64) -> (found: Option<u128>)
        requires
            wf(self@),
        ensures
            found.is_some() == known(self@.users, tg_user_id),
            found matches Some(id) ==> id == id_of(self@.users, tg_user_id),
    {
        match self.find_external(tg_user_id) {
            Some(i) => Some(self.users[i].id),
            None => None,
        }
    }

    /// A copy of the row of the user with the external identity
    /// `tg_user_id`, if one is registered.
    pub fn user_by_external(&self, tg_user_id: i64) -> (found: Option<User>)
        requires
            wf(self@),
        ensures
            found.is_some() == known(self@.users, tg_user_id),
            found matches Some(u) ==> u@ == user_of(self@.users, tg_user_id),
    {
        match self.find_external(tg_user_id) {
            Some(i) => {
                let u = &self.users[i];
                Some(
                    User {
                        id: u.id,
                        tg_user_id: u.tg_user_id,
                        tg_username: copy_text(&u.tg_username),
                        first_name: u.first_name.clone(),
                        last_name: copy_text(&u.last_name),
                        created_at: u.created_at.clone(),
                    },
                )
            },
            None => None,
        }
    }

    /// Registers the external identity `tg_user_id` under the identifier
    /// `candidate` unless the identity is registered already: then the
    /// identifier it has is returned and nothing changes, the names
    /// included. A candidate that belongs to another user is refused.
    pub fn ensure_user_with(
        &mut self,
        tg_user_id: i64,
        tg_username: Option<String>,
        first_name: String,
        last_name: Option<String>,
        candidate: u128,
        now: String,
    ) -> (r: Result<u128, DbError>)
        requires
            wf(old(self)@),
        ensures
            wf(final(self)@),
            r == ensure_user_result(old(self)@, tg_user_id, candidate),
            final(self)@ == ensure_user_state(
                old(self)@,
                user_row(
                    candidate,
                    tg_user_id,
                    opt_text(tg_username),
                    first_name@,
                    opt_text(last_name),
                    now@,
                ),
            ),
    {
        if let Some(id) = self.user_id_of(tg_user_id) {
            return Ok(id);
        }
        if self.has_user(candidate) {
            return Err(DbError::DuplicateId);
        }
        let user = User {
            id: candidate,
            tg_user_id,
            tg_username,
            first_name,
            last_name,
            created_at: now,
        };
        proof {
            lemma_ensure_user_wf(self@, user@);
            assert(user_views(self.users@.push(user)) =~= self@.users.push(user@));
        }
        self.users.push(user);
        Ok(candidate)
    }

    /// The identifier of the user with the external identity `tg_user_id`,
    /// who is registered first if the identity is new. For a known
    /// identity nothing changes, the names included, and nothing is drawn.
    /// A new user gets a random identifier and the current time as the
    /// time of creation. The registration is refused only if the
    /// identifier drawn belongs to another user, which takes a user with a
    /// random identifier to be there already; then nothing is registered.
    pub fn ensure_user(
        &mut self,
        tg_user_id: i64,
        tg_username: Option<String>,
        first_name: String,
        last_name: Option<String>,
    ) -> (r: Result<u128, DbError>)
        requires
            wf(old(self)@),
        ensures
            wf(final(self)@),
            known(old(self)@.users, tg_user_id) ==> r == Ok::<u128, DbError>(
                id_of(old(self)@.users, tg_user_id),
            ) && final(self)@ == old(self)@,
            !known(old(self)@.users, tg_user_id) ==> match r {
                Ok(id) => is_random_uuid(id) && !registered(old(self)@.users, id) && final(self)@
                    == ensure_user_state(
                    old(self)@,
                    user_row(
                        id,
                        tg_user_id,
                        opt_text(tg_username),
                        first_name@,
                        opt_text(last_name),
                        final(self)@.users.last().created_at,
                    ),
                ) && is_row_stamp(final(self)@.users.last().created_at),
                Err(e) => e == DbError::DuplicateId && final(self)@ == old(self)@,
            },
            r is Err ==> holds_random_id(old(self)@.users),
            r matches Ok(id) ==> known(final(self)@.users, tg_user_id) && id_of(
                final(self)@.users,
                tg_user_id,
            ) == id,
    {
        if let Some(id) = self.user_id_of(tg_user_id) {
            return Ok(id);
        }
        let candidate: u128 = random_user_id();
        let now: String = timestamp();
        let ghost row = user_row(
            candidate,
            tg_user_id,
            opt_text(tg_username),
            first_name@,
            opt_text(last_name),
            now@,
        );
        let r = self.ensure_user_with(
            tg_user_id,
            tg_username,
            first_name,
            last_name,
            candidate,
            now,
        );
        proof {
            lemma_ensure_user_found(old(self)@, row);
            if r is Err {
                let users = old(self)@.users;
                let k = choose|k: int| 0 <= k < users.len() && (#[trigger] users[k]).id == candidate;
                assert(is_random_uuid(users[k].id));
            }
        }
        r
    }

    /// Registers like `ensure_user`, and says besides the identifier
    /// whether a user was added, and with which row.
    pub fn register_user(
        &mut self,
        tg_user_id: i64,
        tg_username: Option<String>,
        first_name: String,
        last_name: Option<String>,
    ) -> (r: Result<Registration, DbError>)
        requires
            wf(old(self)@),
        ensures
            wf(final(self)@),
            match r {
                Ok(done) => {
                    &&& known(final(self)@.users, tg_user_id)
                    &&& id_of(final(self)@.users, tg_user_id) == done.user_id
                    &&& match done.added {
                        Some(user) => {
                            &&& !known(old(self)@.users, tg_user_id)
                            &&& !registered(old(self)@.users, done.user_id)
                            &&& is_random_uuid(done.user_id)
                            &&& is_row_stamp(user.created_at@)
                            &&& user@ == user_row(
                                done.user_id,
                                tg_user_id,
                                opt_text(tg_username),
                                first_name@,
                                opt_text(last_name),
                                user.created_at@,
                            )
                            &&& final(self)@ == ensure_user_state(old(self)@, user@)
                            &&& final(self)@.users == old(self)@.users.push(user@)
                        },
                        None => {
                            &&& known(old(self)@.users, tg_user_id)
                            &&& done.user_id == id_of(old(self)@.users, tg_user_id)
                            &&& final(self)@ == old(self)@
                        },
                    }
                },
                Err(e) => {
                    &&& e == DbError::DuplicateId
                    &&& !known(old(self)@.users, tg_user_id)
                    &&& holds_random_id(old(self)@.users)
                    &&& final(self)@ == old(self)@
                },
            },
    {
        let was_known: bool = self.user_id_of(tg_user_id).is_some();
        let ghost names = (opt_text(tg_username), first_name@, opt_text(last_name));
        match self.ensure_user(tg_user_id, tg_username, first_name, last_name) {
            Err(e) => Err(e),
            Ok(user_id) => {
                let added: Option<User> = if was_known {
                    None
                } else {
                    proof {
                        lemma_ensure_user_found(
                            old(self)@,
                            user_row(
                                user_id,
                                tg_user_id,
                                names.0,
                                names.1,
                                names.2,
                                self@.users.last().created_at,
                            ),
                        );
                    }
                    self.user_by_external(tg_user_id)
                };
                Ok(Registration { user_id, added })
            },
        }
    }

    /// How many entries the store holds, of all users together.
    pub fn entry_count(&self) -> (n: usize)
        ensures
            n == self@.entries.len(),
    {
        self.entries.len()
    }

    /// A copy of the entry that was appended last, whichever user it
    /// belongs to.
    pub fn latest_entry(&self) -> (latest: Option<Entry>)
        ensures
            match latest {
                Some(e) => self@.entries.len() > 0 && e@ == self@.entries.last(),
                None => self@.entries.len() == 0,
            },
    {
        let n: usize = self.entries.len();
        if n == 0 {
            None
        } else {
            Some(copy_entry(&self.entries[n - 1]))
        }
    }

    /// The current balance of `user_id`: the signed sum of all the user's
    /// entries, zero for a user without entries.
    pub fn total_cents(&self, user_id: u128) -> (total: i64)
        requires
            wf(self@),
        ensures
            total == balance(self@.entries, user_id),
    {
        let ghost rows = self@.entries;
        let mut sum: i128 = 0;
        let mut i: usize = 0;
        while i < self.entries.len()
            invariant
                i <= self.entries.len(),
                rows == entry_views(self.entries@),
                sum == balance(rows.take(i as int), user_id),
                -(i as int) * 0x8000_0000_0000_0000 <= sum <= (i as int) * 0x8000_0000_0000_0000,
            decreases self.entries.len() - i,
        {
            proof {
                assert(rows.take(i + 1).drop_last() =~= rows.take(i as int));
                assert(rows.take(i + 1).last() == self.entries@[i as int]@);
            }
            if self.entries[i].user_id == user_id {
                sum = sum + self.entries[i].amount_cents as i128;
            }
            i += 1;
        }
        assert(rows.take(i as int) =~= rows);
        sum as i64
    }

    /// The history total of `user_id`: the sum of the magnitudes of the
    /// user's archive entries.
    pub fn history_total_cents(&self, user_id: u128) -> (total: i64)
        requires
            wf(self@),
        ensures
            total == history(self@.entries, user_id),
    {
        let ghost rows = self@.entries;
        let mut sum: i128 = 0;
        let mut i: usize = 0;
        while i < self.entries.len()
            invariant
                i <= self.entries.len(),
                rows == entry_views(self.entries@),
                sum == history(rows.take(i as int), user_id),
                0 <= sum <= (i as int) * 0x8000_0000_0000_0000,
            decreases self.entries.len() - i,
        {
            proof {
                assert(rows.take(i + 1).drop_last() =~= rows.take(i as int));
                assert(rows.take(i + 1).last() == self.entries@[i as int]@);
            }
            let e = &self.entries[i];
            if e.user_id == user_id && e.kind == EntryKind::Archive {
                let amount: i128 = e.amount_cents as i128;
                sum = sum + (if amount < 0 {
                    -amount
                } else {
                    amount
                });
            }
            i += 1;
        }
        assert(rows.take(i as int) =~= rows);
        sum as i64
    }

    /// Everything `user_id` ever put in, the balance and the history total
    /// together, unless the sum leaves the 64-bit range.
    pub fn grand_total_cents(&self, user_id: u128) -> (total: Option<i64>)
        requires
            wf(self@),
        ensures
            total.is_some() == fits_i64(grand_total(self@.entries, user_id)),
            total matches Some(t) ==> t == grand_total(self@.entries, user_id),
    {
        let sum: i128 = self.total_cents(user_id) as i128 + self.history_total_cents(
            user_id,
        ) as i128;
        if sum < i64::MIN as i128 || sum > i64::MAX as i128 {
            None
        } else {
            Some(sum as i64)
        }
    }

    /// The `limit` most recent entries of `user_id`, most recent first: a
    /// copy of what the store holds now. Nothing where `limit` is not
    /// positive.
    pub fn last_entries(&self, user_id: u128, limit: i64) -> (out: Vec<Entry>)
        ensures
            entry_views(out@) == recent(self@.entries, user_id, limit as int),
            out@.len() == recent(self@.entries, user_id, limit as int).len(),
    {
        let mut out: Vec<Entry> = Vec::new();
        assert(entry_views(out@) =~= Seq::<EntryView>::empty());
        if limit <= 0 {
            return out;
        }
        let most: u64 = limit as u64;
        let ghost rows = self@.entries;
        let mut i: usize = self.entries.len();
        assert(rows.take(i as int) =~= rows);
        while i > 0 && (out.len() as u64) < most
            invariant
                i <= self.entries.len(),
                rows == entry_views(self.entries@),
                most == limit,
                out.len() <= most,
                newest_first(rows, user_id) =~= entry_views(out@) + newest_first(
                    rows.take(i as int),
                    user_id,
                ),
            decreases i,
        {
            i -= 1;
            proof {
                assert(rows.take(i + 1).drop_last() =~= rows.take(i as int));
                assert(rows.take(i + 1).last() == self.entries@[i as int]@);
            }
            if self.entries[i].user_id == user_id {
                let ghost before = entry_views(out@);
                let copy = copy_entry(&self.entries[i]);
                out.push(copy);
                assert(entry_views(out@) =~= before.push(copy@));
            }
        }
        proof {
            let all = newest_first(rows, user_id);
            if out.len() < most {
                assert(rows.take(0) =~= Seq::<EntryView>::empty());
                assert(all =~= entry_views(out@));
            } else if limit < all.len() {
                assert(all.take(limit as int) =~= entry_views(out@));
            } else {
                assert(all =~= entry_views(out@));
            }
        }
        out
    }

    /// The number for the next entry, unless the numbers are used up.
    fn next_id(&self) -> (id: Option<i64>)
        ensures
            id.is_some() == (next_entry_id(self@.entries) <= i64::MAX),
            id matches Some(v) ==> v == next_entry_id(self@.entries),
    {
        let n: usize = self.entries.len();
        if n == 0 {
            Some(1)
        } else {
            let last: i64 = self.entries[n - 1].id;
            assert(self@.entries.last() == self.entries@[n - 1]@);
            if last == i64::MAX {
                None
            } else {
                Some(last + 1)
            }
        }
    }

    /// Appends an entry of any amount, in range or not, after the checks of
    /// `add_entry_result`.
    fn append(
        &mut self,
        user_id: u128,
        amount: i128,
        kind: EntryKind,
        reason: Option<String>,
        now: String,
    ) -> (r: Result<(), DbError>)
        requires
            wf(old(self)@),
        ensures
            wf(final(self)@),
            r == add_entry_result(old(self)@, user_id, amount as int, kind),
            final(self)@ == add_entry_state(
                old(self)@,
                user_id,
                amount as int,
                kind,
                opt_text(reason),
                now@,
            ),
    {
        let valid: bool = match kind {
            EntryKind::Save => amount > 0,
            EntryKind::Adjust => amount != 0,
            EntryKind::Archive => true,
        };
        if !valid {
            return Err(DbError::InvalidEntry);
        }
        if !self.has_user(user_id) {
            return Err(DbError::UnknownUser);
        }
        let id: i64 = match self.next_id() {
            Some(id) => id,
            None => {
                return Err(DbError::StoreFull);
            },
        };
        if amount < i64::MIN as i128 || amount > i64::MAX as i128 {
            return Err(DbError::Overflow);
        }
        let total: i128 = self.total_cents(user_id) as i128 + amount;
        if total < i64::MIN as i128 || total > i64::MAX as i128 {
            return Err(DbError::Overflow);
        }
        if kind == EntryKind::Archive {
            let size: i128 = if amount < 0 {
                -amount
            } else {
                amount
            };
            let moved: i128 = self.history_total_cents(user_id) as i128 + size;
            if moved > i64::MAX as i128 {
                proof {
                    lemma_history_nonnegative(self@.entries, user_id);
                }
                return Err(DbError::Overflow);
            }
            proof {
                lemma_history_nonnegative(self@.entries, user_id);
            }
        }
        let entry = Entry { id, user_id, amount_cents: amount as i64, kind, reason, created_at: now };
        proof {
            lemma_add_entry_wf(self@, user_id, amount as int, kind, opt_text(reason), now@);
            assert(entry@ == new_entry(self@, user_id, amount as int, kind, opt_text(reason), now@));
            assert(entry_views(self.entries@.push(entry)) =~= self@.entries.push(entry@));
        }
        self.entries.push(entry);
        Ok(())
    }

    /// Appends one entry for `user_id`, stamped `now`. A `Save` must be
    /// positive and an `Adjust` must not be zero; the user must be
    /// registered; the user's balance must stay within 64 bits.
    pub fn add_entry_at(
        &mut self,
        user_id: u128,
        amount_cents: i64,
        kind: EntryKind,
        reason: Option<String>,
        now: String,
    ) -> (r: Result<(), DbError>)
        requires
            wf(old(self)@),
        ensures
            wf(final(self)@),
            r == add_entry_result(old(self)@, user_id, amount_cents as int, kind),
            final(self)@ == add_entry_state(
                old(self)@,
                user_id,
                amount_cents as int,
                kind,
                opt_text(reason),
                now@,
            ),
    {
        self.append(user_id, amount_cents as i128, kind, reason, now)
    }

    /// Appends one entry for `user_id`, stamped with the current time. A
    /// `Save` must be positive and an `Adjust` must not be zero; the user
    /// must be registered; the user's balance must stay within 64 bits. An
    /// accepted entry moves the user's balance by exactly its amount; a
    /// refused one changes nothing.
    pub fn add_entry(
        &mut self,
        user_id: u128,
        amount_cents: i64,
        kind: EntryKind,
        reason: Option<String>,
    ) -> (r: Result<(), DbError>)
        requires
            wf(old(self)@),
        ensures
            wf(final(self)@),
            r == add_entry_result(old(self)@, user_id, amount_cents as int, kind),
            !valid_entry(amount_cents as int, kind) ==> r == Err::<(), DbError>(
                DbError::InvalidEntry,
            ),
            r is Err ==> final(self)@ == old(self)@,
            r is Ok ==> final(self)@ == add_entry_state(
                old(self)@,
                user_id,
                amount_cents as int,
                kind,
                opt_text(reason),
                final(self)@.entries.last().created_at,
            ),
            r is Ok ==> sums_moved(
                old(self)@.entries,
                final(self)@.entries,
                user_id,
                amount_cents as int,
                kind,
            ),
            r is Ok ==> is_row_stamp(final(self)@.entries.last().created_at),
    {
        let now: String = timestamp();
        proof {
            if add_entry_result(old(self)@, user_id, amount_cents as int, kind) is Ok {
                lemma_add_entry_sums(
                    old(self)@,
                    user_id,
                    amount_cents as int,
                    kind,
                    opt_text(reason),
                    now@,
                );
            }
        }
        self.add_entry_at(user_id, amount_cents, kind, reason, now)
    }

    /// Moves the whole balance of `user_id` into history: appends one
    /// `Archive` entry, stamped `now`, of the negated balance, and returns
    /// the magnitude moved. A balance of zero is reported and nothing is
    /// written.
    pub fn archive_user_entries_at(&mut self, user_id: u128, now: String) -> (r: Result<
        i64,
        DbError,
    >)
        requires
            wf(old(self)@),
        ensures
            wf(final(self)@),
            match archive_result(old(self)@, user_id) {
                Ok(moved) => r == Ok::<i64, DbError>(moved as i64) && 0 < moved <= i64::MAX,
                Err(e) => r == Err::<i64, DbError>(e),
            },
            final(self)@ == archive_state(old(self)@, user_id, now@),
    {
        let current: i64 = self.total_cents(user_id);
        if current == 0 {
            return Err(DbError::NothingToArchive);
        }
        let debit: i128 = -(current as i128);
        match self.append(user_id, debit, EntryKind::Archive, None, now) {
            Err(e) => Err(e),
            Ok(_) => Ok(
                if debit < 0 {
                    (-debit) as i64
                } else {
                    debit as i64
                },
            ),
        }
    }

    /// Moves the whole balance of `user_id` into history: appends one
    /// `Archive` entry, stamped with the current time, of the negated
    /// balance, and returns the magnitude moved. Afterwards the balance is
    /// zero and the history total has grown by what was moved. A balance
    /// of zero is reported and nothing is written.
    pub fn archive_user_entries(&mut self, user_id: u128) -> (r: Result<i64, DbError>)
        requires
            wf(old(self)@),
        ensures
            wf(final(self)@),
            match archive_result(old(self)@, user_id) {
                Ok(moved) => r == Ok::<i64, DbError>(moved as i64) && 0 < moved <= i64::MAX,
                Err(e) => r == Err::<i64, DbError>(e),
            },
            balance(old(self)@.entries, user_id) == 0 ==> r == Err::<i64, DbError>(
                DbError::NothingToArchive,
            ),
            r is Err ==> final(self)@ == old(self)@,
            r is Ok ==> final(self)@ == archive_state(
                old(self)@,
                user_id,
                final(self)@.entries.last().created_at,
            ),
            r matches Ok(moved) ==> balance(final(self)@.entries, user_id) == 0 && history(
                final(self)@.entries,
                user_id,
            ) == history(old(self)@.entries, user_id) + moved,
            r is Ok ==> is_row_stamp(final(self)@.entries.last().created_at),
    {
        let now: String = timestamp();
        proof {
            let b = balance(old(self)@.entries, user_id);
            if archive_result(old(self)@, user_id) is Ok {
                lemma_add_entry_sums(old(self)@, user_id, -b, EntryKind::Archive, None, now@);
            }
        }
        self.archive_user_entries_at(user_id, now)
    }
}

/// The scheme that marks a database URL as naming a SQLite database.
pub open spec fn sqlite_scheme() -> Seq<char> {
    seq!['s', 'q', 'l', 'i', 't', 'e', ':']
}

/// The path that a SQLite database URL names: what follows `sqlite://`, or
/// else what follows `sqlite:`; nothing for any other URL.
pub open spec fn sqlite_path(url: Seq<char>) -> Option<Seq<char>> {
    if !sqlite_scheme().is_prefix_of(url) {
        None
    } else if (sqlite_scheme() + seq!['/', '/']).is_prefix_of(url) {
        Some(url.skip(9))
    } else {
        Some(url.skip(7))
    }
}

/// The path part of a SQLite database URL, in either of the forms
/// `sqlite:PATH` and `sqlite://PATH`.
pub fn sqlite_path_from_url(url: &str) -> (path: Option<String>)
    ensures
        opt_text(path) == sqlite_path(url@),
{
    let chars = chars_of(url);
    let n = chars.len();
    if n < 7 || chars[0] != 's' || chars[1] != 'q' || chars[2] != 'l' || chars[3] != 'i'
        || chars[4] != 't' || chars[5] != 'e' || chars[6] != ':' {
        assert(!sqlite_scheme().is_prefix_of(url@)) by {
            if sqlite_scheme().is_prefix_of(url@) {
                assert(forall|k: int| 0 <= k < 7 ==> url@[k] == sqlite_scheme()[k]);
            }
        }
        return None;
    }
    assert(sqlite_scheme().is_prefix_of(url@)) by {
        assert(url@.subrange(0, 7) =~= sqlite_scheme());
    }
    let start: usize = if n >= 9 && chars[7] == '/' && chars[8] == '/' {
        assert((sqlite_scheme() + seq!['/', '/']).is_prefix_of(url@)) by {
            assert(url@.subrange(0, 9) =~= sqlite_scheme() + seq!['/', '/']);
        }
        9
    } else {
        assert(!(sqlite_scheme() + seq!['/', '/']).is_prefix_of(url@)) by {
            let p = sqlite_scheme() + seq!['/', '/'];
            if p.is_prefix_of(url@) {
                assert(url@[7] == p[7]);
                assert(url@[8] == p[8]);
            }
        }
        7
    };
    assert(url@.subrange(start as int, n as int) =~= url@.skip(start as int));
    Some(url.substring_char(start, n).to_owned())
}

} // verus!

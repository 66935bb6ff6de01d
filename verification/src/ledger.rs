//! The mathematical model of the store: users and entries as sequences, the
//! sums derived from the entries, and what each operation does to them.

use vstd::prelude::*;
use crate::text::same_text;

verus! {

/// What an entry records.
#[derive(Debug, Clone, Copy, PartialEq, Eq, Structural)]
pub enum EntryKind {
    /// Money put aside; always positive.
    Save,
    /// A correction of either sign; never zero.
    Adjust,
    /// The balance moved into history.
    Archive,
}

/// The name that a kind is written down by.
pub open spec fn kind_text(kind: EntryKind) -> Seq<char> {
    match kind {
        EntryKind::Save => "save"@,
        EntryKind::Adjust => "adjust"@,
        EntryKind::Archive => "archive"@,
    }
}

/// No two kinds share a name, so a name stands for one kind at most.
pub proof fn lemma_kind_names_differ(a: EntryKind, b: EntryKind)
    requires
        kind_text(a) == kind_text(b),
    ensures
        a == b,
{
    reveal_strlit("save");
    reveal_strlit("adjust");
    reveal_strlit("archive");
    assert("save"@.len() == 4);
    assert("adjust"@.len() == 6);
    assert("archive"@.len() == 7);
}

/// The name that `kind` is written down by.
pub fn kind_name(kind: EntryKind) -> (name: &'static str)
    ensures
        name@ == kind_text(kind),
{
    match kind {
        EntryKind::Save => "save",
        EntryKind::Adjust => "adjust",
        EntryKind::Archive => "archive",
    }
}

/// The kind that is written down by `name`, if there is one.
pub fn kind_from_name(name: &str) -> (kind: Option<EntryKind>)
    ensures
        forall|k: EntryKind| (kind == Some(k)) <==> name@ == #[trigger] kind_text(k),
{
    let kind: Option<EntryKind> = if same_text(name, "save") {
        Some(EntryKind::Save)
    } else if same_text(name, "adjust") {
        Some(EntryKind::Adjust)
    } else if same_text(name, "archive") {
        Some(EntryKind::Archive)
    } else {
        None
    };
    proof {
        assert forall|k: EntryKind| (kind == Some(k)) <==> name@ == #[trigger] kind_text(k) by {
            if name@ == kind_text(k) && kind.is_some() {
                lemma_kind_names_differ(kind.unwrap(), k);
            }
        }
    }
    kind
}

/// Why the store refused an operation. On every error the store is left as
/// it was.
#[derive(Debug, Clone, Copy, PartialEq, Eq, Structural)]
pub enum DbError {
    /// A `Save` that is not positive, or an `Adjust` of zero.
    InvalidEntry,
    /// The balance to archive is zero.
    NothingToArchive,
    /// The entry names a user that was never registered.
    UnknownUser,
    /// The identifier offered for a new user belongs to another user.
    DuplicateId,
    /// A balance or history total would leave the 64-bit range.
    Overflow,
    /// The sequence of entry numbers is used up.
    StoreFull,
}

/// A registered user, as a value.
pub struct UserView {
    pub id: u128,
    pub tg_user_id: i64,
    pub tg_username: Option<Seq<char>>,
    pub first_name: Seq<char>,
    pub last_name: Option<Seq<char>>,
    pub created_at: Seq<char>,
}

/// A ledger entry, as a value.
pub struct EntryView {
    pub id: i64,
    pub user_id: u128,
    pub amount_cents: i64,
    pub kind: EntryKind,
    pub reason: Option<Seq<char>>,
    pub created_at: Seq<char>,
}

/// The store, as a value: the users in the order they registered and the
/// entries in the order they were appended.
pub struct DbView {
    pub users: Seq<UserView>,
    pub entries: Seq<EntryView>,
}

/// Whether `v` can be held in 64 bits with a sign.
pub open spec fn fits_i64(v: int) -> bool {
    i64::MIN <= v <= i64::MAX
}

/// The size of `v` without its sign.
pub open spec fn magnitude(v: int) -> int {
    if v < 0 {
        -v
    } else {
        v
    }
}

/// What entry `e` adds to the balance of `user`.
pub open spec fn signed_part(e: EntryView, user: u128) -> int {
    if e.user_id == user {
        e.amount_cents as int
    } else {
        0
    }
}

/// What entry `e` adds to the history total of `user`.
pub open spec fn archived_part(e: EntryView, user: u128) -> int {
    if e.user_id == user && e.kind == EntryKind::Archive {
        magnitude(e.amount_cents as int)
    } else {
        0
    }
}

/// The current balance of `user`: the signed sum of the user's entries.
pub open spec fn balance(entries: Seq<EntryView>, user: u128) -> int
    decreases entries.len(),
{
    if entries.len() == 0 {
        0
    } else {
        balance(entries.drop_last(), user) + signed_part(entries.last(), user)
    }
}

/// The history total of `user`: the sum of the magnitudes of the user's
/// archive entries.
pub open spec fn history(entries: Seq<EntryView>, user: u128) -> int
    decreases entries.len(),
{
    if entries.len() == 0 {
        0
    } else {
        history(entries.drop_last(), user) + archived_part(entries.last(), user)
    }
}

/// Everything the user ever put in: what is current and what was archived.
pub open spec fn grand_total(entries: Seq<EntryView>, user: u128) -> int {
    balance(entries, user) + history(entries, user)
}

/// The entries of `user`, most recent first.
pub open spec fn newest_first(entries: Seq<EntryView>, user: u128) -> Seq<EntryView>
    decreases entries.len(),
{
    if entries.len() == 0 {
        Seq::empty()
    } else if entries.last().user_id == user {
        seq![entries.last()] + newest_first(entries.drop_last(), user)
    } else {
        newest_first(entries.drop_last(), user)
    }
}

/// The `limit` most recent entries of `user`, most recent first; all of
/// them where the user has fewer, none where `limit` is not positive.
pub open spec fn recent(entries: Seq<EntryView>, user: u128, limit: int) -> Seq<EntryView> {
    let all = newest_first(entries, user);
    if limit <= 0 {
        Seq::empty()
    } else if limit < all.len() {
        all.take(limit)
    } else {
        all
    }
}

/// Whether a user with identifier `id` is registered.
pub open spec fn registered(users: Seq<UserView>, id: u128) -> bool {
    exists|k: int| 0 <= k < users.len() && (#[trigger] users[k]).id == id
}

/// Whether a user with the external identity `external` is registered.
pub open spec fn known(users: Seq<UserView>, external: i64) -> bool {
    exists|k: int| 0 <= k < users.len() && (#[trigger] users[k]).tg_user_id == external
}

/// The row of the user with the external identity `external`.
pub open spec fn user_of(users: Seq<UserView>, external: i64) -> UserView {
    let k = choose|k: int| 0 <= k < users.len() && (#[trigger] users[k]).tg_user_id == external;
    users[k]
}

/// The identifier of the user with the external identity `external`.
pub open spec fn id_of(users: Seq<UserView>, external: i64) -> u128 {
    user_of(users, external).id
}

/// Whether `id` has the marks of a random (version 4) UUID: the version
/// digit 4 and the two variant bits `10`.
pub open spec fn is_random_uuid(id: u128) -> bool {
    id & 0xF000_C000_0000_0000_0000u128 == 0x4000_8000_0000_0000_0000u128
}

/// Whether some registered user has an identifier with the marks of a
/// random UUID. Only such an identifier can be drawn a second time.
pub open spec fn holds_random_id(users: Seq<UserView>) -> bool {
    exists|k: int| 0 <= k < users.len() && is_random_uuid((#[trigger] users[k]).id)
}

/// The invariant of the store: no two users share an identifier or an
/// external identity, entry numbers grow strictly, every entry belongs to a
/// registered user, and every balance and history total fits 64 bits.
pub open spec fn wf(s: DbView) -> bool {
    &&& forall|i: int, j: int|
        0 <= i < j < s.users.len() ==> (#[trigger] s.users[i]).id != (#[trigger] s.users[j]).id
            && s.users[i].tg_user_id != s.users[j].tg_user_id
    &&& forall|i: int, j: int|
        0 <= i < j < s.entries.len() ==> (#[trigger] s.entries[i]).id < (
        #[trigger] s.entries[j]).id
    &&& forall|i: int|
        0 <= i < s.entries.len() ==> registered(s.users, (#[trigger] s.entries[i]).user_id)
    &&& forall|u: u128| fits_i64(#[trigger] balance(s.entries, u))
    &&& forall|u: u128| fits_i64(#[trigger] history(s.entries, u))
}

/// The store with nothing in it.
pub open spec fn empty_db() -> DbView {
    DbView { users: Seq::empty(), entries: Seq::empty() }
}

// ---------------------------------------------------------------------
// Registering users
// ---------------------------------------------------------------------

/// What registering the external identity `external` returns when
/// `candidate` is the identifier offered for a new user: the identifier the
/// identity already has, or else the candidate unless it is taken.
pub open spec fn ensure_user_result(s: DbView, external: i64, candidate: u128) -> Result<
    u128,
    DbError,
> {
    if known(s.users, external) {
        Ok(id_of(s.users, external))
    } else if registered(s.users, candidate) {
        Err(DbError::DuplicateId)
    } else {
        Ok(candidate)
    }
}

/// The store after registering `user`: unchanged where the external
/// identity is known already or the identifier is taken, else with `user`
/// added.
pub open spec fn ensure_user_state(s: DbView, user: UserView) -> DbView {
    if known(s.users, user.tg_user_id) || registered(s.users, user.id) {
        s
    } else {
        DbView { users: s.users.push(user), entries: s.entries }
    }
}

// ---------------------------------------------------------------------
// Appending entries
// ---------------------------------------------------------------------

/// Whether an amount is acceptable for an entry of the given kind.
pub open spec fn valid_entry(amount: int, kind: EntryKind) -> bool {
    match kind {
        EntryKind::Save => amount > 0,
        EntryKind::Adjust => amount != 0,
        EntryKind::Archive => true,
    }
}

/// The number that the next entry gets: one more than the last.
pub open spec fn next_entry_id(entries: Seq<EntryView>) -> int {
    if entries.len() == 0 {
        1
    } else {
        entries.last().id + 1
    }
}

/// Whether appending `amount` of `kind` for `user` keeps the user's sums in
/// range.
pub open spec fn sums_stay_in_range(
    entries: Seq<EntryView>,
    user: u128,
    amount: int,
    kind: EntryKind,
) -> bool {
    &&& fits_i64(amount)
    &&& fits_i64(balance(entries, user) + amount)
    &&& kind == EntryKind::Archive ==> fits_i64(history(entries, user) + magnitude(amount))
}

/// Whether an entry is accepted, and if not, why. The checks come in this
/// order: the amount against the kind, the user, the entry number, the
/// range of the sums.
pub open spec fn add_entry_result(s: DbView, user: u128, amount: int, kind: EntryKind) -> Result<
    (),
    DbError,
> {
    if !valid_entry(amount, kind) {
        Err(DbError::InvalidEntry)
    } else if !registered(s.users, user) {
        Err(DbError::UnknownUser)
    } else if next_entry_id(s.entries) > i64::MAX {
        Err(DbError::StoreFull)
    } else if !sums_stay_in_range(s.entries, user, amount, kind) {
        Err(DbError::Overflow)
    } else {
        Ok(())
    }
}

/// The entry that an accepted append writes.
pub open spec fn new_entry(
    s: DbView,
    user: u128,
    amount: int,
    kind: EntryKind,
    reason: Option<Seq<char>>,
    now: Seq<char>,
) -> EntryView {
    EntryView {
        id: next_entry_id(s.entries) as i64,
        user_id: user,
        amount_cents: amount as i64,
        kind,
        reason,
        created_at: now,
    }
}

/// The store after an append: with the new entry at the end where it is
/// accepted, unchanged where it is not.
pub open spec fn add_entry_state(
    s: DbView,
    user: u128,
    amount: int,
    kind: EntryKind,
    reason: Option<Seq<char>>,
    now: Seq<char>,
) -> DbView {
    if add_entry_result(s, user, amount, kind) is Ok {
        DbView {
            users: s.users,
            entries: s.entries.push(new_entry(s, user, amount, kind, reason, now)),
        }
    } else {
        s
    }
}

/// How the sums after an append of `amount` for `user` stand to the sums
/// before it: the user's balance moves by the amount, the user's history
/// total grows by its magnitude if the entry is an `Archive`, and no other
/// user's sums change.
pub open spec fn sums_moved(
    before: Seq<EntryView>,
    after: Seq<EntryView>,
    user: u128,
    amount: int,
    kind: EntryKind,
) -> bool {
    &&& balance(after, user) == balance(before, user) + amount
    &&& history(after, user) == history(before, user) + (if kind == EntryKind::Archive {
        magnitude(amount)
    } else {
        0
    })
    &&& forall|other: u128|
        other != user ==> #[trigger] balance(after, other) == balance(before, other)
    &&& forall|other: u128|
        other != user ==> #[trigger] history(after, other) == history(before, other)
}

// ---------------------------------------------------------------------
// Archiving
// ---------------------------------------------------------------------

/// What archiving the balance of `user` returns: the amount moved, which is
/// the magnitude of the balance, unless the balance is zero or the entry
/// that clears it is refused.
pub open spec fn archive_result(s: DbView, user: u128) -> Result<int, DbError> {
    let b = balance(s.entries, user);
    if b == 0 {
        Err(DbError::NothingToArchive)
    } else {
        match add_entry_result(s, user, -b, EntryKind::Archive) {
            Ok(_) => Ok(magnitude(b)),
            Err(e) => Err(e),
        }
    }
}

/// The store after archiving the balance of `user`: with one `Archive`
/// entry of the negated balance appended where that succeeds, unchanged
/// where it does not.
pub open spec fn archive_state(s: DbView, user: u128, now: Seq<char>) -> DbView {
    let b = balance(s.entries, user);
    if b == 0 {
        s
    } else {
        add_entry_state(s, user, -b, EntryKind::Archive, None, now)
    }
}

// ---------------------------------------------------------------------
// Facts about the sums
// ---------------------------------------------------------------------

/// Appending an entry adds its signed part to the balance.
pub proof fn lemma_balance_push(entries: Seq<EntryView>, e: EntryView, user: u128)
    ensures
        balance(entries.push(e), user) == balance(entries, user) + signed_part(e, user),
{
    assert(entries.push(e).drop_last() =~= entries);
}

/// Appending an entry adds its archived part to the history total.
pub proof fn lemma_history_push(entries: Seq<EntryView>, e: EntryView, user: u128)
    ensures
        history(entries.push(e), user) == history(entries, user) + archived_part(e, user),
{
    assert(entries.push(e).drop_last() =~= entries);
}

/// The history total is never negative.
pub proof fn lemma_history_nonnegative(entries: Seq<EntryView>, user: u128)
    ensures
        history(entries, user) >= 0,
    decreases entries.len(),
{
    if entries.len() > 0 {
        lemma_history_nonnegative(entries.drop_last(), user);
    }
}

/// A user without entries has a balance and a history total of zero.
pub proof fn lemma_no_entries_no_sums(entries: Seq<EntryView>, user: u128)
    requires
        forall|i: int| 0 <= i < entries.len() ==> (#[trigger] entries[i]).user_id != user,
    ensures
        balance(entries, user) == 0,
        history(entries, user) == 0,
        newest_first(entries, user) =~= Seq::<EntryView>::empty(),
    decreases entries.len(),
{
    if entries.len() > 0 {
        let rest = entries.drop_last();
        assert forall|i: int| 0 <= i < rest.len() implies (#[trigger] rest[i]).user_id
            != user by {
            assert(rest[i] == entries[i]);
        }
        lemma_no_entries_no_sums(rest, user);
    }
}

// ---------------------------------------------------------------------
// The invariant is kept
// ---------------------------------------------------------------------

/// Registering a user keeps the invariant.
pub proof fn lemma_ensure_user_wf(s: DbView, user: UserView)
    requires
        wf(s),
    ensures
        wf(ensure_user_state(s, user)),
{
    let t = ensure_user_state(s, user);
    if !(known(s.users, user.tg_user_id) || registered(s.users, user.id)) {
        assert forall|i: int, j: int| 0 <= i < j < t.users.len() implies (#[trigger] t.users[i]).id
            != (#[trigger] t.users[j]).id && t.users[i].tg_user_id != t.users[j].tg_user_id by {
            if j == s.users.len() {
                assert(t.users[i] == s.users[i]);
            } else {
                assert(t.users[i] == s.users[i]);
                assert(t.users[j] == s.users[j]);
            }
        }
        assert forall|i: int| 0 <= i < t.entries.len() implies registered(
            t.users,
            (#[trigger] t.entries[i]).user_id,
        ) by {
            assert(registered(s.users, s.entries[i].user_id));
            let k = choose|k: int|
                0 <= k < s.users.len() && (#[trigger] s.users[k]).id == s.entries[i].user_id;
            assert(t.users[k] == s.users[k]);
        }
    }
}

/// After a registration that succeeds, the external identity is known and
/// has the identifier that was returned; a user who was added has the row
/// that was offered.
pub proof fn lemma_ensure_user_found(s: DbView, user: UserView)
    requires
        wf(s),
    ensures
        ensure_user_result(s, user.tg_user_id, user.id) matches Ok(id) ==> known(
            ensure_user_state(s, user).users,
            user.tg_user_id,
        ) && id_of(ensure_user_state(s, user).users, user.tg_user_id) == id,
        !known(s.users, user.tg_user_id) && !registered(s.users, user.id) ==> user_of(
            ensure_user_state(s, user).users,
            user.tg_user_id,
        ) == user,
{
    let t = ensure_user_state(s, user);
    lemma_ensure_user_wf(s, user);
    if ensure_user_result(s, user.tg_user_id, user.id) is Ok && !known(s.users, user.tg_user_id) {
        let n = s.users.len() as int;
        assert(t.users[n] == user);
        assert(known(t.users, user.tg_user_id));
        let k = choose|k: int|
            0 <= k < t.users.len() && (#[trigger] t.users[k]).tg_user_id == user.tg_user_id;
        if k < n {
            assert(t.users[k].tg_user_id != t.users[n].tg_user_id);
        }
    }
}

/// Appending an entry keeps the invariant.
pub proof fn lemma_add_entry_wf(
    s: DbView,
    user: u128,
    amount: int,
    kind: EntryKind,
    reason: Option<Seq<char>>,
    now: Seq<char>,
)
    requires
        wf(s),
    ensures
        wf(add_entry_state(s, user, amount, kind, reason, now)),
{
    let t = add_entry_state(s, user, amount, kind, reason, now);
    if add_entry_result(s, user, amount, kind) is Ok {
        let e = new_entry(s, user, amount, kind, reason, now);
        let n = s.entries.len() as int;
        assert forall|i: int, j: int| 0 <= i < j < t.entries.len() implies (
        #[trigger] t.entries[i]).id < (#[trigger] t.entries[j]).id by {
            assert(t.entries[i] == s.entries[i]);
            if j == n {
                if i < n - 1 {
                    assert(s.entries[i].id < s.entries[n - 1].id);
                }
            } else {
                assert(t.entries[j] == s.entries[j]);
            }
        }
        assert forall|i: int| 0 <= i < t.entries.len() implies registered(
            t.users,
            (#[trigger] t.entries[i]).user_id,
        ) by {
            if i < n {
                assert(t.entries[i] == s.entries[i]);
            }
        }
        assert forall|u: u128| fits_i64(#[trigger] balance(t.entries, u)) by {
            lemma_balance_push(s.entries, e, u);
            assert(fits_i64(balance(s.entries, u)));
        }
        assert forall|u: u128| fits_i64(#[trigger] history(t.entries, u)) by {
            lemma_history_push(s.entries, e, u);
            assert(fits_i64(history(s.entries, u)));
        }
    }
}

/// An accepted append moves the sums of its user by its amount and leaves
/// the sums of every other user alone.
pub proof fn lemma_add_entry_sums(
    s: DbView,
    user: u128,
    amount: int,
    kind: EntryKind,
    reason: Option<Seq<char>>,
    now: Seq<char>,
)
    requires
        add_entry_result(s, user, amount, kind) is Ok,
    ensures
        sums_moved(
            s.entries,
            add_entry_state(s, user, amount, kind, reason, now).entries,
            user,
            amount,
            kind,
        ),
{
    let e = new_entry(s, user, amount, kind, reason, now);
    let after = add_entry_state(s, user, amount, kind, reason, now).entries;
    lemma_balance_push(s.entries, e, user);
    lemma_history_push(s.entries, e, user);
    assert forall|other: u128| other != user implies #[trigger] balance(after, other) == balance(
        s.entries,
        other,
    ) by {
        lemma_balance_push(s.entries, e, other);
    }
    assert forall|other: u128| other != user implies #[trigger] history(after, other) == history(
        s.entries,
        other,
    ) by {
        lemma_history_push(s.entries, e, other);
    }
}

/// A user with a balance or a history total other than zero has an entry,
/// and so is registered.
pub proof fn lemma_sums_need_entries(s: DbView, user: u128)
    requires
        wf(s),
        balance(s.entries, user) != 0 || history(s.entries, user) != 0,
    ensures
        registered(s.users, user),
{
    if forall|i: int| 0 <= i < s.entries.len() ==> (#[trigger] s.entries[i]).user_id != user {
        lemma_no_entries_no_sums(s.entries, user);
    } else {
        let i = choose|i: int| 0 <= i < s.entries.len() && (#[trigger] s.entries[i]).user_id == user;
        assert(registered(s.users, s.entries[i].user_id));
    }
}

} // verus!

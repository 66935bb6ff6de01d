//! What holds of the store across operations, proved over the model.

use vstd::prelude::*;
use crate::ledger::{
    add_entry_result, add_entry_state, archive_result, archive_state, archived_part, balance,
    ensure_user_result, ensure_user_state, grand_total, history, lemma_add_entry_sums,
    lemma_add_entry_wf, lemma_ensure_user_found, lemma_ensure_user_wf, lemma_sums_need_entries,
    magnitude, newest_first, recent, signed_part, wf, DbError, DbView, EntryKind, EntryView,
    UserView,
};

verus! {

/// One call that appends an entry.
pub struct Append {
    pub user: u128,
    pub amount: int,
    pub kind: EntryKind,
    pub reason: Option<Seq<char>>,
    pub now: Seq<char>,
}

/// The store after the calls in `calls`, made one after another.
pub open spec fn after_appends(s: DbView, calls: Seq<Append>) -> DbView
    decreases calls.len(),
{
    if calls.len() == 0 {
        s
    } else {
        let c = calls.last();
        add_entry_state(after_appends(s, calls.drop_last()), c.user, c.amount, c.kind, c.reason, c.now)
    }
}

/// The signed sum of the amounts that the calls in `calls` applied for
/// `user`: the amounts of the user's calls that were accepted.
pub open spec fn applied_sum(s: DbView, calls: Seq<Append>, user: u128) -> int
    decreases calls.len(),
{
    if calls.len() == 0 {
        0
    } else {
        let c = calls.last();
        let before = after_appends(s, calls.drop_last());
        applied_sum(s, calls.drop_last(), user) + (if c.user == user && add_entry_result(
            before,
            c.user,
            c.amount,
            c.kind,
        ) is Ok {
            c.amount
        } else {
            0
        })
    }
}

/// After any sequence of appends, for this user and for others, a user's
/// balance is what it was plus the exact signed sum of the amounts applied
/// for that user.
pub proof fn law_balance_is_sum_of_appends(s: DbView, calls: Seq<Append>, user: u128)
    requires
        wf(s),
    ensures
        wf(after_appends(s, calls)),
        balance(after_appends(s, calls).entries, user) == balance(s.entries, user) + applied_sum(
            s,
            calls,
            user,
        ),
    decreases calls.len(),
{
    if calls.len() > 0 {
        let c = calls.last();
        let before = after_appends(s, calls.drop_last());
        law_balance_is_sum_of_appends(s, calls.drop_last(), user);
        lemma_add_entry_wf(before, c.user, c.amount, c.kind, c.reason, c.now);
        if add_entry_result(before, c.user, c.amount, c.kind) is Ok {
            lemma_add_entry_sums(before, c.user, c.amount, c.kind, c.reason, c.now);
        }
    }
}

/// Taking one entry out of a list lowers each sum by that entry's part.
pub proof fn lemma_sums_remove(entries: Seq<EntryView>, i: int, user: u128)
    requires
        0 <= i < entries.len(),
    ensures
        balance(entries, user) == balance(entries.remove(i), user) + signed_part(entries[i], user),
        history(entries, user) == history(entries.remove(i), user) + archived_part(
            entries[i],
            user,
        ),
    decreases entries.len(),
{
    if i == entries.len() - 1 {
        assert(entries.remove(i) =~= entries.drop_last());
    } else {
        lemma_sums_remove(entries.drop_last(), i, user);
        assert(entries.remove(i).drop_last() =~= entries.drop_last().remove(i));
        assert(entries.remove(i).last() == entries.last());
    }
}

/// The balance and the history total depend on which entries were
/// committed, not on the order in which they were: two lists that hold the
/// same entries give the same sums.
pub proof fn law_sums_ignore_order(a: Seq<EntryView>, b: Seq<EntryView>, user: u128)
    requires
        a.to_multiset() == b.to_multiset(),
    ensures
        balance(a, user) == balance(b, user),
        history(a, user) == history(b, user),
    decreases a.len(),
{
    a.to_multiset_ensures();
    b.to_multiset_ensures();
    if a.len() > 0 {
        let x = a.last();
        let n = a.len() - 1;
        assert(a[n] == x);
        assert(a.contains(x));
        assert(a.to_multiset().count(x) > 0);
        assert(b.to_multiset().count(x) > 0);
        assert(b.contains(x));
        let j = choose|j: int| 0 <= j < b.len() && b[j] == x;
        assert(a.remove(n) =~= a.drop_last());
        assert(a.drop_last().to_multiset() == b.remove(j).to_multiset());
        law_sums_ignore_order(a.drop_last(), b.remove(j), user);
        lemma_sums_remove(b, j, user);
    }
}

/// Every operation keeps the invariant of the store, whether it is carried
/// out or refused.
pub proof fn law_invariant_is_kept(
    s: DbView,
    user: u128,
    amount: int,
    kind: EntryKind,
    reason: Option<Seq<char>>,
    now: Seq<char>,
    row: UserView,
)
    requires
        wf(s),
    ensures
        wf(add_entry_state(s, user, amount, kind, reason, now)),
        wf(archive_state(s, user, now)),
        wf(ensure_user_state(s, row)),
{
    lemma_add_entry_wf(s, user, amount, kind, reason, now);
    lemma_add_entry_wf(s, user, -balance(s.entries, user), EntryKind::Archive, None, now);
    lemma_ensure_user_wf(s, row);
}

/// The store only grows: after an append, an archive or a registration,
/// every user and every entry that was there is still there, unchanged and
/// in its place.
pub proof fn law_append_only(
    s: DbView,
    user: u128,
    amount: int,
    kind: EntryKind,
    reason: Option<Seq<char>>,
    now: Seq<char>,
    row: UserView,
)
    ensures
        s.entries.is_prefix_of(add_entry_state(s, user, amount, kind, reason, now).entries),
        add_entry_state(s, user, amount, kind, reason, now).users == s.users,
        s.entries.is_prefix_of(archive_state(s, user, now).entries),
        archive_state(s, user, now).users == s.users,
        s.users.is_prefix_of(ensure_user_state(s, row).users),
        ensure_user_state(s, row).entries == s.entries,
        add_entry_state(s, user, amount, kind, reason, now).entries.len() <= s.entries.len() + 1,
        archive_state(s, user, now).entries.len() <= s.entries.len() + 1,
        ensure_user_state(s, row).users.len() <= s.users.len() + 1,
{
}

/// An `Adjust` of zero and a `Save` that is not positive are refused in
/// every state of the store, and leave it unchanged.
pub proof fn law_invalid_entries_fail(
    s: DbView,
    user: u128,
    amount: int,
    kind: EntryKind,
    reason: Option<Seq<char>>,
    now: Seq<char>,
)
    requires
        (kind == EntryKind::Adjust && amount == 0) || (kind == EntryKind::Save && amount <= 0),
    ensures
        add_entry_result(s, user, amount, kind) == Err::<(), DbError>(DbError::InvalidEntry),
        add_entry_state(s, user, amount, kind, reason, now) == s,
{
}

/// An archive that succeeds on a positive balance moves exactly that
/// balance: the balance is zero afterwards, the history total has grown by
/// it, the grand total is what it was, no other user's sums have changed,
/// and a second archive right after it finds nothing to archive and
/// changes nothing.
pub proof fn law_archive_moves_balance(
    s: DbView,
    user: u128,
    now: Seq<char>,
    later: Seq<char>,
)
    requires
        wf(s),
        balance(s.entries, user) > 0,
        archive_result(s, user) is Ok,
    ensures
        archive_result(s, user) == Ok::<int, DbError>(balance(s.entries, user)),
        wf(archive_state(s, user, now)),
        balance(archive_state(s, user, now).entries, user) == 0,
        history(archive_state(s, user, now).entries, user) == history(s.entries, user) + balance(
            s.entries,
            user,
        ),
        grand_total(archive_state(s, user, now).entries, user) == grand_total(s.entries, user),
        forall|other: u128|
            other != user ==> #[trigger] balance(archive_state(s, user, now).entries, other)
                == balance(s.entries, other),
        forall|other: u128|
            other != user ==> #[trigger] history(archive_state(s, user, now).entries, other)
                == history(s.entries, other),
        archive_result(archive_state(s, user, now), user) == Err::<int, DbError>(
            DbError::NothingToArchive,
        ),
        archive_state(archive_state(s, user, now), user, later) == archive_state(s, user, now),
{
    let b = balance(s.entries, user);
    lemma_add_entry_wf(s, user, -b, EntryKind::Archive, None, now);
    lemma_add_entry_sums(s, user, -b, EntryKind::Archive, None, now);
}

/// Of two archive calls for one user that run one after the other on a
/// balance other than zero, whichever runs first, at most the first moves
/// anything: if it succeeds it moves the magnitude of the balance and the
/// second finds nothing to archive; the balance is never left on the other
/// side of zero.
pub proof fn law_archive_once(s: DbView, user: u128, first: Seq<char>, second: Seq<char>)
    requires
        wf(s),
        balance(s.entries, user) != 0,
    ensures
        ({
            let mid = archive_state(s, user, first);
            let end = archive_state(mid, user, second);
            match archive_result(s, user) {
                Ok(moved) => {
                    &&& moved == magnitude(balance(s.entries, user))
                    &&& balance(mid.entries, user) == 0
                    &&& archive_result(mid, user) == Err::<int, DbError>(
                        DbError::NothingToArchive,
                    )
                    &&& end == mid
                },
                Err(e) => {
                    &&& e != DbError::NothingToArchive
                    &&& mid == s
                    &&& archive_result(mid, user) == Err::<int, DbError>(e)
                    &&& end == s
                },
            }
        }),
{
    let b = balance(s.entries, user);
    if archive_result(s, user) is Ok {
        lemma_add_entry_sums(s, user, -b, EntryKind::Archive, None, first);
    }
}

/// An archive is refused for one of three reasons only: the balance is
/// zero, the entry numbers are used up, or a sum would leave the 64-bit
/// range. A balance other than zero belongs to a registered user, and the
/// entry that clears it is always valid.
pub proof fn law_archive_errors(s: DbView, user: u128)
    requires
        wf(s),
    ensures
        archive_result(s, user) matches Err(e) ==> e == DbError::NothingToArchive || e
            == DbError::StoreFull || e == DbError::Overflow,
        archive_result(s, user) == Err::<int, DbError>(DbError::NothingToArchive) <==> balance(
            s.entries,
            user,
        ) == 0,
{
    if balance(s.entries, user) != 0 {
        lemma_sums_need_entries(s, user);
    }
}

/// Archiving never changes what a user put in altogether, as long as the
/// balance archived is positive: it only moves it from the balance to the
/// history total.
pub proof fn law_archive_keeps_grand_total(s: DbView, user: u128, now: Seq<char>)
    requires
        wf(s),
        balance(s.entries, user) >= 0,
    ensures
        grand_total(archive_state(s, user, now).entries, user) == grand_total(s.entries, user),
{
    let b = balance(s.entries, user);
    if b != 0 && archive_result(s, user) is Ok {
        lemma_add_entry_sums(s, user, -b, EntryKind::Archive, None, now);
    }
}

/// Registering the same external identity twice gives the same identifier
/// both times, whatever identifier, names and time the second call offers,
/// and the second call changes nothing.
pub proof fn law_ensure_user_twice(s: DbView, user: UserView, again: UserView)
    requires
        wf(s),
        again.tg_user_id == user.tg_user_id,
        ensure_user_result(s, user.tg_user_id, user.id) is Ok,
    ensures
        ensure_user_result(ensure_user_state(s, user), again.tg_user_id, again.id)
            == ensure_user_result(s, user.tg_user_id, user.id),
        ensure_user_state(ensure_user_state(s, user), again) == ensure_user_state(s, user),
{
    lemma_ensure_user_found(s, user);
}

/// Whether the entry numbers grow strictly along the list.
pub open spec fn ids_increase(entries: Seq<EntryView>) -> bool {
    forall|i: int, j: int|
        0 <= i < j < entries.len() ==> (#[trigger] entries[i]).id < (#[trigger] entries[j]).id
}

/// Every entry of the newest-first list of a user is an entry of the
/// store that belongs to the user; and where entry numbers grow along the
/// store, they fall strictly along the list.
pub proof fn lemma_newest_first_descends(entries: Seq<EntryView>, user: u128)
    requires
        ids_increase(entries),
    ensures
        newest_first(entries, user).len() <= entries.len(),
        forall|k: int|
            0 <= k < newest_first(entries, user).len() ==> {
                &&& (#[trigger] newest_first(entries, user)[k]).user_id == user
                &&& entries.contains(newest_first(entries, user)[k])
                &&& newest_first(entries, user)[k].id <= entries.last().id
            },
        forall|k: int, m: int|
            0 <= k < m < newest_first(entries, user).len() ==> (#[trigger] newest_first(
                entries,
                user,
            )[k]).id > (#[trigger] newest_first(entries, user)[m]).id,
    decreases entries.len(),
{
    if entries.len() > 0 {
        let rest = entries.drop_last();
        let n = rest.len() as int;
        assert forall|a: int, b: int| 0 <= a < b < rest.len() implies (#[trigger] rest[a]).id < (
        #[trigger] rest[b]).id by {
            assert(rest[a] == entries[a] && rest[b] == entries[b]);
        }
        lemma_newest_first_descends(rest, user);
        let all = newest_first(entries, user);
        let tail = newest_first(rest, user);
        let shift: int = if entries.last().user_id == user {
            1
        } else {
            0
        };
        assert forall|k: int| 0 <= k < all.len() implies {
            &&& (#[trigger] all[k]).user_id == user
            &&& entries.contains(all[k])
            &&& all[k].id <= entries.last().id
        } by {
            if shift == 1 && k == 0 {
                assert(entries[n] == all[0]);
            } else {
                assert(all[k] == tail[k - shift]);
                assert(rest.contains(tail[k - shift]));
                let i = choose|i: int| 0 <= i < rest.len() && rest[i] == tail[k - shift];
                assert(entries[i] == all[k]);
                assert(rest.last() == entries[n - 1]);
                assert(entries[n - 1].id < entries[n].id);
            }
        }
        assert forall|k: int, m: int| 0 <= k < m < all.len() implies (#[trigger] all[k]).id > (
        #[trigger] all[m]).id by {
            assert(all[m] == tail[m - shift]);
            if shift == 1 && k == 0 {
                assert(rest.last() == entries[n - 1]);
                assert(entries[n - 1].id < entries[n].id);
            } else {
                assert(all[k] == tail[k - shift]);
            }
        }
    }
}

/// The newest-first list of a user is the store's list of entries, cut down
/// to those of the user and turned round.
pub proof fn law_newest_first_is_filter_reversed(entries: Seq<EntryView>, user: u128)
    ensures
        newest_first(entries, user) == entries.filter(|e: EntryView| e.user_id == user).reverse(),
    decreases entries.len(),
{
    reveal(Seq::filter);
    let own = |e: EntryView| e.user_id == user;
    if entries.len() > 0 {
        let rest = entries.drop_last();
        law_newest_first_is_filter_reversed(rest, user);
        if own(entries.last()) {
            assert(rest.filter(own).push(entries.last()).reverse() =~= seq![entries.last()]
                + rest.filter(own).reverse());
        }
    }
    assert(newest_first(entries, user) =~= entries.filter(own).reverse());
}

/// A listing of recent entries holds at most `limit` entries, all of them
/// entries of the store that belong to the user, with the most recent
/// first: the entry numbers fall strictly along the list.
pub proof fn law_recent_is_bounded_and_ordered(s: DbView, user: u128, limit: int)
    requires
        wf(s),
    ensures
        recent(s.entries, user, limit).len() <= limit || recent(s.entries, user, limit).len() == 0,
        forall|k: int|
            0 <= k < recent(s.entries, user, limit).len() ==> (#[trigger] recent(
                s.entries,
                user,
                limit,
            )[k]).user_id == user && s.entries.contains(recent(s.entries, user, limit)[k]),
        forall|k: int, m: int|
            0 <= k < m < recent(s.entries, user, limit).len() ==> (#[trigger] recent(
                s.entries,
                user,
                limit,
            )[k]).id > (#[trigger] recent(s.entries, user, limit)[m]).id,
{
    lemma_newest_first_descends(s.entries, user);
    let all = newest_first(s.entries, user);
    let got = recent(s.entries, user, limit);
    assert forall|k: int| 0 <= k < got.len() implies (#[trigger] got[k]).user_id == user
        && s.entries.contains(got[k]) by {
        assert(got[k] == all[k]);
    }
    assert forall|k: int, m: int| 0 <= k < m < got.len() implies (#[trigger] got[k]).id > (
    #[trigger] got[m]).id by {
        assert(got[k] == all[k]);
        assert(got[m] == all[m]);
    }
}

/// Where entry numbers grow, the newest-first list of a user who has an
/// entry starts with the entry of the highest number.
pub proof fn lemma_latest_first(entries: Seq<EntryView>, user: u128, i: int)
    requires
        ids_increase(entries),
        0 <= i < entries.len(),
        entries[i].user_id == user,
    ensures
        newest_first(entries, user).len() > 0,
        newest_first(entries, user)[0].id >= entries[i].id,
    decreases entries.len(),
{
    let n = entries.len() - 1;
    if entries.last().user_id == user {
        assert(newest_first(entries, user)[0] == entries[n]);
        if i < n {
            assert(entries[i].id < entries[n].id);
        }
    } else {
        let rest = entries.drop_last();
        assert forall|a: int, b: int| 0 <= a < b < rest.len() implies (#[trigger] rest[a]).id < (
        #[trigger] rest[b]).id by {
            assert(rest[a] == entries[a] && rest[b] == entries[b]);
        }
        assert(rest[i] == entries[i]);
        lemma_latest_first(rest, user, i);
    }
}

/// The first entry of a listing is the user's most recent entry: no entry
/// of the user in the store has a higher number.
pub proof fn law_recent_starts_with_latest(s: DbView, user: u128, limit: int, i: int)
    requires
        wf(s),
        limit > 0,
        0 <= i < s.entries.len(),
        s.entries[i].user_id == user,
    ensures
        recent(s.entries, user, limit).len() > 0,
        recent(s.entries, user, limit)[0].id >= s.entries[i].id,
{
    lemma_latest_first(s.entries, user, i);
}

} // verus!

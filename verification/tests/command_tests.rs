use stash_ledger::amount::AmountError;
use stash_ledger::command::{
    apply_command, handle_command, handle_command_at, query_limit, Command, CommandError, Reply,
};
use stash_ledger::db::Db;
use stash_ledger::ledger::{kind_from_name, kind_name, DbError, EntryKind};

fn store() -> Db {
    let mut db = Db::new();
    db.ensure_user_with(7, Some("ann".to_string()), "Ann".to_string(), None, 100, "t0".to_string())
        .unwrap();
    db
}

fn run(db: &mut Db, cmd: Command) -> Result<Reply, CommandError> {
    handle_command_at(db, 100, cmd, "t1".to_string())
}

#[test]
fn start_and_help_change_nothing() {
    let mut db = store();
    assert_eq!(run(&mut db, Command::Start), Ok(Reply::Welcome));
    assert_eq!(run(&mut db, Command::Help), Ok(Reply::Help));
    assert!(db.last_entries(100, 50).is_empty());
}

#[test]
fn save_appends_and_reports_the_balance() {
    let mut db = store();
    assert_eq!(
        run(&mut db, Command::Save("12.34 lunch money".to_string())),
        Ok(Reply::Saved {
            amount_cents: 1234,
            reason: Some("lunch money".to_string()),
            total_cents: 1234
        })
    );
    assert_eq!(
        run(&mut db, Command::Save("5".to_string())),
        Ok(Reply::Saved { amount_cents: 500, reason: None, total_cents: 1734 })
    );
    let got = db.last_entries(100, 2);
    assert_eq!(got[0].kind, EntryKind::Save);
    assert_eq!(got[0].created_at, "t1");
    assert_eq!(got[1].reason, Some("lunch money".to_string()));
}

#[test]
fn save_of_nothing_is_turned_down() {
    let mut db = store();
    assert_eq!(run(&mut db, Command::Save("0".to_string())), Ok(Reply::NotPositive));
    assert_eq!(run(&mut db, Command::Save("0.00 x".to_string())), Ok(Reply::NotPositive));
    assert_eq!(
        run(&mut db, Command::Save("-5".to_string())),
        Err(CommandError::Amount(AmountError::SignNotAllowed))
    );
    assert_eq!(
        run(&mut db, Command::Save("much".to_string())),
        Err(CommandError::Amount(AmountError::InvalidAmount))
    );
    assert_eq!(
        run(&mut db, Command::Save("".to_string())),
        Err(CommandError::Amount(AmountError::InvalidAmount))
    );
    assert_eq!(db.total_cents(100), 0);
    assert!(db.last_entries(100, 50).is_empty());
}

#[test]
fn adjust_takes_either_sign() {
    let mut db = store();
    assert_eq!(
        run(&mut db, Command::Adjust("+20".to_string())),
        Ok(Reply::Adjusted { delta_cents: 2000, reason: None, total_cents: 2000 })
    );
    assert_eq!(
        run(&mut db, Command::Adjust("-3.50 bank fee".to_string())),
        Ok(Reply::Adjusted {
            delta_cents: -350,
            reason: Some("bank fee".to_string()),
            total_cents: 1650
        })
    );
    assert_eq!(run(&mut db, Command::Adjust("0".to_string())), Ok(Reply::ZeroAdjustment));
    assert_eq!(run(&mut db, Command::Adjust("-0,0".to_string())), Ok(Reply::ZeroAdjustment));
    assert_eq!(db.total_cents(100), 1650);
    assert_eq!(db.last_entries(100, 1)[0].kind, EntryKind::Adjust);
}

#[test]
fn store_errors_come_through() {
    let mut db = store();
    assert_eq!(
        handle_command_at(&mut db, 555, Command::Save("1".to_string()), "t".to_string()),
        Err(CommandError::Store(DbError::UnknownUser))
    );
    run(&mut db, Command::Save("92233720368547758.07".to_string())).unwrap();
    assert_eq!(
        run(&mut db, Command::Save("0.01".to_string())),
        Err(CommandError::Store(DbError::Overflow))
    );
    assert_eq!(
        run(&mut db, Command::Save("92233720368547758.08".to_string())),
        Err(CommandError::Amount(AmountError::AmountOverflow))
    );
    assert_eq!(db.total_cents(100), i64::MAX);
}

#[test]
fn allinvoo_moves_the_balance() {
    let mut db = store();
    assert_eq!(run(&mut db, Command::Allinvoo), Ok(Reply::NothingToInvest));
    run(&mut db, Command::Save("10".to_string())).unwrap();
    assert_eq!(
        run(&mut db, Command::Allinvoo),
        Ok(Reply::Invested { moved_cents: 1000, history_cents: 1000 })
    );
    assert_eq!(run(&mut db, Command::Allinvoo), Ok(Reply::NothingToInvest));
    run(&mut db, Command::Save("2.50".to_string())).unwrap();
    assert_eq!(
        run(&mut db, Command::Allinvoo),
        Ok(Reply::Invested { moved_cents: 250, history_cents: 1250 })
    );
    assert_eq!(db.total_cents(100), 0);
}

#[test]
fn query_lists_recent_entries_with_the_sums() {
    let mut db = store();
    assert_eq!(run(&mut db, Command::Query("".to_string())), Ok(Reply::NoEntries));
    run(&mut db, Command::Save("10".to_string())).unwrap();
    run(&mut db, Command::Allinvoo).unwrap();
    run(&mut db, Command::Save("3".to_string())).unwrap();
    run(&mut db, Command::Adjust("-1 fee".to_string())).unwrap();
    match run(&mut db, Command::Query(" 2 ".to_string())) {
        Ok(Reply::Listing { entries, current_cents, history_cents, grand_cents }) => {
            assert_eq!(entries.len(), 2);
            assert_eq!(entries[0].amount_cents, -100);
            assert_eq!(entries[1].amount_cents, 300);
            assert_eq!(current_cents, 200);
            assert_eq!(history_cents, 1000);
            assert_eq!(grand_cents, Some(1200));
        }
        other => panic!("unexpected reply: {:?}", other),
    }
    match run(&mut db, Command::Query("all".to_string())) {
        Ok(Reply::Listing { entries, .. }) => assert_eq!(entries.len(), 4),
        other => panic!("unexpected reply: {:?}", other),
    }
}

#[test]
fn grand_total_may_leave_the_range() {
    let mut db = store();
    run(&mut db, Command::Save("92233720368547758.07".to_string())).unwrap();
    run(&mut db, Command::Allinvoo).unwrap();
    run(&mut db, Command::Save("0.01".to_string())).unwrap();
    assert_eq!(db.grand_total_cents(100), None);
    match run(&mut db, Command::Query("1".to_string())) {
        Ok(Reply::Listing { current_cents, history_cents, grand_cents, .. }) => {
            assert_eq!(current_cents, 1);
            assert_eq!(history_cents, i64::MAX);
            assert_eq!(grand_cents, None);
        }
        other => panic!("unexpected reply: {:?}", other),
    }
}

#[test]
fn query_limit_is_held_between_one_and_fifty() {
    assert_eq!(query_limit("3"), 3);
    assert_eq!(query_limit("  7  "), 7);
    assert_eq!(query_limit("+12"), 12);
    assert_eq!(query_limit("50"), 50);
    assert_eq!(query_limit("51"), 50);
    assert_eq!(query_limit("9223372036854775807"), 50);
    assert_eq!(query_limit("0"), 1);
    assert_eq!(query_limit("-4"), 1);
    assert_eq!(query_limit("-9223372036854775808"), 1);
    assert_eq!(query_limit("007"), 7);
}

#[test]
fn query_limit_defaults_to_ten() {
    assert_eq!(query_limit(""), 10);
    assert_eq!(query_limit("   "), 10);
    assert_eq!(query_limit("ten"), 10);
    assert_eq!(query_limit("3 4"), 10);
    assert_eq!(query_limit("3.0"), 10);
    assert_eq!(query_limit("+"), 10);
    assert_eq!(query_limit("-"), 10);
    assert_eq!(query_limit("9223372036854775808"), 10);
    assert_eq!(query_limit("-9223372036854775809"), 10);
    assert_eq!(query_limit("99999999999999999999999999"), 10);
}

#[test]
fn kinds_have_names() {
    assert_eq!(kind_name(EntryKind::Save), "save");
    assert_eq!(kind_name(EntryKind::Adjust), "adjust");
    assert_eq!(kind_name(EntryKind::Archive), "archive");
    assert_eq!(kind_from_name("save"), Some(EntryKind::Save));
    assert_eq!(kind_from_name("adjust"), Some(EntryKind::Adjust));
    assert_eq!(kind_from_name("archive"), Some(EntryKind::Archive));
    assert_eq!(kind_from_name("Save"), None);
    assert_eq!(kind_from_name(""), None);
    assert_eq!(kind_from_name("saved"), None);
}

#[test]
fn commands_are_stamped_with_the_time() {
    let mut db = store();
    assert_eq!(
        handle_command(&mut db, 100, Command::Save("1 tea".to_string())),
        Ok(Reply::Saved { amount_cents: 100, reason: Some("tea".to_string()), total_cents: 100 })
    );
    assert_eq!(handle_command(&mut db, 100, Command::Help), Ok(Reply::Help));
    let got = db.last_entries(100, 5);
    assert_eq!(got.len(), 1);
    let t = &got[0].created_at;
    assert!(t.len() >= 20);
    assert!(t.ends_with('Z'));
    assert_eq!(&t[4..5], "-");
    assert_eq!(&t[10..11], "T");
}

#[test]
fn applied_commands_tell_the_entry_they_appended() {
    let mut db = store();
    let done = apply_command(&mut db, 100, Command::Save("4.50 tea".to_string()));
    assert_eq!(
        done.outcome,
        Ok(Reply::Saved { amount_cents: 450, reason: Some("tea".to_string()), total_cents: 450 })
    );
    let entry = done.appended.unwrap();
    assert_eq!(entry.user_id, 100);
    assert_eq!(entry.amount_cents, 450);
    assert_eq!(entry.kind, EntryKind::Save);
    assert_eq!(entry.reason, Some("tea".to_string()));
    assert_eq!(entry.id, 1);
    assert!(entry.created_at.ends_with('Z'));
    assert_eq!(db.latest_entry(), Some(entry));

    let done = apply_command(&mut db, 100, Command::Allinvoo);
    assert_eq!(done.outcome, Ok(Reply::Invested { moved_cents: 450, history_cents: 450 }));
    let entry = done.appended.unwrap();
    assert_eq!(entry.kind, EntryKind::Archive);
    assert_eq!(entry.amount_cents, -450);
    assert_eq!(db.entry_count(), 2);
}

#[test]
fn applied_commands_that_write_nothing_append_nothing() {
    let mut db = store();
    apply_command(&mut db, 100, Command::Save("1".to_string()));
    for cmd in [
        Command::Start,
        Command::Help,
        Command::Query("5".to_string()),
        Command::Save("0".to_string()),
        Command::Save("x".to_string()),
        Command::Adjust("0".to_string()),
        Command::Adjust("1.234".to_string()),
    ] {
        let done = apply_command(&mut db, 100, cmd);
        assert_eq!(done.appended, None);
        assert_eq!(db.entry_count(), 1);
    }
    let done = apply_command(&mut db, 555, Command::Save("1".to_string()));
    assert_eq!(done.outcome, Err(CommandError::Store(DbError::UnknownUser)));
    assert_eq!(done.appended, None);
    apply_command(&mut db, 100, Command::Allinvoo);
    let done = apply_command(&mut db, 100, Command::Allinvoo);
    assert_eq!(done.outcome, Ok(Reply::NothingToInvest));
    assert_eq!(done.appended, None);
    assert_eq!(db.entry_count(), 2);
}

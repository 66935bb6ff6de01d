use stash_ledger::display::{cents_to_major, cents_to_minor, display_name, reason_prefix};

#[test]
fn major_units_round_towards_zero() {
    assert_eq!(cents_to_major(1234), 12);
    assert_eq!(cents_to_major(99), 0);
    assert_eq!(cents_to_major(-350), -3);
    assert_eq!(cents_to_major(-99), 0);
    assert_eq!(cents_to_major(i64::MIN), -92233720368547758);
    assert_eq!(cents_to_major(i64::MAX), 92233720368547758);
}

#[test]
fn minor_units_are_two_digits() {
    assert_eq!(cents_to_minor(1234), "34");
    assert_eq!(cents_to_minor(1205), "05");
    assert_eq!(cents_to_minor(0), "00");
    assert_eq!(cents_to_minor(-350), "50");
    assert_eq!(cents_to_minor(-7), "07");
    assert_eq!(cents_to_minor(i64::MIN), "08");
}

#[test]
fn reason_prefix_has_a_line_of_its_own() {
    assert_eq!(reason_prefix(&Some("lunch".to_string())), "Reason: lunch\n");
    assert_eq!(reason_prefix(&None), "");
}

#[test]
fn display_name_prefers_the_user_name() {
    assert_eq!(display_name(&Some("ann".to_string()), "Ann"), "@ann");
    assert_eq!(display_name(&None, "Ann"), "Ann");
}

use rental_ledger::date::Date;
use rental_ledger::model::{describe_contract, ContractType, Draft, DraftError, Entry};

fn entry_with_amounts(profit: i64, expenses: i64) -> Entry {
    Entry {
        name: String::from("Forklift"),
        profit,
        expenses,
        contract_type: ContractType::NoContract,
        description: String::new(),
    }
}

fn filled_draft(profit: &str, expenses: &str, days: &str) -> Draft {
    Draft {
        name: String::from("Forklift B"),
        profit: String::from(profit),
        expenses: String::from(expenses),
        days_rented: String::from(days),
        description: String::from("warehouse"),
    }
}

#[test]
fn balance_is_profit_less_expenses() {
    assert_eq!(entry_with_amounts(100000, 25050).balance(), 74950);
    assert_eq!(entry_with_amounts(0, 0).balance(), 0);
    assert_eq!(entry_with_amounts(500, 500).balance(), 0);
}

#[test]
fn balance_may_be_negative() {
    assert_eq!(entry_with_amounts(1000, 2500).balance(), -1500);
    assert_eq!(entry_with_amounts(-1000, 2500).balance(), -3500);
    assert_eq!(entry_with_amounts(-1000, -2500).balance(), 1500);
}

#[test]
fn balance_of_the_largest_amounts_does_not_overflow() {
    assert_eq!(
        entry_with_amounts(i64::MAX, i64::MIN).balance(),
        18446744073709551615i128
    );
    assert_eq!(
        entry_with_amounts(i64::MIN, i64::MAX).balance(),
        -18446744073709551615i128
    );
}

#[test]
fn balance_follows_its_inputs() {
    let mut entry = entry_with_amounts(1000, 400);
    assert_eq!(entry.balance(), 600);
    entry.expenses = 1400;
    assert_eq!(entry.balance(), -400);
}

#[test]
fn daily_contract_is_described_by_days_and_date() {
    let contract = ContractType::Daily {
        days_rented: 5,
        registration_date: Date::new(2024, 3, 1).unwrap(),
    };
    assert_eq!(describe_contract(&contract), "5 dias | 2024-03-01");
    let long = ContractType::Daily {
        days_rented: 365,
        registration_date: Date::new(1999, 12, 31).unwrap(),
    };
    assert_eq!(describe_contract(&long), "365 dias | 1999-12-31");
}

#[test]
fn no_contract_is_described_by_a_fixed_label() {
    assert_eq!(describe_contract(&ContractType::NoContract), "Nenhum");
}

#[test]
fn zero_days_register_no_contract() {
    let today = Date::new(2024, 3, 1).unwrap();
    assert_eq!(ContractType::registered(0, today), ContractType::NoContract);
}

#[test]
fn one_day_or_more_registers_a_daily_contract_from_today() {
    let today = Date::new(2024, 3, 1).unwrap();
    assert_eq!(
        ContractType::registered(1, today),
        ContractType::Daily { days_rented: 1, registration_date: today }
    );
    assert_eq!(
        ContractType::registered(u32::MAX, today),
        ContractType::Daily { days_rented: u32::MAX, registration_date: today }
    );
}

#[test]
fn day_text_zero_holds_no_contract() {
    let date = Date::new(2024, 3, 1).unwrap();
    assert!(ContractType::is_zero_days(&['0']));
    assert_eq!(ContractType::from_fields(&['0'], Some(date)), ContractType::NoContract);
    assert_eq!(ContractType::from_fields(&['0'], None), ContractType::NoContract);
}

#[test]
fn only_the_text_zero_is_the_zero_day_count() {
    assert!(!ContractType::is_zero_days(&[]));
    assert!(!ContractType::is_zero_days(&['0', '0']));
    assert!(!ContractType::is_zero_days(&['+', '0']));
    assert!(!ContractType::is_zero_days(&['1']));
    assert!(!ContractType::is_zero_days(&['O']));
}

#[test]
fn day_text_and_date_hold_a_daily_contract() {
    let date = Date::new(2024, 3, 1).unwrap();
    assert_eq!(
        ContractType::from_fields(&['5'], Some(date)),
        ContractType::Daily { days_rented: 5, registration_date: date }
    );
    assert_eq!(
        ContractType::from_fields(&['1', '2'], Some(date)),
        ContractType::Daily { days_rented: 12, registration_date: date }
    );
}

#[test]
fn missing_date_is_replaced_by_the_epoch() {
    assert_eq!(
        ContractType::from_fields(&['5'], None),
        ContractType::Daily {
            days_rented: 5,
            registration_date: Date::new(1970, 1, 1).unwrap()
        }
    );
}

#[test]
fn day_text_that_is_no_count_holds_zero_days() {
    let date = Date::new(2024, 3, 1).unwrap();
    let words = ['m', 'a', 'n', 'y'];
    assert_eq!(
        ContractType::from_fields(&words, Some(date)),
        ContractType::Daily { days_rented: 0, registration_date: date }
    );
    assert_eq!(
        ContractType::from_fields(&['0', '0'], Some(date)),
        ContractType::Daily { days_rented: 0, registration_date: date }
    );
    assert_eq!(
        ContractType::from_fields(&[], None),
        ContractType::Daily { days_rented: 0, registration_date: Date::epoch() }
    );
}

#[test]
fn contract_of_zero_days_is_no_rental() {
    let date = Date::new(2024, 3, 1).unwrap();
    assert!(ContractType::Daily { days_rented: 1, registration_date: date }.is_rental());
    assert!(!ContractType::Daily { days_rented: 0, registration_date: date }.is_rental());
    assert!(!ContractType::NoContract.is_rental());
}

#[test]
fn new_draft_is_blank() {
    let draft = Draft::new();
    assert_eq!(draft.name, "");
    assert_eq!(draft.profit, "");
    assert_eq!(draft.expenses, "");
    assert_eq!(draft.days_rented, "");
    assert_eq!(draft.description, "");
}

#[test]
fn draft_registers_a_daily_contract_from_today() {
    let today = Date::new(2024, 3, 1).unwrap();
    let entry = filled_draft("1000", "250.5", "5").register(today).unwrap();
    assert_eq!(entry.name, "Forklift B");
    assert_eq!(entry.profit, 100000);
    assert_eq!(entry.expenses, 25050);
    assert_eq!(
        entry.contract_type,
        ContractType::Daily { days_rented: 5, registration_date: today }
    );
    assert_eq!(entry.description, "warehouse");
    assert_eq!(describe_contract(&entry.contract_type), "5 dias | 2024-03-01");
}

#[test]
fn draft_with_zero_days_registers_no_contract() {
    let today = Date::new(2024, 3, 1).unwrap();
    let entry = filled_draft("10", "20", "0").register(today).unwrap();
    assert_eq!(entry.contract_type, ContractType::NoContract);
    assert_eq!(entry.balance(), -1000);
}

#[test]
fn draft_names_the_first_field_that_cannot_be_read() {
    let today = Date::new(2024, 3, 1).unwrap();
    assert_eq!(
        filled_draft("abc", "1", "1").register(today),
        Err(DraftError::Profit)
    );
    assert_eq!(
        filled_draft("1", "", "1").register(today),
        Err(DraftError::Expenses)
    );
    assert_eq!(
        filled_draft("1", "1", "-1").register(today),
        Err(DraftError::DaysRented)
    );
    assert_eq!(
        filled_draft("1", "1", "1.5").register(today),
        Err(DraftError::DaysRented)
    );
    assert_eq!(
        filled_draft("x", "y", "z").register(today),
        Err(DraftError::Profit)
    );
    assert_eq!(
        filled_draft("1", "y", "z").register(today),
        Err(DraftError::Expenses)
    );
}

#[test]
fn submit_appends_the_entry_and_clears_the_draft() {
    let today = Date::new(2024, 3, 1).unwrap();
    let mut entries = vec![entry_with_amounts(1, 2)];
    let mut draft = filled_draft("1000", "250.5", "5");
    assert_eq!(draft.submit(&mut entries, today), Ok(()));
    assert_eq!(entries.len(), 2);
    assert_eq!(entries[0], entry_with_amounts(1, 2));
    assert_eq!(entries[1].name, "Forklift B");
    assert_eq!(entries[1].balance(), 74950);
    assert_eq!(draft, Draft::new());
}

#[test]
fn submit_of_an_unreadable_draft_changes_nothing() {
    let today = Date::new(2024, 3, 1).unwrap();
    let mut entries = vec![entry_with_amounts(1, 2)];
    let mut draft = filled_draft("1000", "a lot", "5");
    let before = draft.clone();
    assert_eq!(draft.submit(&mut entries, today), Err(DraftError::Expenses));
    assert_eq!(entries, vec![entry_with_amounts(1, 2)]);
    assert_eq!(draft, before);
}

#[test]
fn clear_empties_every_field() {
    let mut draft = filled_draft("1", "2", "3");
    draft.clear();
    assert_eq!(draft, Draft::new());
}

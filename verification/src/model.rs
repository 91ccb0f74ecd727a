//! The record model: entries, their rental contract, the balance, and the
//! form from which an entry is registered.

use crate::date::{iso_text, Date};
use crate::decimal::{
    amount_of, count_of, count_or_zero, decimal, format_count, parse_amount, parse_count,
    read_count,
};
use vstd::prelude::*;
use vstd::string::StringExecFns;

verus! {

/// The rental contract of an entry.
#[derive(Clone, Copy, Debug, PartialEq, Eq)]
pub enum ContractType {
    /// Rented by the day: for how many days, and since when. A count of
    /// zero days stands for no contract; see `is_rental`.
    Daily { days_rented: u32, registration_date: Date },
    /// No rental contract.
    NoContract,
}

/// One logged transaction for a named piece of equipment. Amounts are whole
/// hundredths of the currency unit.
#[derive(Clone, Debug, PartialEq, Eq)]
pub struct Entry {
    pub name: String,
    pub profit: i64,
    pub expenses: i64,
    pub contract_type: ContractType,
    pub description: String,
}

/// What an `Entry` holds, as mathematical values.
pub struct EntryView {
    pub name: Seq<char>,
    pub profit: i64,
    pub expenses: i64,
    pub contract_type: ContractType,
    pub description: Seq<char>,
}

impl View for Entry {
    type V = EntryView;

    open spec fn view(&self) -> EntryView {
        EntryView {
            name: self.name@,
            profit: self.profit,
            expenses: self.expenses,
            contract_type: self.contract_type,
            description: self.description@,
        }
    }
}

/// The views of a sequence of entries.
pub open spec fn entry_views(entries: Seq<Entry>) -> Seq<EntryView> {
    Seq::new(entries.len(), |i: int| entries[i]@)
}

/// The words between the day count and the date in the text of a contract.
pub open spec fn days_label() -> Seq<char> {
    " dias | "@
}

/// The text that stands for "no contract".
pub open spec fn no_contract_label() -> Seq<char> {
    "Nenhum"@
}

/// The day count that stands for no contract in a row.
pub open spec fn zero_days() -> Seq<char> {
    seq!['0']
}

/// The contract that is registered for a count of days on the day `today`:
/// a daily contract from `today` for at least one day, none for zero days.
pub open spec fn registered_contract(days_rented: u32, today: Date) -> ContractType {
    if days_rented > 0 {
        ContractType::Daily { days_rented, registration_date: today }
    } else {
        ContractType::NoContract
    }
}

/// The contract that two fields of a row hold: the text of the day count,
/// and the date that was read from the date field or not. The text `0`
/// holds no contract. Any other text holds a daily contract: its day count
/// is the count that the text writes, zero where it writes none; its date is
/// the date that was read, the epoch where none was.
pub open spec fn contract_of_fields(days: Seq<char>, date: Option<Date>) -> ContractType {
    if days == zero_days() {
        ContractType::NoContract
    } else {
        ContractType::Daily {
            days_rented: count_or_zero(days),
            registration_date: match date {
                Some(d) => d,
                None => Date::epoch(),
            },
        }
    }
}

/// The text shown for a contract: the day count, the label and the ISO date
/// for a daily contract, and the fixed label for none.
pub open spec fn contract_text(contract: ContractType) -> Seq<char> {
    match contract {
        ContractType::Daily { days_rented, registration_date } => decimal(days_rented as nat)
            + days_label() + iso_text(registration_date),
        ContractType::NoContract => no_contract_label(),
    }
}

impl ContractType {
    /// Whether this contract is a rental: a daily contract of at least one
    /// day. A daily contract of zero days is treated as no contract.
    pub open spec fn spec_is_rental(&self) -> bool {
        *self matches ContractType::Daily { days_rented, .. } && days_rented > 0
    }

    /// This contract with zero days taken as no contract.
    pub open spec fn normalized(self) -> ContractType {
        if self.is_rental() {
            self
        } else {
            ContractType::NoContract
        }
    }

    /// Tells whether this contract is a rental.
    #[verifier::when_used_as_spec(spec_is_rental)]
    pub fn is_rental(&self) -> (r: bool)
        ensures
            r == self.is_rental(),
    {
        match self {
            ContractType::Daily { days_rented, .. } => *days_rented > 0,
            ContractType::NoContract => false,
        }
    }

    /// Makes the contract that is registered for a count of days on the day
    /// `today`.
    pub fn registered(days_rented: u32, today: Date) -> (contract: ContractType)
        ensures
            contract == registered_contract(days_rented, today),
    {
        if days_rented > 0 {
            ContractType::Daily { days_rented, registration_date: today }
        } else {
            ContractType::NoContract
        }
    }

    /// Tells whether `days` is the day count that stands for no contract.
    pub fn is_zero_days(days: &[char]) -> (r: bool)
        ensures
            r == (days@ == zero_days()),
    {
        let r = days.len() == 1 && days[0] == '0';
        proof {
            if r {
                assert(days@ =~= zero_days());
            }
        }
        r
    }

    /// Makes the contract that two fields of a row hold, from the text of
    /// the day count and the date that was read from the date field or not.
    pub fn from_fields(days: &[char], date: Option<Date>) -> (contract: ContractType)
        ensures
            contract == contract_of_fields(days@, date),
    {
        if ContractType::is_zero_days(days) {
            ContractType::NoContract
        } else {
            let days_rented = match read_count(days) {
                Some(n) => n,
                None => 0,
            };
            let registration_date = match date {
                Some(d) => d,
                None => Date::epoch(),
            };
            ContractType::Daily { days_rented, registration_date }
        }
    }
}

impl EntryView {
    /// Profit less expenses, in hundredths.
    pub open spec fn balance(self) -> int {
        self.profit - self.expenses
    }

    /// This entry with a contract of zero days taken as no contract.
    pub open spec fn normalized(self) -> EntryView {
        EntryView { contract_type: self.contract_type.normalized(), ..self }
    }
}

impl Entry {
    /// Profit less expenses, in hundredths. It is computed on every call
    /// and is wide enough for any two amounts.
    pub fn balance(&self) -> (b: i128)
        ensures
            b == self.profit - self.expenses,
            b == self@.balance(),
    {
        self.profit as i128 - self.expenses as i128
    }
}

/// The text shown for `contract`.
pub fn describe_contract(contract: &ContractType) -> (text: String)
    ensures
        text@ == contract_text(*contract),
{
    match contract {
        ContractType::Daily { days_rented, registration_date } => {
            let mut text = format_count(*days_rented);
            text.append(" dias | ");
            let date = registration_date.to_iso();
            text.append(date.as_str());
            text
        },
        ContractType::NoContract => String::from_str("Nenhum"),
    }
}

/// The fields of the form, as the operator typed them.
#[derive(Clone, Debug, PartialEq, Eq)]
pub struct Draft {
    pub name: String,
    pub profit: String,
    pub expenses: String,
    pub days_rented: String,
    pub description: String,
}

/// What a `Draft` holds, as mathematical values.
pub struct DraftView {
    pub name: Seq<char>,
    pub profit: Seq<char>,
    pub expenses: Seq<char>,
    pub days_rented: Seq<char>,
    pub description: Seq<char>,
}

impl View for Draft {
    type V = DraftView;

    open spec fn view(&self) -> DraftView {
        DraftView {
            name: self.name@,
            profit: self.profit@,
            expenses: self.expenses@,
            days_rented: self.days_rented@,
            description: self.description@,
        }
    }
}

/// The field of a draft that does not hold what it should.
#[derive(Clone, Copy, Debug, PartialEq, Eq)]
pub enum DraftError {
    /// The profit is not an amount.
    Profit,
    /// The expenses are not an amount.
    Expenses,
    /// The days rented are not a count.
    DaysRented,
}

impl DraftView {
    /// The draft with every field empty.
    pub open spec fn blank() -> DraftView {
        DraftView {
            name: Seq::empty(),
            profit: Seq::empty(),
            expenses: Seq::empty(),
            days_rented: Seq::empty(),
            description: Seq::empty(),
        }
    }

    /// The entry that this draft registers on the day `today`, or the first
    /// of profit, expenses and days rented that cannot be read.
    pub open spec fn registered(self, today: Date) -> Result<EntryView, DraftError> {
        if amount_of(self.profit) is None {
            Err(DraftError::Profit)
        } else if amount_of(self.expenses) is None {
            Err(DraftError::Expenses)
        } else if count_of(self.days_rented) is None {
            Err(DraftError::DaysRented)
        } else {
            Ok(
                EntryView {
                    name: self.name,
                    profit: amount_of(self.profit)->0,
                    expenses: amount_of(self.expenses)->0,
                    contract_type: registered_contract(count_of(self.days_rented)->0, today),
                    description: self.description,
                },
            )
        }
    }
}

impl Draft {
    /// A draft with every field empty.
    pub fn new() -> (draft: Draft)
        ensures
            draft@ == DraftView::blank(),
    {
        Draft {
            name: String::new(),
            profit: String::new(),
            expenses: String::new(),
            days_rented: String::new(),
            description: String::new(),
        }
    }

    /// Empties every field.
    pub fn clear(&mut self)
        ensures
            final(self)@ == DraftView::blank(),
    {
        self.name = String::new();
        self.profit = String::new();
        self.expenses = String::new();
        self.days_rented = String::new();
        self.description = String::new();
    }

    /// Makes the entry that this draft registers on the day `today`.
    pub fn register(&self, today: Date) -> (r: Result<Entry, DraftError>)
        ensures
            match r {
                Ok(entry) => self@.registered(today) == Ok::<EntryView, DraftError>(entry@),
                Err(e) => self@.registered(today) == Err::<EntryView, DraftError>(e),
            },
    {
        let profit = match parse_amount(self.profit.as_str()) {
            Some(v) => v,
            None => { return Err(DraftError::Profit); },
        };
        let expenses = match parse_amount(self.expenses.as_str()) {
            Some(v) => v,
            None => { return Err(DraftError::Expenses); },
        };
        let days_rented = match parse_count(self.days_rented.as_str()) {
            Some(n) => n,
            None => { return Err(DraftError::DaysRented); },
        };
        Ok(
            Entry {
                name: self.name.clone(),
                profit,
                expenses,
                contract_type: ContractType::registered(days_rented, today),
                description: self.description.clone(),
            },
        )
    }

    /// Registers this draft on the day `today`: the entry is added at the
    /// end of `entries`, whose earlier entries stay as they are, and the
    /// draft is emptied. Where a field cannot be read, nothing changes and
    /// the field is named.
    pub fn submit(&mut self, entries: &mut Vec<Entry>, today: Date) -> (r: Result<(), DraftError>)
        ensures
            match old(self)@.registered(today) {
                Ok(entry) => {
                    &&& r is Ok
                    &&& final(entries)@.len() == old(entries)@.len() + 1
                    &&& final(entries)@.drop_last() == old(entries)@
                    &&& final(entries)@.last()@ == entry
                    &&& final(self)@ == DraftView::blank()
                },
                Err(e) => {
                    &&& r == Err::<(), DraftError>(e)
                    &&& final(entries)@ == old(entries)@
                    &&& final(self)@ == old(self)@
                },
            },
    {
        match self.register(today) {
            Ok(entry) => {
                entries.push(entry);
                self.clear();
                proof {
                    assert(entries@.drop_last() == old(entries)@);
                }
                Ok(())
            },
            Err(e) => Err(e),
        }
    }
}

} // verus!

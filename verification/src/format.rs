//! The text format of a ledger, as mathematical functions: a header line,
//! then one line for each entry with seven fields separated by semicolons.

use crate::date::{iso_date_of, iso_text};
use crate::decimal::{amount_or_zero, amount_text, decimal};
use crate::model::{contract_of_fields, no_contract_label, ContractType, EntryView};
use crate::text::{join, lines_of, quoted, split_on, strip_quotes};
use vstd::prelude::*;

verus! {

/// The number of fields of a row.
pub const FIELDS: usize = 7;

/// The header line, without its line feed.
pub open spec fn header() -> Seq<char> {
    "Name;Profit;Expenses;Balance;DaysRented;RegistrationDate;Description"@
}

/// The field that holds the day count of a contract.
pub open spec fn days_field(contract: ContractType) -> Seq<char> {
    match contract {
        ContractType::Daily { days_rented, .. } => decimal(days_rented as nat),
        ContractType::NoContract => no_contract_label(),
    }
}

/// The field that holds the date of a contract.
pub open spec fn date_field(contract: ContractType) -> Seq<char> {
    match contract {
        ContractType::Daily { registration_date, .. } => iso_text(registration_date),
        ContractType::NoContract => Seq::<char>::empty(),
    }
}

/// The seven fields of the row of `entry`: the name, the profit, the
/// expenses, the balance, the day count, the date and the description. The
/// three amounts are written bare, the other fields between quotes.
pub open spec fn row_fields(entry: EntryView) -> Seq<Seq<char>> {
    seq![
        quoted(entry.name),
        amount_text(entry.profit as int),
        amount_text(entry.expenses as int),
        amount_text(entry.balance()),
        quoted(days_field(entry.contract_type)),
        quoted(date_field(entry.contract_type)),
        quoted(entry.description),
    ]
}

/// The row of `entry`, without its line feed.
pub open spec fn row_text(entry: EntryView) -> Seq<char> {
    join(row_fields(entry), ';')
}

/// The rows of `entries`, in order.
pub open spec fn row_texts(entries: Seq<EntryView>) -> Seq<Seq<char>> {
    Seq::new(entries.len(), |i: int| row_text(entries[i]))
}

/// The text of a ledger: the header and the row of each entry in order,
/// every line ended by a line feed.
pub open spec fn encoded(entries: Seq<EntryView>) -> Seq<char> {
    join(seq![header()] + row_texts(entries), '\n') + seq!['\n']
}

/// The entry that the line `line` holds, none where the line has fewer than
/// seven fields. One quote is taken off each end of a field. An amount that
/// cannot be read is zero. The fourth field, the balance, is not looked at;
/// fields after the seventh are not either.
pub open spec fn row_of(line: Seq<char>) -> Option<EntryView> {
    let fields = split_on(line, ';');
    if fields.len() < FIELDS {
        None
    } else {
        Some(
            EntryView {
                name: strip_quotes(fields[0]),
                profit: amount_or_zero(strip_quotes(fields[1])),
                expenses: amount_or_zero(strip_quotes(fields[2])),
                contract_type: contract_of_fields(
                    strip_quotes(fields[4]),
                    iso_date_of(strip_quotes(fields[5])),
                ),
                description: strip_quotes(fields[6]),
            },
        )
    }
}

/// The entries that the lines `rows` hold, in order; a line that holds none
/// is passed over.
pub open spec fn rows_of(rows: Seq<Seq<char>>) -> Seq<EntryView>
    decreases rows.len(),
{
    if rows.len() == 0 {
        Seq::<EntryView>::empty()
    } else {
        let before = rows_of(rows.drop_last());
        match row_of(rows.last()) {
            Some(entry) => before.push(entry),
            None => before,
        }
    }
}

/// The entries that the text of a ledger holds. The first line is the
/// header and is passed over, whatever it holds.
pub open spec fn decoded(text: Seq<char>) -> Seq<EntryView> {
    let all = lines_of(text);
    if all.len() == 0 {
        Seq::<EntryView>::empty()
    } else {
        rows_of(all.drop_first())
    }
}

} // verus!

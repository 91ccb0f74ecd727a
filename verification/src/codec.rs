//! Writing a ledger as text and reading it back.

use crate::date::Date;
use crate::decimal::{format_amount, format_count, read_amount};
use crate::format::{
    date_field, days_field, decoded, encoded, header, row_fields, row_of, row_text, row_texts,
    rows_of, FIELDS,
};
use crate::model::{entry_views, ContractType, Entry};
use crate::round_trip::{all_plain, date_reads_back, lemma_decode_inverts_encode, normalized_all};
use crate::text::{
    lines, push_joined, quote, split, string_views, to_chars, to_string, unquote, views,
};
use vstd::prelude::*;
use vstd::string::StringExecFns;

verus! {

/// The two fields of `contract`, unquoted: the day count and the date.
pub fn contract_fields(contract: &ContractType) -> (fields: (String, String))
    ensures
        fields.0@ == days_field(*contract),
        fields.1@ == date_field(*contract),
        date_reads_back(*contract),
{
    match contract {
        ContractType::Daily { days_rented, registration_date } => {
            (format_count(*days_rented), registration_date.to_iso())
        },
        ContractType::NoContract => {
            let days = String::from_str("Nenhum");
            let date = String::new();
            (days, date)
        },
    }
}

/// The seven fields of the row of `entry`.
pub fn entry_fields(entry: &Entry) -> (fields: Vec<String>)
    ensures
        string_views(fields@) == row_fields(entry@),
        date_reads_back(entry.contract_type),
{
    let (days, date) = contract_fields(&entry.contract_type);
    let mut fields: Vec<String> = Vec::new();
    fields.push(quote(entry.name.as_str()));
    fields.push(format_amount(entry.profit as i128));
    fields.push(format_amount(entry.expenses as i128));
    fields.push(format_amount(entry.balance()));
    fields.push(quote(days.as_str()));
    fields.push(quote(date.as_str()));
    fields.push(quote(entry.description.as_str()));
    proof {
        assert(string_views(fields@) =~= row_fields(entry@));
    }
    fields
}

/// Writes the row of `entry`, without a line feed.
pub fn encode_row(entry: &Entry) -> (row: String)
    ensures
        row@ == row_text(entry@),
        date_reads_back(entry.contract_type),
{
    let fields = entry_fields(entry);
    let mut row = String::new();
    push_joined(&mut row, &fields, ';');
    row
}

/// Makes the entry that the line `line` holds.
pub fn decode_row(line: &[char]) -> (r: Option<Entry>)
    ensures
        match r {
            Some(entry) => row_of(line@) == Some(entry@),
            None => row_of(line@) is None,
        },
{
    let fields = split(line, ';');
    if fields.len() < FIELDS {
        return None;
    }
    let name = to_string(unquote(fields[0].as_slice()));
    let profit = match read_amount(unquote(fields[1].as_slice())) {
        Some(v) => v,
        None => 0,
    };
    let expenses = match read_amount(unquote(fields[2].as_slice())) {
        Some(v) => v,
        None => 0,
    };
    let days = unquote(fields[4].as_slice());
    let date = if ContractType::is_zero_days(days) {
        None
    } else {
        let text = to_string(unquote(fields[5].as_slice()));
        Date::parse_iso(text.as_str())
    };
    let contract_type = ContractType::from_fields(days, date);
    let description = to_string(unquote(fields[6].as_slice()));
    Some(Entry { name, profit, expenses, contract_type, description })
}

/// Reads the entries of a ledger from its text. No text is rejected: a line
/// with fewer than seven fields is passed over, and a field that cannot be
/// read is replaced by zero or by the epoch.
pub fn decode(text: &str) -> (entries: Vec<Entry>)
    ensures
        entry_views(entries@) == decoded(text@),
{
    let chars = to_chars(text);
    let all = lines(chars.as_slice());
    let mut entries: Vec<Entry> = Vec::new();
    if all.len() == 0 {
        return entries;
    }
    let ghost rows = views(all@).drop_first();
    let mut i: usize = 1;
    while i < all.len()
        invariant
            1 <= i <= all@.len(),
            rows == views(all@).drop_first(),
            entry_views(entries@) == rows_of(rows.take(i - 1)),
        decreases all@.len() - i,
    {
        proof {
            let upto = rows.take(i as int);
            assert(upto.drop_last() == rows.take(i - 1));
            assert(upto.last() == all@[i as int]@);
        }
        let ghost before = entry_views(entries@);
        match decode_row(all[i].as_slice()) {
            Some(entry) => {
                entries.push(entry);
                proof {
                    assert(entry_views(entries@) == before.push(entry@));
                }
            },
            None => {},
        }
        i += 1;
    }
    proof {
        assert(rows.take(i - 1) == rows);
    }
    entries
}

/// The entries of a ledger whose file held `source`, or of one whose file
/// does not exist: a missing file is an empty ledger.
pub fn load(source: Option<&str>) -> (entries: Vec<Entry>)
    ensures
        match source {
            Some(text) => entry_views(entries@) == decoded(text@),
            None => entries@.len() == 0,
        },
{
    match source {
        Some(text) => decode(text),
        None => Vec::new(),
    }
}

/// Writes the text of the ledger `entries`. Where no name and no description
/// holds a semicolon or a line feed, `decode` reads the entries back from
/// that text: as many, in the same order, each with its name, description
/// and amounts, and with its contract if that is a rental. An entry that is
/// no rental is read back as one that is no rental.
pub fn encode(entries: &[Entry]) -> (text: String)
    ensures
        text@ == encoded(entry_views(entries@)),
        all_plain(entry_views(entries@)) ==> normalized_all(decoded(text@)) == normalized_all(
            entry_views(entries@),
        ),
{
    let ghost all = entry_views(entries@);
    let mut rows: Vec<String> = Vec::new();
    rows.push(String::from_str("Name;Profit;Expenses;Balance;DaysRented;RegistrationDate;Description"));
    let mut i: usize = 0;
    while i < entries.len()
        invariant
            i <= entries@.len(),
            all == entry_views(entries@),
            string_views(rows@) == seq![header()] + row_texts(all.take(i as int)),
            forall|k: int| 0 <= k < i ==> date_reads_back((#[trigger] all[k]).contract_type),
        decreases entries@.len() - i,
    {
        let ghost before = string_views(rows@);
        rows.push(encode_row(&entries[i]));
        proof {
            assert(string_views(rows@) == before.push(row_text(all[i as int])));
            assert(before.push(row_text(all[i as int])) == seq![header()] + row_texts(
                all.take(i + 1),
            ));
        }
        i += 1;
    }
    let mut text = String::new();
    push_joined(&mut text, &rows, '\n');
    text.push('\n');
    proof {
        assert(all.take(i as int) == all);
        assert(text@ == encoded(all));
        if all_plain(all) {
            lemma_decode_inverts_encode(all);
        }
    }
    text
}

} // verus!

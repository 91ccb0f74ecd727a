//! What holds of a ledger that is written and read again.

use crate::date::{iso_date_of, iso_text, lemma_iso_text_chars, reads_back};
use crate::decimal::{
    all_digits, amount_of, amount_or_zero, amount_text, decimal, digits_value, is_digit,
    is_numeric_char, lemma_amount_read_back, lemma_amount_text_chars, lemma_count_read_back,
    lemma_decimal,
};
use crate::format::{
    date_field, days_field, decoded, encoded, header, row_fields, row_of, row_text, row_texts,
    rows_of,
};
use crate::model::{contract_of_fields, no_contract_label, zero_days, ContractType, EntryView};
use crate::text::{
    join, lemma_join_excludes, lemma_join_last, lemma_quoted_contains, lemma_split_joined,
    lemma_strip_quoted, lines_of, quoted, split_on, strip_cr, strip_quotes,
};
use vstd::prelude::*;

verus! {

/// Whether `s` can stand in a quoted field: it holds no semicolon and no
/// line feed.
pub open spec fn is_plain(s: Seq<char>) -> bool {
    !s.contains(';') && !s.contains('\n')
}

/// Whether every name and every description in `entries` is plain.
pub open spec fn all_plain(entries: Seq<EntryView>) -> bool {
    forall|i: int|
        0 <= i < entries.len() ==> is_plain((#[trigger] entries[i]).name) && is_plain(
            entries[i].description,
        )
}

/// Whether the text of the date of `contract`, if it has one, is read back
/// as that date.
pub open spec fn date_reads_back(contract: ContractType) -> bool {
    contract matches ContractType::Daily { registration_date, .. } ==> reads_back(
        registration_date,
    )
}

/// Whether the text of the date of every rental in `entries` is read back as
/// that date.
pub open spec fn rentals_read_back(entries: Seq<EntryView>) -> bool {
    forall|i: int|
        0 <= i < entries.len() && (#[trigger] entries[i]).contract_type.is_rental()
            ==> date_reads_back(entries[i].contract_type)
}

/// The contract that is read from the two fields written for `contract`.
pub open spec fn reread_contract(contract: ContractType) -> ContractType {
    contract_of_fields(days_field(contract), iso_date_of(date_field(contract)))
}

/// The entry that is read from the row written for `entry`, where its name
/// and description are plain: the same entry, with the contract that is read
/// from its two fields.
pub open spec fn reread(entry: EntryView) -> EntryView {
    EntryView { contract_type: reread_contract(entry.contract_type), ..entry }
}

/// The entries that are read from the rows written for `entries`.
pub open spec fn reread_all(entries: Seq<EntryView>) -> Seq<EntryView> {
    Seq::new(entries.len(), |i: int| reread(entries[i]))
}

/// `entries`, each with a contract of zero days taken as no contract.
pub open spec fn normalized_all(entries: Seq<EntryView>) -> Seq<EntryView> {
    Seq::new(entries.len(), |i: int| entries[i].normalized())
}

/// The label for no contract holds letters only.
pub proof fn lemma_no_contract_label()
    ensures
        no_contract_label() == seq!['N', 'e', 'n', 'h', 'u', 'm'],
{
    reveal_strlit("Nenhum");
    assert(no_contract_label() =~= seq!['N', 'e', 'n', 'h', 'u', 'm']);
}

/// The header has no line feed.
pub proof fn lemma_header_is_one_line()
    ensures
        !header().contains('\n'),
{
    reveal_strlit("Name;Profit;Expenses;Balance;DaysRented;RegistrationDate;Description");
}

/// The text of an amount holds neither a semicolon nor a line feed.
pub proof fn lemma_amount_text_excludes(v: int, c: char)
    requires
        c == ';' || c == '\n',
    ensures
        !amount_text(v).contains(c),
{
    lemma_amount_text_chars(v);
}

/// The quoted day count of a contract holds neither a semicolon nor a line
/// feed.
pub proof fn lemma_days_field_excludes(contract: ContractType, c: char)
    requires
        c == ';' || c == '\n',
    ensures
        !quoted(days_field(contract)).contains(c),
{
    lemma_quoted_contains(days_field(contract), c);
    match contract {
        ContractType::Daily { days_rented, .. } => {
            lemma_decimal(days_rented as nat);
        },
        ContractType::NoContract => {
            lemma_no_contract_label();
        },
    }
}

/// The quoted date of a contract holds neither a semicolon nor a line feed.
pub proof fn lemma_date_field_excludes(contract: ContractType, c: char)
    requires
        c == ';' || c == '\n',
    ensures
        !quoted(date_field(contract)).contains(c),
{
    lemma_quoted_contains(date_field(contract), c);
    match contract {
        ContractType::Daily { registration_date, .. } => {
            lemma_iso_text_chars(registration_date);
        },
        ContractType::NoContract => {},
    }
}

/// A quoted plain text holds neither a semicolon nor a line feed.
pub proof fn lemma_quoted_plain_excludes(s: Seq<char>, c: char)
    requires
        is_plain(s),
        c == ';' || c == '\n',
    ensures
        !quoted(s).contains(c),
{
    lemma_quoted_contains(s, c);
}

/// No field of the row of an entry with plain name and description holds
/// `c`, for `c` the semicolon or the line feed.
pub proof fn lemma_row_fields_exclude(entry: EntryView, c: char)
    requires
        is_plain(entry.name),
        is_plain(entry.description),
        c == ';' || c == '\n',
    ensures
        row_fields(entry).len() == 7,
        forall|i: int| 0 <= i < 7 ==> !(#[trigger] row_fields(entry)[i]).contains(c),
{
    let f = row_fields(entry);
    assert(f[0] == quoted(entry.name));
    assert(f[1] == amount_text(entry.profit as int));
    assert(f[2] == amount_text(entry.expenses as int));
    assert(f[3] == amount_text(entry.balance()));
    assert(f[4] == quoted(days_field(entry.contract_type)));
    assert(f[5] == quoted(date_field(entry.contract_type)));
    assert(f[6] == quoted(entry.description));
    lemma_quoted_plain_excludes(entry.name, c);
    lemma_amount_text_excludes(entry.profit as int, c);
    lemma_amount_text_excludes(entry.expenses as int, c);
    lemma_amount_text_excludes(entry.balance(), c);
    lemma_days_field_excludes(entry.contract_type, c);
    lemma_date_field_excludes(entry.contract_type, c);
    lemma_quoted_plain_excludes(entry.description, c);
}

/// The text of an amount has no quote at either end.
pub proof fn lemma_amount_text_bare(v: int)
    ensures
        strip_quotes(amount_text(v)) == amount_text(v),
{
    lemma_amount_text_chars(v);
    let t = amount_text(v);
    assert(is_numeric_char(t[0]));
    assert(is_numeric_char(t.last()));
}

/// What is read back from the two fields of a contract: a rental as it
/// was, where the text of its date is read back as that date; a daily
/// contract of zero days as no contract; and no contract as a daily contract
/// of zero days.
pub proof fn lemma_contract_read_back(contract: ContractType)
    requires
        contract.is_rental() ==> date_reads_back(contract),
    ensures
        contract.is_rental() ==> reread_contract(contract) == contract,
        contract matches ContractType::Daily { days_rented: 0, .. } ==> reread_contract(contract)
            == ContractType::NoContract,
        contract == ContractType::NoContract ==> reread_contract(contract) matches ContractType::Daily {
            days_rented: 0,
            ..
        },
        reread_contract(contract).is_rental() == contract.is_rental(),
        reread_contract(contract).normalized() == contract.normalized(),
{
    match contract {
        ContractType::Daily { days_rented, registration_date } => {
            lemma_count_read_back(days_rented);
            let text = decimal(days_rented as nat);
            lemma_decimal(days_rented as nat);
            if days_rented == 0 {
                assert(text == zero_days());
            } else {
                assert(zero_days().drop_last() == Seq::<char>::empty());
                assert(digits_value(zero_days()) == 0) by {
                    assert(digits_value(zero_days().drop_last()) == 0);
                }
                assert(text != zero_days());
            }
        },
        ContractType::NoContract => {
            lemma_no_contract_label();
            let label = no_contract_label();
            assert(label[0] == 'N');
            assert(!is_digit(label[0]));
            assert(!all_digits(label));
            assert(label.len() == 6);
            assert(label != zero_days());
        },
    }
}

/// The row of an entry with plain name and description is read back as that
/// entry, with the contract that is read from its two fields.
pub proof fn lemma_row_read_back(entry: EntryView)
    requires
        is_plain(entry.name),
        is_plain(entry.description),
    ensures
        row_of(row_text(entry)) == Some(reread(entry)),
{
    let f = row_fields(entry);
    lemma_row_fields_exclude(entry, ';');
    lemma_split_joined(f, ';');
    assert(split_on(row_text(entry), ';') == f);
    lemma_strip_quoted(entry.name);
    lemma_strip_quoted(entry.description);
    lemma_strip_quoted(days_field(entry.contract_type));
    lemma_strip_quoted(date_field(entry.contract_type));
    lemma_amount_text_bare(entry.profit as int);
    lemma_amount_text_bare(entry.expenses as int);
    lemma_amount_read_back(entry.profit);
    lemma_amount_read_back(entry.expenses);
    assert(amount_or_zero(strip_quotes(f[1])) == entry.profit);
    assert(amount_or_zero(strip_quotes(f[2])) == entry.expenses);
}

/// The row of an entry with plain name and description is one line, and it
/// ends with a quote.
pub proof fn lemma_row_is_one_line(entry: EntryView)
    requires
        is_plain(entry.name),
        is_plain(entry.description),
    ensures
        !row_text(entry).contains('\n'),
        strip_cr(row_text(entry)) == row_text(entry),
{
    lemma_row_fields_exclude(entry, '\n');
    lemma_join_excludes(row_fields(entry), ';', '\n');
    let fields = row_fields(entry);
    assert(fields.last() == quoted(entry.description));
    assert(quoted(entry.description).last() == '"');
    lemma_join_last(fields, ';');
}

/// The rows of entries with plain names and descriptions are read back as
/// those entries, each with the contract that is read from its two fields.
pub proof fn lemma_rows_read_back(entries: Seq<EntryView>)
    requires
        all_plain(entries),
    ensures
        rows_of(row_texts(entries)) == reread_all(entries),
    decreases entries.len(),
{
    if entries.len() == 0 {
        assert(row_texts(entries) == Seq::<Seq<char>>::empty());
        assert(reread_all(entries) == Seq::<EntryView>::empty());
    } else {
        let front = entries.drop_last();
        assert forall|i: int| 0 <= i < front.len() implies is_plain((#[trigger] front[i]).name)
            && is_plain(front[i].description) by {
            assert(front[i] == entries[i]);
        }
        lemma_rows_read_back(front);
        lemma_row_read_back(entries.last());
        assert(row_texts(entries).drop_last() == row_texts(front));
        assert(row_texts(entries).last() == row_text(entries.last()));
        assert(reread_all(front).push(reread(entries.last())) == reread_all(entries));
    }
}

/// The lines of the text of a ledger are its header and its rows.
pub proof fn lemma_lines_of_encoded(entries: Seq<EntryView>)
    requires
        all_plain(entries),
    ensures
        lines_of(encoded(entries)) == seq![strip_cr(header())] + row_texts(entries),
{
    let all = seq![header()] + row_texts(entries);
    lemma_header_is_one_line();
    assert forall|i: int| 0 <= i < all.len() implies !(#[trigger] all[i]).contains('\n') by {
        if i > 0 {
            assert(all[i] == row_text(entries[i - 1]));
            lemma_row_is_one_line(entries[i - 1]);
        }
    }
    lemma_split_joined(all, '\n');
    let body = join(all, '\n');
    let text = encoded(entries);
    assert(text.drop_last() == body);
    assert(text.last() == '\n');
    let parts = split_on(text, '\n');
    assert(parts == all.push(Seq::<char>::empty()));
    let ended = Seq::new((parts.len() - 1) as nat, |i: int| strip_cr(parts[i]));
    assert(lines_of(text) == ended);
    assert forall|i: int| 0 <= i < ended.len() implies ended[i] == (seq![strip_cr(header())]
        + row_texts(entries))[i] by {
        if i > 0 {
            assert(parts[i] == row_text(entries[i - 1]));
            lemma_row_is_one_line(entries[i - 1]);
        }
    }
    assert(ended =~= seq![strip_cr(header())] + row_texts(entries));
}

/// Reading what was written, where no name or description has a semicolon
/// or a line feed in it, gives as many entries as were written, in the same
/// order, each with its name, its description and its amounts, and with the
/// contract that is read from its two fields.
pub proof fn lemma_decode_of_encode(entries: Seq<EntryView>)
    requires
        all_plain(entries),
    ensures
        decoded(encoded(entries)) == reread_all(entries),
{
    lemma_lines_of_encoded(entries);
    lemma_rows_read_back(entries);
    let all = lines_of(encoded(entries));
    assert(all.drop_first() == row_texts(entries));
}

/// Reading what was written gives the entries back: as many as were
/// written, in the same order, each with its name, its description and its
/// amounts. An entry with a rental is read back as it was, day count and
/// date included. An entry without one is read back without one: a daily
/// contract of zero days as no contract, and no contract as a daily contract
/// of zero days. It holds where no name or description has a semicolon or a
/// line feed in it, and the text of the date of every rental is read back as
/// that date, which `Date::to_iso` and `encode` establish.
pub proof fn lemma_decode_inverts_encode(entries: Seq<EntryView>)
    requires
        all_plain(entries),
        rentals_read_back(entries),
    ensures
        decoded(encoded(entries)).len() == entries.len(),
        normalized_all(decoded(encoded(entries))) == normalized_all(entries),
        forall|i: int|
            0 <= i < entries.len() ==> {
                let read = #[trigger] decoded(encoded(entries))[i];
                &&& read.name == entries[i].name
                &&& read.description == entries[i].description
                &&& read.profit == entries[i].profit
                &&& read.expenses == entries[i].expenses
                &&& read.balance() == entries[i].balance()
                &&& read.contract_type.is_rental() == entries[i].contract_type.is_rental()
                &&& entries[i].contract_type.is_rental() ==> read == entries[i]
                &&& entries[i].contract_type matches ContractType::Daily { days_rented: 0, .. }
                    ==> read.contract_type == ContractType::NoContract
            },
{
    lemma_decode_of_encode(entries);
    let read = decoded(encoded(entries));
    assert forall|i: int| 0 <= i < entries.len() implies {
        &&& (#[trigger] read[i]) == reread(entries[i])
        &&& reread_contract(entries[i].contract_type).is_rental()
            == entries[i].contract_type.is_rental()
        &&& reread_contract(entries[i].contract_type).normalized()
            == entries[i].contract_type.normalized()
        &&& entries[i].contract_type.is_rental() ==> reread_contract(entries[i].contract_type)
            == entries[i].contract_type
        &&& entries[i].contract_type matches ContractType::Daily { days_rented: 0, .. }
            ==> reread_contract(entries[i].contract_type) == ContractType::NoContract
    } by {
        lemma_contract_read_back(entries[i].contract_type);
    }
    assert(normalized_all(read) =~= normalized_all(entries));
}

/// A line with seven fields or more whose second field writes no amount
/// holds an entry with a profit of zero.
pub proof fn lemma_unreadable_profit_is_zero(line: Seq<char>)
    requires
        split_on(line, ';').len() >= 7,
        amount_of(strip_quotes(split_on(line, ';')[1])) is None,
    ensures
        row_of(line) is Some,
        row_of(line)->0.profit == 0,
{
}

/// The entries of two runs of lines are the entries of the first run, then
/// those of the second.
pub proof fn lemma_rows_of_concat(a: Seq<Seq<char>>, b: Seq<Seq<char>>)
    ensures
        rows_of(a + b) == rows_of(a) + rows_of(b),
    decreases b.len(),
{
    if b.len() == 0 {
        assert(a + b == a);
        assert(rows_of(a) + rows_of(b) == rows_of(a));
    } else {
        lemma_rows_of_concat(a, b.drop_last());
        assert((a + b).drop_last() == a + b.drop_last());
        assert((a + b).last() == b.last());
        match row_of(b.last()) {
            Some(entry) => {
                assert((rows_of(a) + rows_of(b.drop_last())).push(entry) == rows_of(a) + rows_of(
                    b.drop_last(),
                ).push(entry));
            },
            None => {},
        }
    }
}

/// A line with fewer than seven fields adds no entry and changes none of
/// the entries before or after it.
pub proof fn lemma_short_row_is_skipped(before: Seq<Seq<char>>, line: Seq<char>, after: Seq<Seq<char>>)
    requires
        split_on(line, ';').len() < 7,
    ensures
        rows_of(before + seq![line] + after) == rows_of(before) + rows_of(after),
{
    lemma_rows_of_concat(before + seq![line], after);
    lemma_rows_of_concat(before, seq![line]);
    let single = seq![line];
    assert(single.drop_last() == Seq::<Seq<char>>::empty());
    assert(single.last() == line);
    assert(row_of(line) is None);
    assert(rows_of(single.drop_last()) == Seq::<EntryView>::empty());
    assert(rows_of(single) == Seq::<EntryView>::empty());
    assert(rows_of(before) + Seq::<EntryView>::empty() == rows_of(before));
}

} // verus!

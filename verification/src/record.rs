//! The mapping of one payment record to ledger rows.
//!
//! A payment that was funded from an outside account yields two rows: one
//! that books the funding against that account, and then the payment itself.
//! A payment out of the balance held with the payment service yields the
//! second row only.

use crate::money::decode_spec;
use crate::money::format_spec;
use crate::money::magnitude_of;
use crate::money::Money;
use crate::money::ParseError;
use chrono::naive::NaiveDate;
use chrono::naive::NaiveDateTime;
use vstd::prelude::*;
use vstd::std_specs::iter::IteratorSpec;
use vstd::string::StringExecFns;

verus! {

/// `chrono::naive::NaiveDateTime`, a date with a time of day and no time
/// zone; carried through as it is.
#[verifier::external_type_specification]
#[verifier::external_body]
pub struct ExNaiveDateTime(NaiveDateTime);

/// `chrono::naive::NaiveDate`, a calendar date; carried through as it is.
#[verifier::external_type_specification]
#[verifier::external_body]
pub struct ExNaiveDate(NaiveDate);

/// The calendar date that a timestamp falls on.
pub uninterp spec fn date_part(datetime: NaiveDateTime) -> NaiveDate;

/// Calls `NaiveDateTime::date`, which hands back the date component of the
/// timestamp and leaves out the time of day. The result is named
/// `date_part`; nothing more is claimed of it.
#[verifier::external_body]
fn date_of(datetime: &NaiveDateTime) -> (date: NaiveDate)
    ensures
        date == date_part(*datetime),
{
    datetime.date()
}

/// One payment as the payment service lists it, its amount still text.
#[derive(Debug, PartialEq, Eq)]
pub struct RawTransaction {
    pub id: u64,
    pub datetime: NaiveDateTime,
    pub kind: String,
    pub note: String,
    pub from: String,
    pub to: String,
    pub amount: String,
    pub funding_source: String,
    pub destination: String,
}

/// One payment as the payment service lists it.
#[derive(Debug, PartialEq, Eq)]
pub struct Transaction {
    pub id: u64,
    pub datetime: NaiveDateTime,
    /// The kind of the record; only `Payment` is told apart from the rest.
    pub kind: String,
    pub note: String,
    pub from: String,
    pub to: String,
    pub amount: Money,
    pub funding_source: String,
    pub destination: String,
}

/// One row of the ledger import.
#[derive(Debug, PartialEq, Eq)]
pub struct GnuCashTransaction {
    pub num: Option<u64>,
    pub date: NaiveDate,
    pub description: String,
    pub account: String,
    pub amount: String,
    pub notes: String,
}

/// A `RawTransaction` with its texts as sequences of characters.
pub struct RawTransactionView {
    pub id: u64,
    pub datetime: NaiveDateTime,
    pub kind: Seq<char>,
    pub note: Seq<char>,
    pub from: Seq<char>,
    pub to: Seq<char>,
    pub amount: Seq<char>,
    pub funding_source: Seq<char>,
    pub destination: Seq<char>,
}

/// A `Transaction` with its texts as sequences of characters.
pub struct TransactionView {
    pub id: u64,
    pub datetime: NaiveDateTime,
    pub kind: Seq<char>,
    pub note: Seq<char>,
    pub from: Seq<char>,
    pub to: Seq<char>,
    pub amount: Money,
    pub funding_source: Seq<char>,
    pub destination: Seq<char>,
}

/// A `GnuCashTransaction` with its texts as sequences of characters.
pub struct GnuCashTransactionView {
    pub num: Option<u64>,
    pub date: NaiveDate,
    pub description: Seq<char>,
    pub account: Seq<char>,
    pub amount: Seq<char>,
    pub notes: Seq<char>,
}

impl View for RawTransaction {
    type V = RawTransactionView;

    open spec fn view(&self) -> RawTransactionView {
        RawTransactionView {
            id: self.id,
            datetime: self.datetime,
            kind: self.kind@,
            note: self.note@,
            from: self.from@,
            to: self.to@,
            amount: self.amount@,
            funding_source: self.funding_source@,
            destination: self.destination@,
        }
    }
}

impl View for Transaction {
    type V = TransactionView;

    open spec fn view(&self) -> TransactionView {
        TransactionView {
            id: self.id,
            datetime: self.datetime,
            kind: self.kind@,
            note: self.note@,
            from: self.from@,
            to: self.to@,
            amount: self.amount,
            funding_source: self.funding_source@,
            destination: self.destination@,
        }
    }
}

impl View for GnuCashTransaction {
    type V = GnuCashTransactionView;

    open spec fn view(&self) -> GnuCashTransactionView {
        GnuCashTransactionView {
            num: self.num,
            date: self.date,
            description: self.description@,
            account: self.account@,
            amount: self.amount@,
            notes: self.notes@,
        }
    }
}

/// Whether `account` names the balance held with the payment service.
pub open spec fn is_balance(account: Seq<char>) -> bool {
    account == "Venmo balance"@
}

/// Whether `account` names no outside account: it is the balance, or empty.
pub open spec fn is_internal(account: Seq<char>) -> bool {
    is_balance(account) || account.len() == 0
}

impl RawTransactionView {
    /// The record with its amount decoded to `amount`.
    pub open spec fn with_amount(self, amount: Money) -> TransactionView {
        TransactionView {
            id: self.id,
            datetime: self.datetime,
            kind: self.kind,
            note: self.note,
            from: self.from,
            to: self.to,
            amount: amount,
            funding_source: self.funding_source,
            destination: self.destination,
        }
    }

    /// The record with its amount decoded, or why the amount is none.
    pub open spec fn decoded(self) -> Result<TransactionView, ParseError> {
        match decode_spec(self.amount) {
            Ok(amount) => Ok(self.with_amount(amount)),
            Err(e) => Err(e),
        }
    }

    /// The ledger rows of the record: those of the decoded record, and none
    /// where its amount does not decode.
    pub open spec fn rows(self) -> Seq<GnuCashTransactionView> {
        match self.decoded() {
            Ok(record) => record.rows(),
            Err(_) => Seq::empty(),
        }
    }
}

impl TransactionView {
    /// The row that books the funding of the payment against the account it
    /// came from; none where the payment came out of the balance.
    pub open spec fn funding_row(self) -> Option<GnuCashTransactionView> {
        if is_internal(self.funding_source) {
            None
        } else {
            Some(
                GnuCashTransactionView {
                    num: None,
                    date: date_part(self.datetime),
                    description: "VENMO PAYMENT"@,
                    account: self.funding_source,
                    amount: format_spec(magnitude_of(self.amount.0 as int) as int),
                    notes: Seq::empty(),
                },
            )
        }
    }

    /// The ledger account of the payment's row.
    pub open spec fn account(self) -> Seq<char> {
        if is_internal(self.destination) {
            "Other"@
        } else {
            self.destination
        }
    }

    /// Whether the other party of the payment is its sender: it is for a
    /// `Payment` that is not negative, and for any other kind that is.
    pub open spec fn from_counterparty(self) -> bool {
        (self.amount.0 >= 0) == (self.kind == "Payment"@)
    }

    /// The other party of the payment.
    pub open spec fn counterparty(self) -> Seq<char> {
        if self.from_counterparty() {
            self.from
        } else {
            self.to
        }
    }

    /// The description of the payment's row: the note where the balance is
    /// at either end of the payment, a fixed text where it is at neither.
    pub open spec fn description(self) -> Seq<char> {
        if is_balance(self.destination) || is_balance(self.funding_source) {
            self.note
        } else {
            "VENMO CASHOUT"@
        }
    }

    /// The row of the payment itself.
    pub open spec fn payment_row(self) -> GnuCashTransactionView {
        GnuCashTransactionView {
            num: Some(self.id),
            date: date_part(self.datetime),
            description: self.description(),
            account: self.account(),
            amount: format_spec(self.amount.0 as int),
            notes: self.counterparty(),
        }
    }

    /// The ledger rows of the record, in the order in which they are
    /// written: the funding row, where there is one, and the payment row.
    pub open spec fn rows(self) -> Seq<GnuCashTransactionView> {
        match self.funding_row() {
            Some(row) => seq![row, self.payment_row()],
            None => seq![self.payment_row()],
        }
    }
}

/// The views of the rows in `rows`, in order.
pub open spec fn row_views(rows: Seq<GnuCashTransaction>) -> Seq<GnuCashTransactionView> {
    rows.map_values(|row: GnuCashTransaction| row@)
}

/// Whether `text` reads exactly as `word`.
fn reads(text: &str, word: &str) -> (r: bool)
    ensures
        r == (text@ == word@),
{
    let mut left = text.chars();
    let mut right = word.chars();
    let ghost mut seen: int = 0;
    assert(left.remaining() =~= text@.skip(0));
    assert(right.remaining() =~= word@.skip(0));
    loop
        invariant
            0 <= seen <= text@.len(),
            seen <= word@.len(),
            left.remaining() == text@.skip(seen),
            right.remaining() == word@.skip(seen),
            text@.take(seen) == word@.take(seen),
        decreases text@.len() - seen,
    {
        let a = left.next();
        let b = right.next();
        match (a, b) {
            (None, None) => {
                proof {
                    assert(text@.take(seen) =~= text@);
                    assert(word@.take(seen) =~= word@);
                }
                return true;
            },
            (Some(x), Some(y)) => {
                if x != y {
                    assert(text@[seen] != word@[seen]);
                    return false;
                }
                proof {
                    assert(text@.skip(seen).drop_first() =~= text@.skip(seen + 1));
                    assert(word@.skip(seen).drop_first() =~= word@.skip(seen + 1));
                    assert(text@.take(seen + 1) =~= text@.take(seen).push(text@[seen]));
                    assert(word@.take(seen + 1) =~= word@.take(seen).push(word@[seen]));
                    seen = seen + 1;
                }
            },
            _ => {
                assert(text@.len() != word@.len());
                return false;
            },
        }
    }
}

/// Whether `account` names no outside account.
fn names_no_outside_account(account: &String) -> (r: bool)
    ensures
        r == is_internal(account@),
{
    reads(account.as_str(), "Venmo balance") || account.as_str().is_empty()
}

impl RawTransaction {
    /// Decodes the amount of the record and keeps every other field.
    pub fn decode(self) -> (r: Result<Transaction, ParseError>)
        ensures
            match r {
                Ok(record) => self@.decoded() == Ok::<TransactionView, ParseError>(record@),
                Err(e) => self@.decoded() == Err::<TransactionView, ParseError>(e),
            },
    {
        match Money::decode(self.amount.as_str()) {
            Ok(amount) => Ok(
                Transaction {
                    id: self.id,
                    datetime: self.datetime,
                    kind: self.kind,
                    note: self.note,
                    from: self.from,
                    to: self.to,
                    amount,
                    funding_source: self.funding_source,
                    destination: self.destination,
                },
            ),
            Err(e) => Err(e),
        }
    }

    /// The ledger rows of the record. A record whose amount does not decode
    /// has none.
    pub fn convert(self) -> (rows: Vec<GnuCashTransaction>)
        ensures
            row_views(rows@) == self@.rows(),
    {
        match self.decode() {
            Ok(record) => record.map_record(),
            Err(_) => {
                let rows: Vec<GnuCashTransaction> = Vec::new();
                assert(row_views(rows@) =~= Seq::empty());
                rows
            },
        }
    }
}

impl Transaction {
    /// The row that books the funding of the payment, where an outside
    /// account funded it.
    pub fn funding_row(&self) -> (row: Option<GnuCashTransaction>)
        ensures
            match row {
                Some(r) => self@.funding_row() == Some(r@),
                None => self@.funding_row() is None,
            },
    {
        if names_no_outside_account(&self.funding_source) {
            None
        } else {
            let mut amount = String::new();
            crate::money::append_magnitude(self.amount.magnitude(), &mut amount);
            Some(
                GnuCashTransaction {
                    num: None,
                    date: date_of(&self.datetime),
                    description: String::from_str("VENMO PAYMENT"),
                    account: self.funding_source.clone(),
                    amount,
                    notes: String::new(),
                },
            )
        }
    }

    /// The ledger account of the payment's row.
    pub fn account(&self) -> (account: String)
        ensures
            account@ == self@.account(),
    {
        if names_no_outside_account(&self.destination) {
            String::from_str("Other")
        } else {
            self.destination.clone()
        }
    }

    /// The other party of the payment.
    pub fn counterparty(&self) -> (party: &String)
        ensures
            party@ == self@.counterparty(),
    {
        if (self.amount.0 >= 0) == reads(self.kind.as_str(), "Payment") {
            &self.from
        } else {
            &self.to
        }
    }

    /// The description of the payment's row.
    pub fn description(&self) -> (description: String)
        ensures
            description@ == self@.description(),
    {
        if reads(self.destination.as_str(), "Venmo balance") || reads(
            self.funding_source.as_str(),
            "Venmo balance",
        ) {
            self.note.clone()
        } else {
            String::from_str("VENMO CASHOUT")
        }
    }

    /// The row of the payment itself.
    pub fn payment_row(&self) -> (row: GnuCashTransaction)
        ensures
            row@ == self@.payment_row(),
    {
        GnuCashTransaction {
            num: Some(self.id),
            date: date_of(&self.datetime),
            description: self.description(),
            account: self.account(),
            amount: self.amount.to_string(),
            notes: self.counterparty().clone(),
        }
    }

    /// The ledger rows of the record, in the order in which they are to be
    /// written.
    pub fn map_record(&self) -> (rows: Vec<GnuCashTransaction>)
        ensures
            row_views(rows@) == self@.rows(),
            1 <= rows@.len() <= 2,
            rows@.last()@ == self@.payment_row(),
    {
        let mut rows: Vec<GnuCashTransaction> = Vec::new();
        match self.funding_row() {
            Some(row) => {
                rows.push(row);
            },
            None => {},
        }
        rows.push(self.payment_row());
        assert(row_views(rows@) =~= self@.rows());
        rows
    }
}

} // verus!

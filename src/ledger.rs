//! Turns one CSV row into a transaction, a transaction into ledger text, and
//! a run of rows into the ledger.
use crate::amount::{amount_text, decimal_of, negated, parse_amount, Amount};
use crate::config::{rule_model, RuleTable, Settings};
use crate::date::{date_in_text, iso_text, parse_date, Date};
use vstd::prelude::*;
use vstd::string::StringExecFns;

verus! {

/// One transaction, ready to be written: the processing account receives
/// `magnitude`, the other account its negation.
pub struct Transaction {
    pub date: Date,
    pub description: String,
    pub processing_account: String,
    pub other_account: String,
    pub currency: String,
    pub magnitude: Amount,
    pub info: Option<String>,
}

/// Why a row could not become a transaction.
#[derive(Debug, PartialEq, Eq)]
pub enum RowError {
    /// The row has `width` fields and lacks the configured `column`.
    IndexOutOfRange { column: usize, width: usize },
    /// The date field does not match the date pattern.
    BadDate { text: String },
    /// Neither amount field holds a number.
    UnparsableAmount { description: String },
}

/// The first configured column, in the order description, date, amount in,
/// amount out, that a row of `width` fields lacks.
pub open spec fn missing_column(s: Settings, width: int) -> Option<usize> {
    if s.description >= width {
        Some(s.description)
    } else if s.date >= width {
        Some(s.date)
    } else if s.amount_in >= width {
        Some(s.amount_in)
    } else if s.amount_out >= width {
        Some(s.amount_out)
    } else {
        None
    }
}

/// The signed magnitude: the amount in as it stands, else the amount out
/// negated; the sign toggle inverts either.
pub open spec fn resolved_amount(toggle: bool, inflow: Seq<char>, outflow: Seq<char>) -> Option<
    (bool, Seq<char>, Seq<char>),
> {
    match decimal_of(inflow) {
        Some(a) => Some(if toggle { negated(a) } else { a }),
        None => match decimal_of(outflow) {
            Some(a) => Some(if toggle { a } else { negated(a) }),
            None => None,
        },
    }
}

/// The account that balances the transaction: the rule's, else the default.
pub open spec fn other_account(
    rules: Map<Seq<char>, (Option<Seq<char>>, Option<Seq<char>>)>,
    default: Seq<char>,
    description: Seq<char>,
) -> Seq<char> {
    if rules.contains_key(description) && rules[description].0 is Some {
        rules[description].0->Some_0
    } else {
        default
    }
}

/// The memo of the rule for the description, if any.
pub open spec fn memo(
    rules: Map<Seq<char>, (Option<Seq<char>>, Option<Seq<char>>)>,
    description: Seq<char>,
) -> Option<Seq<char>> {
    if rules.contains_key(description) {
        rules[description].1
    } else {
        None
    }
}

/// What a row yields, given the date read from its date field: each error
/// exactly where it is due, else the transaction that the row describes.
pub open spec fn row_result(
    s: Settings,
    rules: Map<Seq<char>, (Option<Seq<char>>, Option<Seq<char>>)>,
    row: Seq<Seq<char>>,
    date: Option<Date>,
    r: Result<Transaction, RowError>,
) -> bool {
    match missing_column(s, row.len() as int) {
        Some(c) => r == Err::<Transaction, RowError>(
            RowError::IndexOutOfRange { column: c, width: row.len() as usize },
        ),
        None => match date {
            None => r matches Err(RowError::BadDate { text }) && text@ == row[s.date as int],
            Some(d) => {
                let description = row[s.description as int];
                match resolved_amount(
                    s.toggle_sign,
                    row[s.amount_in as int],
                    row[s.amount_out as int],
                ) {
                    None => r matches Err(RowError::UnparsableAmount { description: t })
                        && t@ == description,
                    Some(m) => r matches Ok(t) && t.date == d && t.description@ == description
                        && t.processing_account@ == s.processing_account@ && t.other_account@
                        == other_account(rules, s.default_account@, description) && t.currency@
                        == s.currency@ && t.magnitude@ == m && t.info.deep_view() == memo(
                        rules,
                        description,
                    ),
                }
            },
        },
    }
}

pub open spec fn date_of(d: Option<(i32, u32, u32)>) -> Option<Date> {
    match d {
        Some(t) => Some(Date { year: t.0, month: t.1, day: t.2 }),
        None => None,
    }
}

/// The date that the row's date field holds, where the row has that field.
pub open spec fn row_date(s: Settings, row: Seq<Seq<char>>) -> Option<Date> {
    if s.date < row.len() {
        date_of(date_in_text(row[s.date as int], s.date_format@))
    } else {
        None
    }
}

/// The text of one transaction:
/// `<date> * "<description>" ["<memo>"]`, then the two postings.
pub open spec fn record_text(
    date: Date,
    description: Seq<char>,
    info: Option<Seq<char>>,
    processing_account: Seq<char>,
    other_account: Seq<char>,
    currency: Seq<char>,
    m: (bool, Seq<char>, Seq<char>),
) -> Seq<char> {
    let memo_text = match info {
        Some(i) => seq![' ', '"'] + i + seq!['"'],
        None => Seq::<char>::empty(),
    };
    iso_text(date) + seq![' ', '*', ' ', '"'] + description + seq!['"'] + memo_text + seq![
        '\n',
        ' ',
        ' ',
    ] + processing_account + seq![' '] + amount_text(m) + seq![' '] + currency + seq![
        '\n',
        ' ',
        ' ',
    ] + other_account + seq![' '] + amount_text(negated(m)) + seq![' '] + currency
}

/// The text that a row yields, where it yields a transaction.
pub open spec fn row_text(
    s: Settings,
    rules: Map<Seq<char>, (Option<Seq<char>>, Option<Seq<char>>)>,
    row: Seq<Seq<char>>,
) -> Option<Seq<char>> {
    let date = row_date(s, row);
    if missing_column(s, row.len() as int) is None && date is Some {
        let description = row[s.description as int];
        match resolved_amount(s.toggle_sign, row[s.amount_in as int], row[s.amount_out as int]) {
            Some(m) => Some(
                record_text(
                    date->Some_0,
                    description,
                    memo(rules, description),
                    s.processing_account@,
                    other_account(rules, s.default_account@, description),
                    s.currency@,
                    m,
                ),
            ),
            None => None,
        }
    } else {
        None
    }
}

fn copy_text(s: &String) -> (r: String)
    ensures
        r@ == s@,
{
    s.clone()
}

/// Maps a row to a transaction, given the date already read from its date
/// field (`None` where it could not be read).
pub fn map_row_with_date(
    settings: &Settings,
    rules: &RuleTable,
    row: &Vec<String>,
    date: Option<Date>,
) -> (r: Result<Transaction, RowError>)
    ensures
        row_result(*settings, rules@, row.deep_view(), date, r),
{
    let ghost rv = row.deep_view();
    let width = row.len();
    assert(rv.len() == width);
    if settings.description >= width {
        return Err(RowError::IndexOutOfRange { column: settings.description, width });
    }
    if settings.date >= width {
        return Err(RowError::IndexOutOfRange { column: settings.date, width });
    }
    if settings.amount_in >= width {
        return Err(RowError::IndexOutOfRange { column: settings.amount_in, width });
    }
    if settings.amount_out >= width {
        return Err(RowError::IndexOutOfRange { column: settings.amount_out, width });
    }
    assert(rv[settings.date as int] == row@[settings.date as int]@);
    assert(rv[settings.description as int] == row@[settings.description as int]@);
    assert(rv[settings.amount_in as int] == row@[settings.amount_in as int]@);
    assert(rv[settings.amount_out as int] == row@[settings.amount_out as int]@);
    let d = match date {
        Some(d) => d,
        None => return Err(RowError::BadDate { text: copy_text(&row[settings.date]) }),
    };
    let description = &row[settings.description];
    let magnitude = match parse_amount(row[settings.amount_in].as_str()) {
        Some(a) => if settings.toggle_sign {
            a.negate()
        } else {
            a
        },
        None => match parse_amount(row[settings.amount_out].as_str()) {
            Some(a) => if settings.toggle_sign {
                a
            } else {
                a.negate()
            },
            None => {
                return Err(RowError::UnparsableAmount { description: copy_text(description) });
            },
        },
    };
    let rule = rules.get(description.as_str());
    let other = match rule {
        Some(x) => match &x.account {
            Some(a) => copy_text(a),
            None => copy_text(&settings.default_account),
        },
        None => copy_text(&settings.default_account),
    };
    let info = match rule {
        Some(x) => match &x.info {
            Some(i) => Some(copy_text(i)),
            None => None,
        },
        None => None,
    };
    Ok(
        Transaction {
            date: d,
            description: copy_text(description),
            processing_account: copy_text(&settings.processing_account),
            other_account: other,
            currency: copy_text(&settings.currency),
            magnitude,
            info,
        },
    )
}

/// Maps a row to a transaction, reading its date with the date pattern.
pub fn map_row(settings: &Settings, rules: &RuleTable, row: &Vec<String>) -> (r: Result<
    Transaction,
    RowError,
>)
    ensures
        row_result(*settings, rules@, row.deep_view(), row_date(*settings, row.deep_view()), r),
{
    let ghost rv = row.deep_view();
    let date = if settings.date < row.len() {
        assert(rv[settings.date as int] == row@[settings.date as int]@);
        parse_date(row[settings.date].as_str(), settings.date_format.as_str())
    } else {
        None
    };
    map_row_with_date(settings, rules, row, date)
}

impl Transaction {
    /// The transaction as ledger text: a header line with the date, the
    /// description and the memo where there is one, then the two postings.
    pub fn render(&self) -> (r: String)
        ensures
            r@ == record_text(
                self.date,
                self.description@,
                self.info.deep_view(),
                self.processing_account@,
                self.other_account@,
                self.currency@,
                self.magnitude@,
            ),
    {
        proof {
            reveal_strlit(" * \"");
            reveal_strlit("\"");
            reveal_strlit(" \"");
            reveal_strlit("\n  ");
            reveal_strlit(" ");
        }
        let mut r = self.date.to_iso();
        r.append(" * \"");
        r.append(self.description.as_str());
        r.append("\"");
        let ghost head = r@;
        match &self.info {
            Some(i) => {
                r.append(" \"");
                r.append(i.as_str());
                r.append("\"");
                assert(r@ == head + (seq![' ', '"'] + i@ + seq!['"']));
            },
            None => {
                assert(r@ == head + Seq::<char>::empty());
            },
        }
        r.append("\n  ");
        r.append(self.processing_account.as_str());
        r.append(" ");
        r.append(self.magnitude.to_text().as_str());
        r.append(" ");
        r.append(self.currency.as_str());
        r.append("\n  ");
        r.append(self.other_account.as_str());
        r.append(" ");
        let counter = Amount {
            negative: !self.magnitude.negative,
            whole: copy_text(&self.magnitude.whole),
            fraction: copy_text(&self.magnitude.fraction),
        };
        r.append(counter.to_text().as_str());
        r.append(" ");
        r.append(self.currency.as_str());
        r
    }
}

/// The ledger that rows `from..to` yield, each transaction followed by a
/// line break and separated from the one before by a blank line.
pub open spec fn ledger_text(
    s: Settings,
    rules: Map<Seq<char>, (Option<Seq<char>>, Option<Seq<char>>)>,
    rows: Seq<Seq<Seq<char>>>,
    from: int,
    to: int,
) -> Seq<char>
    decreases to - from,
{
    if to <= from {
        Seq::<char>::empty()
    } else {
        let block = row_text(s, rules, rows[to - 1])->Some_0 + seq!['\n'];
        if to - 1 == from {
            block
        } else {
            ledger_text(s, rules, rows, from, to - 1) + seq!['\n'] + block
        }
    }
}

/// Where a run stopped: the index of the first row that yields no
/// transaction, among all the rows read, and why.
pub struct RowFailure {
    pub index: usize,
    pub error: RowError,
}

/// The index of the first row converted: `skip`, or the end where there
/// are no more rows than that.
pub open spec fn first_row(s: Settings, rows: Seq<Seq<Seq<char>>>) -> int {
    if s.skip < rows.len() {
        s.skip as int
    } else {
        rows.len() as int
    }
}

/// What a run over `rows` yields: the text of every row from the first one
/// kept on, up to the first that fails, which is reported.
pub open spec fn converted(
    s: Settings,
    rules: Map<Seq<char>, (Option<Seq<char>>, Option<Seq<char>>)>,
    rows: Seq<Seq<Seq<char>>>,
    output: Seq<char>,
    failure: Option<RowFailure>,
) -> bool {
    let start = first_row(s, rows);
    match failure {
        None => (forall|i: int| start <= i < rows.len() ==> row_text(s, rules, rows[i]) is Some)
            && output == ledger_text(s, rules, rows, start, rows.len() as int),
        Some(f) => start <= f.index < rows.len() && (forall|i: int|
            start <= i < f.index ==> row_text(s, rules, rows[i]) is Some) && row_text(
            s,
            rules,
            rows[f.index as int],
        ) is None && row_result(
            s,
            rules,
            rows[f.index as int],
            row_date(s, rows[f.index as int]),
            Err(f.error),
        ) && output == ledger_text(s, rules, rows, start, f.index as int),
    }
}

/// Converts the rows that follow the first `skip` ones, in order, and stops
/// at the first that fails. The text of the rows before it is kept.
pub fn convert_rows(settings: &Settings, rules: &RuleTable, rows: &Vec<Vec<String>>) -> (r: (
    String,
    Option<RowFailure>,
))
    ensures
        converted(*settings, rules@, rows.deep_view(), r.0@, r.1),
{
    let ghost rv = rows.deep_view();
    let n = rows.len();
    let start = if settings.skip < n { settings.skip } else { n };
    let mut out = String::new();
    let mut i: usize = start;
    proof {
        reveal_strlit("\n");
    }
    while i < n
        invariant
            n == rv.len(),
            rv == rows.deep_view(),
            start <= i <= n,
            start == if settings.skip < n { settings.skip } else { n },
            forall|j: int| start <= j < i ==> row_text(*settings, rules@, rv[j]) is Some,
            out@ == ledger_text(*settings, rules@, rv, start as int, i as int),
        decreases n - i,
    {
        assert(rv[i as int] == rows@[i as int].deep_view());
        match map_row(settings, rules, &rows[i]) {
            Ok(t) => {
                let text = t.render();
                assert(row_text(*settings, rules@, rv[i as int]) == Some(text@));
                if i > start {
                    out.append("\n");
                }
                out.append(text.as_str());
                out.append("\n");
                proof {
                    reveal_strlit("\n");
                }
            },
            Err(e) => {
                proof {
                    let row = rv[i as int];
                    if missing_column(*settings, row.len() as int) is None && row_date(*settings, row) is Some {
                        assert(resolved_amount(settings.toggle_sign, row[settings.amount_in as int], row[settings.amount_out as int]) is None);
                    }
                }
                return (out, Some(RowFailure { index: i, error: e }));
            },
        }
        i = i + 1;
    }
    (out, None)
}

/// What csv reads from `input` with this delimiter and no header row: the
/// rows, each a sequence of fields, or nothing where it reports an error.
pub uninterp spec fn csv_records(input: Seq<u8>, delimiter: u8) -> Option<Seq<Seq<Seq<char>>>>;

/// The error type of the csv crate.
#[verifier::external_type_specification]
#[verifier::external_body]
pub struct ExCsvError(csv::Error);

/// Relies on csv's `ReaderBuilder` (the given delimiter, no header row) and
/// its `records` iterator, collected up to the first error: what it returns
/// depends on the bytes and the delimiter alone.
#[verifier::external_body]
fn read_records(input: &[u8], delimiter: u8) -> (r: Result<Vec<Vec<String>>, csv::Error>)
    ensures
        match r {
            Ok(rows) => csv_records(input@, delimiter) == Some(rows.deep_view()),
            Err(_) => csv_records(input@, delimiter) is None,
        },
{
    let mut reader = csv::ReaderBuilder::new().delimiter(delimiter).has_headers(false).from_reader(
        input,
    );
    reader.records().map(|rec| rec.map(|fields| fields.iter().map(|f| f.to_owned()).collect())).collect()
}

/// Reads CSV text with the configured delimiter and converts its rows. An
/// error of the CSV reader comes back as it is.
pub fn convert(settings: &Settings, rules: &RuleTable, input: &[u8]) -> (r: Result<
    (String, Option<RowFailure>),
    csv::Error,
>)
    ensures
        match r {
            Ok(done) => csv_records(input@, settings.delimiter) matches Some(rows) && converted(
                *settings,
                rules@,
                rows,
                done.0@,
                done.1,
            ),
            Err(_) => csv_records(input@, settings.delimiter) is None,
        },
{
    let rows = read_records(input, settings.delimiter)?;
    Ok(convert_rows(settings, rules, &rows))
}

/// A run is determined by its inputs: two runs over the same rows with the
/// same settings and rules give the same text and stop at the same row.
pub proof fn lemma_conversion_deterministic(
    s: Settings,
    rules: Map<Seq<char>, (Option<Seq<char>>, Option<Seq<char>>)>,
    rows: Seq<Seq<Seq<char>>>,
    out1: Seq<char>,
    fail1: Option<RowFailure>,
    out2: Seq<char>,
    fail2: Option<RowFailure>,
)
    requires
        converted(s, rules, rows, out1, fail1),
        converted(s, rules, rows, out2, fail2),
    ensures
        out1 == out2,
        fail1 is Some <==> fail2 is Some,
        fail1 matches Some(f1) ==> fail2 matches Some(f2) && f1.index == f2.index,
{
    let start = first_row(s, rows);
    match (fail1, fail2) {
        (Some(f1), Some(f2)) => {
            if f1.index < f2.index {
                assert(row_text(s, rules, rows[f1.index as int]) is Some);
            } else if f2.index < f1.index {
                assert(row_text(s, rules, rows[f2.index as int]) is Some);
            }
        },
        (Some(f1), None) => {
            assert(row_text(s, rules, rows[f1.index as int]) is Some);
        },
        (None, Some(f2)) => {
            assert(row_text(s, rules, rows[f2.index as int]) is Some);
        },
        (None, None) => {},
    }
}

} // verus!

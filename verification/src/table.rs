//! The rows of the two output tables.
use crate::masking::MaskedData;
use crate::record::Data;
use crate::text::{lemma_texts_push, texts};
use vstd::prelude::*;

verus! {

/// The number of answer columns that the table of masked samples has.
pub const ANSWER_COLUMNS: usize = 8;

/// The character of a decimal digit.
pub open spec fn digit(d: nat) -> char {
    if d == 0 {
        '0'
    } else if d == 1 {
        '1'
    } else if d == 2 {
        '2'
    } else if d == 3 {
        '3'
    } else if d == 4 {
        '4'
    } else if d == 5 {
        '5'
    } else if d == 6 {
        '6'
    } else if d == 7 {
        '7'
    } else if d == 8 {
        '8'
    } else {
        '9'
    }
}

/// A number written in decimal digits, without leading zeros.
pub open spec fn decimal(n: nat) -> Seq<char>
    decreases n,
{
    if n < 10 {
        seq![digit(n)]
    } else {
        decimal(n / 10).push(digit(n % 10))
    }
}

/// The header of the table of records.
pub open spec fn record_header_cells() -> Seq<Seq<char>> {
    seq!["text"@, "abbr"@, "definition"@]
}

/// The row of a record: sentence, abbreviation, definition.
pub open spec fn record_cells(record: Data) -> Seq<Seq<char>> {
    seq![record.text@, record.abbr@, record.definition@]
}

/// The header of the table of masked samples: `text`, `label`, and the
/// numbers of the answer columns, from 1.
pub open spec fn masked_header_cells() -> Seq<Seq<char>> {
    seq!["text"@, "label"@] + Seq::new(ANSWER_COLUMNS as nat, |i: int| decimal((i + 1) as nat))
}

/// So many empty cells.
pub open spec fn blank_cells(count: int) -> Seq<Seq<char>> {
    Seq::new(
        if count > 0 {
            count as nat
        } else {
            0
        },
        |i: int| Seq::<char>::empty(),
    )
}

/// The row of a masked sample: the masked sentence, the position of the
/// right answer counted from 0, the candidates in order, and empty cells for
/// the answer columns that are left.
pub open spec fn masked_cells(sample: MaskedData) -> Seq<Seq<char>> {
    seq![sample.text@, decimal(sample.correct_answer_idx as nat)] + texts(sample.answers@)
        + blank_cells(ANSWER_COLUMNS - sample.answers.len())
}

/// The row of a sample with no more candidates than answer columns is as
/// wide as the header.
pub proof fn lemma_masked_row_width(sample: MaskedData)
    requires
        sample.answers.len() <= ANSWER_COLUMNS,
    ensures
        masked_cells(sample).len() == masked_header_cells().len(),
        masked_header_cells().len() == ANSWER_COLUMNS + 2,
{
}

fn digit_char(d: usize) -> (c: char)
    requires
        d < 10,
    ensures
        c == digit(d as nat),
{
    if d == 0 {
        '0'
    } else if d == 1 {
        '1'
    } else if d == 2 {
        '2'
    } else if d == 3 {
        '3'
    } else if d == 4 {
        '4'
    } else if d == 5 {
        '5'
    } else if d == 6 {
        '6'
    } else if d == 7 {
        '7'
    } else if d == 8 {
        '8'
    } else {
        '9'
    }
}

fn push_decimal(out: &mut String, n: usize)
    ensures
        final(out)@ == old(out)@ + decimal(n as nat),
    decreases n,
{
    if n >= 10 {
        push_decimal(out, n / 10);
    }
    out.push(digit_char(n % 10));
    assert(out@ =~= old(out)@ + decimal(n as nat));
}

/// Writes a number in decimal digits.
pub fn decimal_string(n: usize) -> (out: String)
    ensures
        out@ == decimal(n as nat),
{
    let mut out = String::new();
    push_decimal(&mut out, n);
    assert(out@ =~= decimal(n as nat));
    out
}

/// Gives the header of the table of records.
pub fn record_header() -> (row: Vec<String>)
    ensures
        texts(row@) == record_header_cells(),
{
    let mut row: Vec<String> = Vec::new();
    row.push("text".to_owned());
    row.push("abbr".to_owned());
    row.push("definition".to_owned());
    assert(texts(row@) =~= record_header_cells());
    row
}

/// Gives the row of a record.
pub fn record_row(record: &Data) -> (row: Vec<String>)
    ensures
        texts(row@) == record_cells(*record),
{
    let mut row: Vec<String> = Vec::new();
    row.push(record.text.clone());
    row.push(record.abbr.clone());
    row.push(record.definition.clone());
    assert(texts(row@) =~= record_cells(*record));
    row
}

/// Gives the header of the table of masked samples.
pub fn masked_header() -> (row: Vec<String>)
    ensures
        texts(row@) == masked_header_cells(),
{
    let ghost cells = masked_header_cells();
    let mut row: Vec<String> = Vec::new();
    row.push("text".to_owned());
    row.push("label".to_owned());
    assert(texts(row@) =~= cells.take(2));
    let mut column: usize = 0;
    while column < ANSWER_COLUMNS
        invariant
            column <= ANSWER_COLUMNS,
            cells == masked_header_cells(),
            texts(row@) == cells.take(column + 2),
        decreases ANSWER_COLUMNS - column,
    {
        let cell = decimal_string(column + 1);
        proof {
            lemma_texts_push(row@, cell);
            assert(cells.take(column + 3) =~= cells.take(column + 2).push(cell@));
        }
        row.push(cell);
        column += 1;
    }
    assert(cells.take(ANSWER_COLUMNS + 2) =~= cells);
    row
}

/// Gives the row of a masked sample.
pub fn masked_row(sample: &MaskedData) -> (row: Vec<String>)
    ensures
        texts(row@) == masked_cells(*sample),
{
    let ghost answers = texts(sample.answers@);
    let mut row: Vec<String> = Vec::new();
    row.push(sample.text.clone());
    row.push(decimal_string(sample.correct_answer_idx));
    let ghost head = texts(row@);
    assert(head =~= seq![sample.text@, decimal(sample.correct_answer_idx as nat)]);
    assert(head =~= head + answers.take(0));
    let mut i: usize = 0;
    while i < sample.answers.len()
        invariant
            i <= sample.answers.len(),
            answers == texts(sample.answers@),
            texts(row@) == head + answers.take(i as int),
        decreases sample.answers.len() - i,
    {
        let cell = sample.answers[i].clone();
        proof {
            lemma_texts_push(row@, cell);
            assert(head + answers.take(i + 1) =~= (head + answers.take(i as int)).push(cell@));
        }
        row.push(cell);
        i += 1;
    }
    assert(answers.take(sample.answers.len() as int) =~= answers);
    let ghost full = texts(row@);
    assert(full =~= full + blank_cells(0));
    let mut blanks: usize = 0;
    while i < ANSWER_COLUMNS
        invariant
            sample.answers.len() <= i,
            i <= ANSWER_COLUMNS || i == sample.answers.len(),
            blanks == i - sample.answers.len(),
            texts(row@) == full + blank_cells(blanks as int),
        decreases ANSWER_COLUMNS - i,
    {
        let cell = String::new();
        proof {
            lemma_texts_push(row@, cell);
            assert(full + blank_cells(blanks + 1) =~= (full + blank_cells(blanks as int)).push(
                cell@,
            ));
        }
        row.push(cell);
        i += 1;
        blanks += 1;
    }
    assert(blank_cells(blanks as int) =~= blank_cells(ANSWER_COLUMNS - sample.answers.len()));
    row
}

} // verus!

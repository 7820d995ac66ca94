//! Spreadsheets to CSV text: each sheet becomes a header line and the selected rows; lines
//! that a filter matches are left out.

use crate::error::ChonkitError;
use crate::parser::StringParseConfig;
use crate::parser_pdf::{filter_text, filtered_text};
use crate::text::{push_char, push_str};
use vstd::prelude::*;

verus! {

/// The sheets that `calamine` reads from the XLSX file `bytes`, each a name and rows of
/// formatted cells; `None` where the file cannot be opened.
pub uninterp spec fn xlsx_sheets(bytes: Seq<u8>) -> Option<Seq<(Seq<char>, Seq<Seq<Seq<char>>>)>>;

/// `calamine::Xlsx::new` over the bytes, then `Reader::worksheets`, with each cell formatted
/// by its `Display`: the sheets are named [xlsx_sheets]; the error where opening fails.
#[verifier::external_body]
fn read_xlsx_sheets(bytes: &[u8]) -> (res: Result<Vec<(String, Vec<Vec<String>>)>, calamine::XlsxError>)
    ensures
        match res {
            Ok(sheets) => xlsx_sheets(bytes@) == Some(sheets.deep_view()),
            Err(_) => xlsx_sheets(bytes@) is None,
        },
{
    let cursor = std::io::Cursor::new(bytes);
    let mut reader: calamine::Xlsx<_> = calamine::Reader::new(cursor)?;
    let sheets = calamine::Reader::worksheets(&mut reader);
    Ok(sheets.into_iter().map(|(name, range)| {
        let rows = range.rows().map(|row| row.iter().map(|c| c.to_string()).collect()).collect();
        (name, rows)
    }).collect())
}

/// `parts` with `sep` between consecutive parts.
pub open spec fn join(parts: Seq<Seq<char>>, sep: Seq<char>) -> Seq<char>
    decreases parts.len(),
{
    if parts.len() == 0 {
        seq![]
    } else if parts.len() == 1 {
        parts[0]
    } else {
        join(parts.drop_last(), sep) + sep + parts.last()
    }
}

/// A row as a CSV line: its cells joined by `','`.
pub open spec fn csv_row(row: Seq<Seq<char>>) -> Seq<char> {
    join(row, ","@)
}

/// The rows `rows[lo..hi]` as CSV lines, each followed by `'\n'`.
pub open spec fn csv_lines(rows: Seq<Seq<Seq<char>>>, lo: int, hi: int) -> Seq<char>
    decreases hi - lo,
{
    if hi <= lo {
        seq![]
    } else {
        csv_lines(rows, lo, hi - 1) + csv_row(rows[hi - 1]).push('\n')
    }
}

/// The CSV text of one sheet; `None` when the sheet has no rows.
///
/// The first row is the header. As a range, the data rows `start..=end` (counted from zero)
/// follow, each on its line. Otherwise the first `start` and the last `end` data rows are
/// skipped and the rest are joined by `'\n'`, with one `'\n'` after them.
pub open spec fn sheet_csv(config: StringParseConfig, rows: Seq<Seq<Seq<char>>>) -> Option<
    Seq<char>,
> {
    if rows.len() == 0 {
        None
    } else {
        let header = csv_row(rows[0]).push('\n');
        let data = rows.drop_first();
        if config.range {
            let hi: int = if config.end < data.len() {
                config.end + 1
            } else {
                data.len() as int
            };
            Some(header + csv_lines(data, config.start as int, hi))
        } else {
            let kept = if config.start <= data.len() {
                data.skip(config.start as int)
            } else {
                seq![]
            };
            let n: int = if config.end <= kept.len() {
                kept.len() - config.end
            } else {
                0
            };
            Some(header + join(kept.take(n).map_values(|r: Seq<Seq<char>>| csv_row(r)), "\n"@).push('\n'))
        }
    }
}

/// As a range, a sheet's CSV is its header line followed by exactly the data rows `start`
/// through `end` (counted from zero, as far as there are rows), one per line: with `end`
/// inside the sheet the lines are those of rows `start..=end`, with `end` past it those of
/// rows `start..`, and moving `end` one row further (still inside the sheet) adds exactly
/// the line of that row.
pub proof fn law_sheet_range_rows(config: StringParseConfig, rows: Seq<Seq<Seq<char>>>)
    requires
        config.range,
        rows.len() > 0,
    ensures
        config.end < rows.len() - 1 ==> sheet_csv(config, rows) == Some(
            csv_row(rows[0]).push('\n') + csv_lines(rows.drop_first(), config.start as int, config.end + 1),
        ),
        config.end >= rows.len() - 1 ==> sheet_csv(config, rows) == Some(
            csv_row(rows[0]).push('\n') + csv_lines(rows.drop_first(), config.start as int, rows.len() - 1),
        ),
        config.start <= config.end && config.end + 1 < rows.len() - 1 && config.end < usize::MAX
            ==> sheet_csv(StringParseConfig { end: (config.end + 1) as usize, ..config }, rows)
            == Some(sheet_csv(config, rows)->0 + csv_row(rows[config.end + 2]).push('\n')),
{
    let data = rows.drop_first();
    if config.start <= config.end && config.end + 1 < rows.len() - 1 && config.end < usize::MAX {
        assert(data[config.end + 1] == rows[config.end + 2]);
        let header = csv_row(rows[0]).push('\n');
        let lines = csv_lines(data, config.start as int, config.end + 1);
        assert(csv_lines(data, config.start as int, config.end + 2) == lines + csv_row(
            data[config.end + 1],
        ).push('\n'));
        assert(header + (lines + csv_row(data[config.end + 1]).push('\n')) =~= (header + lines)
            + csv_row(data[config.end + 1]).push('\n'));
    }
}

/// Not as a range, a sheet's CSV is its header line followed by the data rows left after
/// skipping the first `start` and the last `end` of them, joined by line breaks and ended by
/// one; when `start` and `end` together cover all data rows, only the header line and an
/// empty line are left.
pub proof fn law_sheet_skip_rows(config: StringParseConfig, rows: Seq<Seq<Seq<char>>>)
    requires
        !config.range,
        rows.len() > 0,
    ensures
        config.start + config.end <= rows.len() - 1 ==> sheet_csv(config, rows) == Some(
            csv_row(rows[0]).push('\n') + join(
                rows.subrange(1 + config.start, rows.len() - config.end).map_values(
                    |r: Seq<Seq<char>>| csv_row(r),
                ),
                "\n"@,
            ).push('\n'),
        ),
        config.start + config.end >= rows.len() - 1 ==> sheet_csv(config, rows) == Some(
            csv_row(rows[0]).push('\n').push('\n'),
        ),
{
    let data = rows.drop_first();
    let kept = if config.start <= data.len() {
        data.skip(config.start as int)
    } else {
        seq![]
    };
    let n: int = if config.end <= kept.len() {
        kept.len() - config.end
    } else {
        0
    };
    if config.start + config.end <= rows.len() - 1 {
        assert(kept.take(n) =~= rows.subrange(1 + config.start, rows.len() - config.end));
    } else {
        assert(kept.take(n).map_values(|r: Seq<Seq<char>>| csv_row(r)) =~= Seq::<Seq<char>>::empty());
        assert(join(Seq::<Seq<char>>::empty(), "\n"@) == Seq::<char>::empty());
        assert(csv_row(rows[0]).push('\n') + Seq::<char>::empty().push('\n') =~= csv_row(rows[0]).push(
            '\n',
        ).push('\n'));
    }
}

/// The CSV texts of the sheets; `None` when one of them has no rows.
pub open spec fn sheets_csv(
    config: StringParseConfig,
    sheets: Seq<(Seq<char>, Seq<Seq<Seq<char>>>)>,
) -> Option<Seq<Seq<char>>>
    decreases sheets.len(),
{
    if sheets.len() == 0 {
        Some(seq![])
    } else {
        match sheets_csv(config, sheets.drop_last()) {
            None => None,
            Some(done) => {
                match sheet_csv(config, sheets.last().1) {
                    Some(csv) => Some(done.push(csv)),
                    None => None,
                }
            },
        }
    }
}

/// The text read from the sheets: their CSV texts separated by an empty line, with the
/// lines that the filters match left out.
pub open spec fn excel_text(
    config: StringParseConfig,
    sheets: Seq<(Seq<char>, Seq<Seq<Seq<char>>>)>,
) -> Option<Seq<char>> {
    match sheets_csv(config, sheets) {
        Some(csvs) => Some(filtered_text(config.filters.deep_view(), join(csvs, "\n\n"@))),
        None => None,
    }
}

fn push_row(out: &mut String, row: &Vec<String>)
    ensures
        final(out)@ == old(out)@ + csv_row(row.deep_view()),
{
    let ghost rv = row.deep_view();
    let ghost start = out@;
    let mut i: usize = 0;
    assert(rv.take(0) =~= Seq::<Seq<char>>::empty());
    assert(start + csv_row(rv.take(0)) =~= start);
    while i < row.len()
        invariant
            i <= row@.len() == rv.len(),
            rv == row.deep_view(),
            out@ == start + csv_row(rv.take(i as int)),
        decreases row.len() - i,
    {
        let ghost before = out@;
        if i > 0 {
            push_str(out, ",");
        }
        push_str(out, row[i].as_str());
        assert(rv.take(i + 1).drop_last() =~= rv.take(i as int));
        assert(rv.take(i + 1).last() == row@[i as int]@);
        proof {
            if i == 0 {
                assert(csv_row(rv.take(1)) == rv.take(1)[0]);
                assert(out@ =~= start + csv_row(rv.take(1)));
            } else {
                assert(out@ =~= start + (csv_row(rv.take(i as int)) + ","@ + rv[i as int]));
            }
        }
        i = i + 1;
    }
    assert(rv.take(row@.len() as int) =~= rv);
}

/// The CSV text of one sheet's rows.
pub fn sheet_to_csv(config: &StringParseConfig, rows: &Vec<Vec<String>>) -> (res: Option<String>)
    ensures
        match sheet_csv(*config, rows.deep_view()) {
            Some(s) => res matches Some(r) && r@ == s,
            None => res is None,
        },
{
    let ghost rv = rows.deep_view();
    if rows.len() == 0 {
        return None;
    }
    let mut csv = String::new();
    push_row(&mut csv, &rows[0]);
    push_char(&mut csv, '\n');
    let ghost header = csv@;
    assert(rv[0] == rows@[0].deep_view());
    assert(header =~= csv_row(rv[0]).push('\n'));
    let ghost data = rv.drop_first();
    let n = rows.len() - 1;
    if config.range {
        let hi = if config.end < n {
            config.end + 1
        } else {
            n
        };
        let mut i = config.start;
        while i < hi
            invariant
                config.start <= i,
                hi <= n == data.len(),
                n + 1 == rows@.len() == rv.len(),
                config.start < hi ==> i <= hi,
                hi <= config.start ==> i == config.start,
                rv == rows.deep_view(),
                data == rv.drop_first(),
                csv@ == header + csv_lines(data, config.start as int, i as int),
            decreases hi - i,
        {
            assert(data[i as int] == rows@[i + 1].deep_view());
            push_row(&mut csv, &rows[i + 1]);
            push_char(&mut csv, '\n');
            i = i + 1;
            assert(csv@ =~= header + csv_lines(data, config.start as int, i as int));
        }
        proof {
            if hi <= config.start {
                assert(csv_lines(data, config.start as int, hi as int) == Seq::<char>::empty());
            }
            assert(rv.len() > 0);
        }
        Some(csv)
    } else {
        let lo = if config.start <= n {
            config.start
        } else {
            n
        };
        let kept = n - lo;
        let count = if config.end <= kept {
            kept - config.end
        } else {
            0
        };
        let ghost kept_rows = if config.start <= data.len() {
            data.skip(config.start as int)
        } else {
            seq![]
        };
        assert(kept_rows =~= data.skip(lo as int));
        assert(kept_rows.len() == kept);
        let ghost lines_seq = kept_rows.take(count as int).map_values(|r: Seq<Seq<char>>| csv_row(r));
        let mut j: usize = 0;
        while j < count
            invariant
                j <= count <= kept == kept_rows.len(),
                lo + kept == n == data.len(),
                n + 1 == rows@.len() == rv.len(),
                rv == rows.deep_view(),
                data == rv.drop_first(),
                kept_rows == data.skip(lo as int),
                lines_seq == kept_rows.take(count as int).map_values(|r: Seq<Seq<char>>| csv_row(r)),
                csv@ == header + join(lines_seq.take(j as int), "\n"@),
            decreases count - j,
        {
            assert(kept_rows[j as int] == rows@[lo + j + 1].deep_view());
            if j > 0 {
                push_str(&mut csv, "\n");
            }
            push_row(&mut csv, &rows[lo + j + 1]);
            assert(lines_seq.take(j + 1).drop_last() =~= lines_seq.take(j as int));
            assert(lines_seq.take(j + 1).last() == csv_row(kept_rows[j as int]));
            proof {
                if j == 0 {
                    assert(join(lines_seq.take(1), "\n"@) == lines_seq.take(1)[0]);
                    assert(csv@ =~= header + join(lines_seq.take(1), "\n"@));
                } else {
                    assert(csv@ =~= header + join(lines_seq.take(j + 1), "\n"@));
                }
            }
            j = j + 1;
        }
        assert(lines_seq.take(count as int) =~= lines_seq);
        push_char(&mut csv, '\n');
        Some(csv)
    }
}

/// Read the sheets of a spreadsheet as CSV text, leaving out the lines that the filters
/// match.
pub fn sheets_to_text(config: &StringParseConfig, sheets: &Vec<(String, Vec<Vec<String>>)>) -> (res:
    Result<String, ChonkitError>)
    ensures
        match excel_text(*config, sheets.deep_view()) {
            Some(s) => res matches Ok(r) && r@ == s,
            None => res matches Err(ChonkitError::InvalidFile(_)),
        },
{
    let ghost sv = sheets.deep_view();
    let mut csvs: Vec<String> = Vec::new();
    let mut i: usize = 0;
    assert(sv.take(0) =~= Seq::<(Seq<char>, Seq<Seq<Seq<char>>>)>::empty());
    assert(csvs.deep_view() =~= Seq::<Seq<char>>::empty());
    while i < sheets.len()
        invariant
            i <= sheets@.len() == sv.len(),
            sv == sheets.deep_view(),
            sheets_csv(*config, sv.take(i as int)) == Some(csvs.deep_view()),
        decreases sheets.len() - i,
    {
        assert(sv.take(i + 1).drop_last() =~= sv.take(i as int));
        assert(sv.take(i + 1).last() == sheets@[i as int].deep_view());
        let rows = &sheets[i].1;
        match sheet_to_csv(config, rows) {
            Some(csv) => {
                let ghost before = csvs.deep_view();
                csvs.push(csv);
                assert(csvs.deep_view() =~= before.push(csv@));
            },
            None => {
                proof {
                    lemma_sheets_csv_none(*config, sv, i as int);
                }
                return Err(ChonkitError::InvalidFile("Excel file has no rows".to_owned()));
            },
        }
        i = i + 1;
    }
    assert(sv.take(sheets@.len() as int) =~= sv);
    let ghost cv = csvs.deep_view();
    let mut out = String::new();
    let mut k: usize = 0;
    assert(cv.take(0) =~= Seq::<Seq<char>>::empty());
    while k < csvs.len()
        invariant
            k <= csvs@.len() == cv.len(),
            cv == csvs.deep_view(),
            out@ == join(cv.take(k as int), "\n\n"@),
        decreases csvs.len() - k,
    {
        if k > 0 {
            push_str(&mut out, "\n\n");
        }
        push_str(&mut out, csvs[k].as_str());
        assert(cv.take(k + 1).drop_last() =~= cv.take(k as int));
        assert(cv.take(k + 1).last() == csvs@[k as int]@);
        proof {
            if k == 0 {
                assert(join(cv.take(1), "\n\n"@) == cv.take(1)[0]);
                assert(out@ =~= join(cv.take(1), "\n\n"@));
            } else {
                assert(out@ =~= join(cv.take(k + 1), "\n\n"@));
            }
        }
        k = k + 1;
    }
    assert(cv.take(csvs@.len() as int) =~= cv);
    Ok(filter_text(&config.filters, out))
}

proof fn lemma_sheets_csv_none(
    config: StringParseConfig,
    sv: Seq<(Seq<char>, Seq<Seq<Seq<char>>>)>,
    i: int,
)
    requires
        0 <= i < sv.len(),
        sheets_csv(config, sv.take(i + 1)) is None,
    ensures
        sheets_csv(config, sv) is None,
    decreases sv.len() - i,
{
    if i + 1 < sv.len() {
        assert(sv.take(i + 2).drop_last() =~= sv.take(i + 1));
        lemma_sheets_csv_none(config, sv, i + 1);
    } else {
        assert(sv.take(i + 1) =~= sv);
    }
}

/// Parse the spreadsheet `bytes` into CSV text.
pub fn parse(config: &StringParseConfig, bytes: &[u8]) -> (res: Result<String, ChonkitError>)
    ensures
        match xlsx_sheets(bytes@) {
            None => res matches Err(ChonkitError::Xlsx(_)),
            Some(sheets) => match excel_text(*config, sheets) {
                Some(s) => res matches Ok(r) && r@ == s,
                None => res matches Err(ChonkitError::InvalidFile(_)),
            },
        },
{
    match read_xlsx_sheets(bytes) {
        Ok(sheets) => sheets_to_text(config, &sheets),
        Err(e) => Err(ChonkitError::Xlsx(e)),
    }
}

} // verus!

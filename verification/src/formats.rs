//! The file formats that documents are loaded from and stored in, chosen by a
//! file's extension, and the reading of one field of a text file as a cell.

use vstd::prelude::*;
use vstd::string::*;
use crate::error::AppError;
use crate::text::{lowercase, to_lowercase};
use crate::types::{Cell, CellValue};

verus! {

/// A file format that holds a document.
#[derive(Clone, Copy, Debug, PartialEq, Eq)]
pub enum FileFormat {
    Xlsx,
    Xls,
    Ods,
    Csv,
}

/// The format that a folded extension names, if any.
pub open spec fn format_named(folded: Seq<char>) -> Option<FileFormat> {
    if folded == "xlsx"@ {
        Some(FileFormat::Xlsx)
    } else if folded == "xls"@ {
        Some(FileFormat::Xls)
    } else if folded == "ods"@ {
        Some(FileFormat::Ods)
    } else if folded == "csv"@ {
        Some(FileFormat::Csv)
    } else {
        None
    }
}

/// Whether documents can be stored in the format.
pub open spec fn can_store(format: FileFormat) -> bool {
    format is Xlsx || format is Csv
}

fn same_text(a: &str, b: &str) -> (same: bool)
    ensures
        same == (a@ == b@),
{
    String::from_str(a) == String::from_str(b)
}

/// The format that an extension names, once the extension is folded to lower
/// case: `xlsx`, `xls`, `ods` or `csv`.
pub fn format_of_folded(folded: &str) -> (format: Option<FileFormat>)
    ensures
        format == format_named(folded@),
{
    if same_text(folded, "xlsx") {
        Some(FileFormat::Xlsx)
    } else if same_text(folded, "xls") {
        Some(FileFormat::Xls)
    } else if same_text(folded, "ods") {
        Some(FileFormat::Ods)
    } else if same_text(folded, "csv") {
        Some(FileFormat::Csv)
    } else {
        None
    }
}

/// The format to load a file from, by the file's extension in whatever case.
/// Fails with `AppError::UnsupportedFormat` where the file has no extension
/// or the extension names no format.
pub fn load_format(extension: Option<&str>) -> (result: Result<FileFormat, AppError>)
    ensures
        match extension {
            Some(given) => match format_named(lowercase(given@)) {
                Some(format) => result == Ok::<FileFormat, AppError>(format),
                None => result matches Err(AppError::UnsupportedFormat),
            },
            None => result matches Err(AppError::UnsupportedFormat),
        },
{
    match extension {
        Some(given) => {
            let folded = to_lowercase(given);
            match format_of_folded(folded.as_str()) {
                Some(format) => Ok(format),
                None => Err(AppError::UnsupportedFormat),
            }
        },
        None => Err(AppError::UnsupportedFormat),
    }
}

/// The format to store a file in, by the file's extension in whatever case.
/// Fails with `AppError::UnsupportedFormat` where the file has no extension
/// or the extension names no format that documents can be stored in.
pub fn store_format(extension: Option<&str>) -> (result: Result<FileFormat, AppError>)
    ensures
        match extension {
            Some(given) => match format_named(lowercase(given@)) {
                Some(format) => if can_store(format) {
                    result == Ok::<FileFormat, AppError>(format)
                } else {
                    result matches Err(AppError::UnsupportedFormat)
                },
                None => result matches Err(AppError::UnsupportedFormat),
            },
            None => result matches Err(AppError::UnsupportedFormat),
        },
{
    match load_format(extension) {
        Ok(FileFormat::Xlsx) => Ok(FileFormat::Xlsx),
        Ok(FileFormat::Csv) => Ok(FileFormat::Csv),
        _ => Err(AppError::UnsupportedFormat),
    }
}

/// The cell that a field of a text file stands for, given the field folded to
/// lower case and, where the field reads as a number, that number's decimal
/// text: an empty field is an empty cell, a number a number, `true` and
/// `false` in whatever case a boolean, anything else a string.
pub open spec fn field_cell(field: Seq<char>, folded: Seq<char>, number: Option<Seq<char>>) -> Cell {
    if field.len() == 0 {
        Cell::Null
    } else if number is Some {
        Cell::Number(number->0)
    } else if folded == "true"@ {
        Cell::Boolean(true)
    } else if folded == "false"@ {
        Cell::Boolean(false)
    } else {
        Cell::Text(field)
    }
}

/// Reads a field as a cell, given the field folded to lower case.
pub fn csv_cell_folded(field: &str, folded: &str, number: Option<String>) -> (cell: CellValue)
    ensures
        cell@ == field_cell(
            field@,
            folded@,
            match number {
                Some(text) => Some(text@),
                None => None,
            },
        ),
{
    if field.is_empty() {
        CellValue::Null
    } else {
        match number {
            Some(text) => CellValue::Number(text),
            None => {
                if same_text(folded, "true") {
                    CellValue::Boolean(true)
                } else if same_text(folded, "false") {
                    CellValue::Boolean(false)
                } else {
                    CellValue::String(String::from_str(field))
                }
            },
        }
    }
}

/// Reads a field of a text file as a cell. `number` is the decimal text of
/// the number that the field reads as, if it reads as one.
pub fn csv_cell(field: &str, number: Option<String>) -> (cell: CellValue)
    ensures
        cell@ == field_cell(
            field@,
            lowercase(field@),
            match number {
                Some(text) => Some(text@),
                None => None,
            },
        ),
{
    let folded = to_lowercase(field);
    csv_cell_folded(field, folded.as_str(), number)
}

} // verus!

//! The row decoder of DAT tables.
//!
//! A table starts with its row count. The rows follow, all of one length that
//! the file does not state; a run of marker bytes closes them and opens the
//! variable-length section, which strings and lists point into. The row
//! length is found by looking for the first marker that leaves a whole number
//! of bytes for every row.

use crate::bytes::{
    fits, has_room, i16_at, i32_at, le_i16_at, le_i32_at, le_u16_at, le_u32_at, le_u64_at, u16_at,
    u32_at, u64_at,
};
use crate::dat::schema::{get_column_size, Column, ColumnKind, Table};
use crate::text::{ends_with, has_suffix, utf16_lossy, utf16_lossy_text};
use vstd::prelude::*;
use vstd::string::*;

verus! {

/// The byte that the marker between rows and variable-length section is made
/// of.
pub const MARKER_BYTE: u8 = 0xBB;

/// The most UTF-16 units that a string is read for.
pub const MAX_TEXT_UNITS: usize = 1001;

/// Why a table could not be opened or a row could not be read.
#[derive(Debug, Clone, Copy, PartialEq, Eq, Structural)]
pub enum DatError {
    /// The table is too short to hold its row count.
    UnexpectedEof,
    /// No marker leaves a whole number of bytes for each of `row_count` rows.
    NoBoundary { row_count: u32 },
    /// The row starts behind the end of the table.
    RowOutOfBounds,
}

/// One decoded cell.
#[derive(Debug, Clone, PartialEq, Eq)]
pub enum DatValue {
    Bool(bool),
    /// A signed or unsigned integer of up to 32 bits, widened.
    Int(i64),
    Long(u64),
    /// The IEEE 754 bits of a 32-bit floating-point number.
    Float(u32),
    String(String),
    /// The index of a row of another table, not checked against that table.
    ForeignRow(usize),
    /// A list that is not decoded yet: the number of its elements and its
    /// offset in the variable-length section.
    List(usize, u64),
    /// A cell that the row is too short for, or of a type that is not known.
    Unknown,
}

/// A `DatValue` as a mathematical value.
pub enum DatValueView {
    Bool(bool),
    Int(i64),
    Long(u64),
    Float(u32),
    String(Seq<char>),
    ForeignRow(usize),
    List(usize, u64),
    Unknown,
}

impl View for DatValue {
    type V = DatValueView;

    open spec fn view(&self) -> DatValueView {
        match self {
            DatValue::Bool(b) => DatValueView::Bool(*b),
            DatValue::Int(i) => DatValueView::Int(*i),
            DatValue::Long(l) => DatValueView::Long(*l),
            DatValue::Float(bits) => DatValueView::Float(*bits),
            DatValue::String(s) => DatValueView::String(s@),
            DatValue::ForeignRow(row) => DatValueView::ForeignRow(*row),
            DatValue::List(count, offset) => DatValueView::List(*count, *offset),
            DatValue::Unknown => DatValueView::Unknown,
        }
    }
}

/// The cells of a list of values as mathematical values.
pub open spec fn value_views(values: Seq<DatValue>) -> Seq<DatValueView> {
    values.map_values(|v: DatValue| v@)
}

/// A table and what is known of its layout.
pub struct DatReader {
    /// The bytes of the table.
    pub data: Vec<u8>,
    pub is_64bit: bool,
    pub row_count: u32,
    /// Length of a row, where it is known.
    pub row_length: Option<usize>,
    /// Where the variable-length section starts.
    pub data_section_offset: u64,
    pub filename: String,
}

/// A `DatReader` as a mathematical value.
pub struct DatReaderView {
    pub data: Seq<u8>,
    pub is_64bit: bool,
    pub row_count: u32,
    pub row_length: Option<usize>,
    pub data_section_offset: u64,
    pub filename: Seq<char>,
}

impl View for DatReader {
    type V = DatReaderView;

    open spec fn view(&self) -> DatReaderView {
        DatReaderView {
            data: self.data@,
            is_64bit: self.is_64bit,
            row_count: self.row_count,
            row_length: self.row_length,
            data_section_offset: self.data_section_offset,
            filename: self.filename@,
        }
    }
}

/// Width of the marker: eight bytes in 64-bit tables, four otherwise.
pub open spec fn marker_width(is_64bit: bool) -> nat {
    if is_64bit {
        8
    } else {
        4
    }
}

/// Whether `width` marker bytes stand at `at`.
pub open spec fn marker_at(data: Seq<u8>, at: int, width: nat) -> bool {
    0 <= at && at + width <= data.len() && forall|i: int|
        at <= i < at + width ==> data[i] == MARKER_BYTE
}

/// Whether a marker stands at `at` and leaves a whole number of bytes for each
/// of `row_count` rows.
pub open spec fn is_boundary(data: Seq<u8>, width: nat, row_count: nat, at: int) -> bool {
    at >= 4 && marker_at(data, at, width) && (at - 4) % (row_count as int) == 0
}

/// Whether `at` is the first such offset.
pub open spec fn is_first_boundary(data: Seq<u8>, width: nat, row_count: nat, at: int) -> bool {
    is_boundary(data, width, row_count, at) && forall|j: int|
        4 <= j < at ==> !is_boundary(data, width, row_count, j)
}

impl DatReaderView {
    /// Whether this is the reader that a table with the bytes `data` and the
    /// name `filename` opens as. Names that end in `64` are those of 64-bit
    /// tables. A table without rows has rows of length zero, and its
    /// variable-length section counts from offset 4 if the marker stands
    /// there, from 0 otherwise.
    pub open spec fn opens(self, data: Seq<u8>, filename: Seq<char>) -> bool {
        &&& data.len() >= 4
        &&& self.data == data
        &&& self.filename == filename
        &&& self.is_64bit == has_suffix(filename, "64"@)
        &&& self.row_count == le_u32_at(data, 0)
        &&& if self.row_count == 0 {
            &&& self.row_length == Some(0usize)
            &&& self.data_section_offset == if marker_at(data, 4, marker_width(self.is_64bit)) {
                4u64
            } else {
                0u64
            }
        } else {
            &&& is_first_boundary(
                data,
                marker_width(self.is_64bit),
                self.row_count as nat,
                self.data_section_offset as int,
            )
            &&& self.row_length == Some(
                ((self.data_section_offset - 4) / (self.row_count as int)) as usize,
            )
        }
    }
}

/// The UTF-16 units from `at` up to a zero unit, the end of `file` or `limit`
/// units, whichever comes first.
pub open spec fn utf16_units(file: Seq<u8>, at: int, limit: nat) -> Seq<u16>
    decreases limit,
{
    if limit == 0 || at < 0 || at + 1 >= file.len() || le_u16_at(file, at) == 0 {
        Seq::empty()
    } else {
        seq![le_u16_at(file, at) as u16] + utf16_units(file, at + 2, (limit - 1) as nat)
    }
}

/// The zero-terminated UTF-16 string that starts at `at`.
pub open spec fn string_at(file: Seq<u8>, at: int) -> Seq<char> {
    let units = utf16_units(file, at, MAX_TEXT_UNITS as nat);
    if units.len() == 0 {
        Seq::empty()
    } else {
        utf16_lossy_text(units)
    }
}

/// The string that a cell with the value `offset` points to: offset zero and
/// offsets behind the end of `file` stand for the empty string.
pub open spec fn text_at(file: Seq<u8>, heap: int, offset: int) -> Seq<char> {
    if offset != 0 && heap + offset < file.len() {
        string_at(file, heap + offset)
    } else {
        Seq::empty()
    }
}

/// The value of the cell of kind `kind` that starts at `at`. `heap` is where
/// the variable-length section starts.
pub open spec fn decode_cell(
    file: Seq<u8>,
    heap: int,
    is_64bit: bool,
    kind: ColumnKind,
    at: int,
) -> DatValueView {
    match kind {
        ColumnKind::Bool => DatValueView::Bool(file[at] != 0),
        ColumnKind::Byte => DatValueView::Int(file[at] as i64),
        ColumnKind::Short | ColumnKind::I16 => DatValueView::Int(le_i16_at(file, at) as i64),
        ColumnKind::UShort => DatValueView::Int(le_u16_at(file, at) as i64),
        ColumnKind::Int => DatValueView::Int(le_i32_at(file, at) as i64),
        ColumnKind::UInt => DatValueView::Int(le_u32_at(file, at) as i64),
        ColumnKind::Float => DatValueView::Float(le_u32_at(file, at) as u32),
        ColumnKind::Long => DatValueView::Long(le_u64_at(file, at) as u64),
        ColumnKind::Text => DatValueView::String(text_at(file, heap, le_u32_at(file, at))),
        ColumnKind::ForeignRow | ColumnKind::Row => DatValueView::ForeignRow(
            le_u32_at(file, at) as usize,
        ),
        ColumnKind::Other => DatValueView::Unknown,
        ColumnKind::Array => DatValueView::List(
            le_u32_at(file, at) as usize,
            le_u32_at(
                file,
                at + if is_64bit {
                    8int
                } else {
                    4int
                },
            ) as u64,
        ),
    }
}

/// `n` cells that could not be read.
pub open spec fn unknown_cells(n: nat) -> Seq<DatValueView> {
    Seq::new(n, |i: int| DatValueView::Unknown)
}

/// The kinds of the columns of a table.
pub open spec fn kinds_of(columns: Seq<Column>) -> Seq<ColumnKind> {
    columns.map_values(|c: Column| c.kind())
}

/// The widths of all `kinds` together.
pub open spec fn total_width(kinds: Seq<ColumnKind>, is_64bit: bool) -> nat
    decreases kinds.len(),
{
    if kinds.len() == 0 {
        0
    } else {
        total_width(kinds.drop_last(), is_64bit) + kinds.last().width(is_64bit)
    }
}

/// The cells of a row that lies in `file` from `at` up to `end`, read from
/// left to right. The first cell that does not fit whole before `end` is
/// unknown, and so is every cell after it.
pub open spec fn row_cells(
    file: Seq<u8>,
    heap: int,
    is_64bit: bool,
    kinds: Seq<ColumnKind>,
    at: int,
    end: int,
) -> Seq<DatValueView>
    decreases kinds.len(),
{
    if kinds.len() == 0 {
        Seq::empty()
    } else if at + kinds[0].width(is_64bit) > end {
        unknown_cells(kinds.len())
    } else {
        seq![decode_cell(file, heap, is_64bit, kinds[0], at)] + row_cells(
            file,
            heap,
            is_64bit,
            kinds.drop_first(),
            at + kinds[0].stride(is_64bit),
            end,
        )
    }
}

/// The `count` elements of a list that lies in `file` from `at` up to `end`.
/// The first element that does not fit whole before `end` is unknown, and so
/// is every element after it.
pub open spec fn list_cells(
    file: Seq<u8>,
    heap: int,
    is_64bit: bool,
    kind: ColumnKind,
    at: int,
    end: int,
    count: nat,
) -> Seq<DatValueView>
    decreases count,
{
    if count == 0 {
        Seq::empty()
    } else if at + kind.stride(is_64bit) > end {
        unknown_cells(count)
    } else {
        seq![decode_cell(file, heap, is_64bit, kind, at)] + list_cells(
            file,
            heap,
            is_64bit,
            kind,
            at + kind.stride(is_64bit),
            end,
            (count - 1) as nat,
        )
    }
}

/// Reads the zero-terminated UTF-16 string that starts at `offset`.
pub fn read_string_at(data: &[u8], offset: usize) -> (text: String)
    ensures
        text@ == string_at(data@, offset as int),
{
    let mut units: Vec<u16> = Vec::new();
    let mut at: usize = offset;
    let mut terminated = false;
    let ghost all = utf16_units(data@, offset as int, MAX_TEXT_UNITS as nat);
    assert(units@ + all =~= all);
    while !terminated && units.len() < MAX_TEXT_UNITS && has_room(data, at, 2)
        invariant
            data@.len() == data.len(),
            units@.len() <= MAX_TEXT_UNITS,
            all == units@ + utf16_units(data@, at as int, (MAX_TEXT_UNITS - units@.len()) as nat),
            terminated ==> fits(data@.len(), at as int, 2) && le_u16_at(data@, at as int) == 0,
        decreases MAX_TEXT_UNITS - units@.len() + if terminated { 0int } else { 1int },
    {
        let unit = u16_at(data, at);
        if unit == 0 {
            terminated = true;
        } else {
            let ghost before = units@;
            let ghost rest = utf16_units(
                data@,
                at + 2,
                (MAX_TEXT_UNITS - before.len() - 1) as nat,
            );
            units.push(unit);
            assert(before + (seq![unit] + rest) =~= units@ + rest);
            at += 2;
        }
    }
    assert(units@ + Seq::<u16>::empty() =~= units@);
    if units.len() == 0 {
        String::new()
    } else {
        utf16_lossy(units.as_slice())
    }
}

/// Reads the cell of kind `kind` that starts at `at` in `file_data`, where the
/// readable part of the file ends at `end`. A cell that does not lie whole
/// before `end` cannot be read.
pub fn read_column_value(
    file_data: &[u8],
    at: usize,
    end: usize,
    kind: ColumnKind,
    var_data_offset: u64,
    is_64bit: bool,
) -> (r: Result<DatValue, DatError>)
    ensures
        match r {
            Ok(value) => at + kind.stride(is_64bit) <= end <= file_data@.len() && value@
                == decode_cell(file_data@, var_data_offset as int, is_64bit, kind, at as int),
            Err(e) => !(at + kind.stride(is_64bit) <= end <= file_data@.len()) && e
                == DatError::UnexpectedEof,
        },
{
    let stride = kind.byte_stride(is_64bit);
    if end > file_data.len() || at > end || stride > end - at {
        return Err(DatError::UnexpectedEof);
    }
    let value = match kind {
        ColumnKind::Bool => DatValue::Bool(file_data[at] != 0),
        ColumnKind::Byte => DatValue::Int(file_data[at] as i64),
        ColumnKind::Short | ColumnKind::I16 => DatValue::Int(i16_at(file_data, at) as i64),
        ColumnKind::UShort => DatValue::Int(u16_at(file_data, at) as i64),
        ColumnKind::Int => DatValue::Int(i32_at(file_data, at) as i64),
        ColumnKind::UInt => DatValue::Int(u32_at(file_data, at) as i64),
        ColumnKind::Float => DatValue::Float(u32_at(file_data, at)),
        ColumnKind::Long => DatValue::Long(u64_at(file_data, at)),
        ColumnKind::Text => {
            let offset = u32_at(file_data, at);
            let target = var_data_offset.checked_add(offset as u64);
            match target {
                Some(target) => if offset != 0 && target < file_data.len() as u64 {
                    DatValue::String(read_string_at(file_data, target as usize))
                } else {
                    DatValue::String(String::new())
                },
                None => DatValue::String(String::new()),
            }
        },
        ColumnKind::ForeignRow | ColumnKind::Row => DatValue::ForeignRow(
            u32_at(file_data, at) as usize,
        ),
        ColumnKind::Other => DatValue::Unknown,
        ColumnKind::Array => {
            let count = u32_at(file_data, at);
            let offset = if is_64bit {
                u32_at(file_data, at + 8)
            } else {
                u32_at(file_data, at + 4)
            };
            DatValue::List(count as usize, offset as u64)
        },
    };
    Ok(value)
}

/// Whether `width` marker bytes stand at `at`.
fn has_marker(data: &[u8], at: usize, width: usize) -> (r: bool)
    requires
        at + width <= data@.len(),
    ensures
        r == marker_at(data@, at as int, width as nat),
{
    let mut k: usize = 0;
    while k < width
        invariant
            at + width <= data@.len(),
            data@.len() == data.len(),
            k <= width,
            forall|i: int| at <= i < at + k ==> data@[i] == MARKER_BYTE,
        decreases width - k,
    {
        if data[at + k] != MARKER_BYTE {
            return false;
        }
        k += 1;
    }
    true
}

impl DatReader {
    /// The bytes of the table.
    pub fn get_data(&self) -> (data: &[u8])
        ensures
            data@ == self@.data,
    {
        self.data.as_slice()
    }

    /// Whether the table is a 64-bit table.
    pub fn is_64bit(&self) -> (wide: bool)
        ensures
            wide == self@.is_64bit,
    {
        self.is_64bit
    }

    /// Number of rows that the table announces.
    pub fn row_count(&self) -> (count: u32)
        ensures
            count == self@.row_count,
    {
        self.row_count
    }

    /// Length of a row, where it is known.
    pub fn row_length(&self) -> (len: Option<usize>)
        ensures
            len == self@.row_length,
    {
        self.row_length
    }

    /// Where the variable-length section starts.
    pub fn data_section_offset(&self) -> (offset: u64)
        ensures
            offset == self@.data_section_offset,
    {
        self.data_section_offset
    }

    /// The name under which the table was opened.
    pub fn filename(&self) -> (name: &str)
        ensures
            name@ == self@.filename,
    {
        self.filename.as_str()
    }

    /// Opens a table: reads the row count and finds where the rows end.
    pub fn new(data: Vec<u8>, filename: &str) -> (r: Result<DatReader, DatError>)
        ensures
            match r {
                Ok(reader) => reader@.opens(data@, filename@),
                Err(DatError::UnexpectedEof) => data@.len() < 4,
                Err(DatError::NoBoundary { row_count }) => {
                    &&& data@.len() >= 4
                    &&& row_count == le_u32_at(data@, 0)
                    &&& row_count > 0
                    &&& forall|at: int|
                        !is_boundary(
                            data@,
                            marker_width(has_suffix(filename@, "64"@)),
                            row_count as nat,
                            at,
                        )
                },
                Err(DatError::RowOutOfBounds) => false,
            },
    {
        let is_64bit = ends_with(filename, "64");
        let len = data.len();
        if len < 4 {
            return Err(DatError::UnexpectedEof);
        }
        let row_count = u32_at(data.as_slice(), 0);
        let width: usize = if is_64bit {
            8
        } else {
            4
        };
        if row_count == 0 {
            let marked = width <= len - 4 && has_marker(data.as_slice(), 4, width);
            let data_section_offset: u64 = if marked {
                4
            } else {
                0
            };
            return Ok(
                DatReader {
                    data,
                    is_64bit,
                    row_count,
                    row_length: Some(0),
                    data_section_offset,
                    filename: filename.to_owned(),
                },
            );
        }
        let mut at: usize = 4;
        while width <= len - at
            invariant
                len == data@.len(),
                4 <= at <= len,
                row_count > 0,
                row_count == le_u32_at(data@, 0),
                is_64bit == has_suffix(filename@, "64"@),
                width == marker_width(is_64bit),
                forall|j: int| 4 <= j < at ==> !is_boundary(data@, width as nat, row_count as nat, j),
            decreases len - at,
        {
            if (at - 4) % (row_count as usize) == 0 && has_marker(data.as_slice(), at, width) {
                let row_length = (at - 4) / (row_count as usize);
                let reader = DatReader {
                    data,
                    is_64bit,
                    row_count,
                    row_length: Some(row_length),
                    data_section_offset: at as u64,
                    filename: filename.to_owned(),
                };
                return Ok(reader);
            }
            at += 1;
        }
        Err(DatError::NoBoundary { row_count })
    }
}

impl DatReaderView {
    /// Length of a row of a table with columns of the kinds `kinds`: the
    /// length found when the table was opened, or else the widths of all
    /// columns together.
    pub open spec fn row_len(self, kinds: Seq<ColumnKind>) -> nat {
        match self.row_length {
            Some(len) => len as nat,
            None => total_width(kinds, self.is_64bit),
        }
    }

    /// Where row `index` starts.
    pub open spec fn row_start(self, index: nat, kinds: Seq<ColumnKind>) -> nat {
        4 + index * self.row_len(kinds)
    }

    /// Where row `index` ends: a row that the end of the table cuts short
    /// ends there.
    pub open spec fn row_end(self, index: nat, kinds: Seq<ColumnKind>) -> nat {
        let end = self.row_start(index, kinds) + self.row_len(kinds);
        if end <= self.data.len() {
            end
        } else {
            self.data.len()
        }
    }

    /// The cells of row `index`.
    pub open spec fn row(self, index: nat, kinds: Seq<ColumnKind>) -> Seq<DatValueView> {
        row_cells(
            self.data,
            self.data_section_offset as int,
            self.is_64bit,
            kinds,
            self.row_start(index, kinds) as int,
            self.row_end(index, kinds) as int,
        )
    }

    /// The elements of the list of `count` values of kind `kind` at `offset`
    /// in the variable-length section. A list that starts behind the end of
    /// the table is a single unknown value.
    pub open spec fn list(self, offset: u64, count: nat, kind: ColumnKind) -> Seq<DatValueView> {
        let start = self.data_section_offset + offset;
        let end = start + kind.width(self.is_64bit) * count;
        if count == 0 {
            Seq::empty()
        } else if start >= self.data.len() {
            seq![DatValueView::Unknown]
        } else {
            list_cells(
                self.data,
                self.data_section_offset as int,
                self.is_64bit,
                kind,
                start,
                if end <= self.data.len() {
                    end
                } else {
                    self.data.len() as int
                },
                count,
            )
        }
    }
}

/// Appends `n` unknown cells to `values`.
fn push_unknown(values: &mut Vec<DatValue>, n: usize)
    ensures
        value_views(final(values)@) == value_views(old(values)@) + unknown_cells(n as nat),
{
    let ghost start = value_views(values@);
    let mut k: usize = 0;
    assert(start + unknown_cells(0) =~= start);
    while k < n
        invariant
            k <= n,
            value_views(values@) == start + unknown_cells(k as nat),
        decreases n - k,
    {
        let ghost before = value_views(values@);
        values.push(DatValue::Unknown);
        assert(value_views(values@) =~= before.push(DatValueView::Unknown));
        assert(start + unknown_cells((k + 1) as nat) =~= (start + unknown_cells(k as nat)).push(
            DatValueView::Unknown,
        ));
        k += 1;
    }
}

/// The widths of all columns of `table` together; `usize::MAX` if that is
/// more than a `usize` holds.
fn schema_row_len(table: &Table, is_64bit: bool) -> (len: usize)
    ensures
        len == if total_width(kinds_of(table.columns@), is_64bit) <= usize::MAX {
            total_width(kinds_of(table.columns@), is_64bit)
        } else {
            usize::MAX as nat
        },
{
    let ghost kinds = kinds_of(table.columns@);
    let mut len: usize = 0;
    let mut k: usize = 0;
    assert(kinds.subrange(0, 0) =~= Seq::<ColumnKind>::empty());
    while k < table.columns.len()
        invariant
            k <= table.columns@.len(),
            kinds == kinds_of(table.columns@),
            len == if total_width(kinds.subrange(0, k as int), is_64bit) <= usize::MAX {
                total_width(kinds.subrange(0, k as int), is_64bit)
            } else {
                usize::MAX as nat
            },
        decreases table.columns@.len() - k,
    {
        proof {
            let upto = kinds.subrange(0, k + 1);
            assert(upto.drop_last() =~= kinds.subrange(0, k as int));
            assert(upto.last() == table.columns@[k as int].kind());
        }
        let width = get_column_size(&table.columns[k], is_64bit);
        len = len.saturating_add(width);
        k += 1;
    }
    assert(kinds.subrange(0, kinds.len() as int) =~= kinds);
    len
}

impl DatReader {
    /// Decodes row `index` with the columns of `table`.
    pub fn read_row(&self, index: u32, table: &Table) -> (r: Result<Vec<DatValue>, DatError>)
        ensures
            match r {
                Ok(values) => {
                    &&& self@.row_start(index as nat, kinds_of(table.columns@)) <= self@.data.len()
                    &&& value_views(values@) == self@.row(index as nat, kinds_of(table.columns@))
                },
                Err(e) => {
                    &&& self@.row_start(index as nat, kinds_of(table.columns@)) > self@.data.len()
                    &&& e == DatError::RowOutOfBounds
                },
            },
    {
        let ghost kinds = kinds_of(table.columns@);
        let ghost true_len = self@.row_len(kinds);
        let len = self.data.len();
        let row_len: usize = match self.row_length {
            Some(row_len) => row_len,
            None => schema_row_len(table, self.is_64bit),
        };
        proof {
            assert(0 <= index * row_len <= 0xffff_ffff * 0xffff_ffff_ffff_ffff) by (nonlinear_arith)
                requires
                    0 <= index <= 0xffff_ffff,
                    0 <= row_len <= 0xffff_ffff_ffff_ffff,
            ;
            if true_len != row_len && index >= 1 {
                assert(index * true_len >= true_len) by (nonlinear_arith)
                    requires
                        index >= 1,
                        true_len >= 0,
                ;
                assert(index * row_len >= row_len) by (nonlinear_arith)
                    requires
                        index >= 1,
                        row_len >= 0,
                ;
            }
        }
        let start_wide: u128 = 4 + (index as u128) * (row_len as u128);
        proof {
            let true_start = self@.row_start(index as nat, kinds);
            if true_len == row_len {
                assert(index as nat * true_len == index * row_len) by (nonlinear_arith)
                    requires
                        true_len == row_len,
                ;
                assert(true_start == start_wide);
            } else if index == 0 {
                assert(index as nat * true_len == 0 && index * row_len == 0) by (nonlinear_arith)
                    requires
                        index == 0,
                ;
                assert(true_start == start_wide);
            } else {
                assert(true_start > len && start_wide > len);
            }
        }
        if start_wide > len as u128 {
            return Err(DatError::RowOutOfBounds);
        }
        let start = start_wide as usize;
        let end: usize = if row_len <= len - start {
            start + row_len
        } else {
            len
        };
        assert(start == self@.row_start(index as nat, kinds));
        assert(end == self@.row_end(index as nat, kinds));
        let mut values: Vec<DatValue> = Vec::new();
        let mut at: usize = start;
        let mut k: usize = 0;
        let count = table.columns.len();
        assert(kinds.subrange(0, count as int) =~= kinds);
        assert(value_views(values@) =~= Seq::<DatValueView>::empty());
        while k < count
            invariant
                k <= count,
                count == table.columns@.len(),
                kinds == kinds_of(table.columns@),
                len == self@.data.len(),
                at <= end <= len,
                self@.row_start(index as nat, kinds) <= self@.data.len(),
                self@.row(index as nat, kinds) == value_views(values@) + row_cells(
                    self@.data,
                    self@.data_section_offset as int,
                    self@.is_64bit,
                    kinds.subrange(k as int, count as int),
                    at as int,
                    end as int,
                ),
            decreases count - k,
        {
            let kind = table.columns[k].classify();
            let width = kind.byte_width(self.is_64bit);
            let ghost rest = kinds.subrange(k as int, count as int);
            assert(rest[0] == kind);
            assert(rest.drop_first() =~= kinds.subrange(k + 1, count as int));
            if width > end - at {
                assert(row_cells(
                    self@.data,
                    self@.data_section_offset as int,
                    self@.is_64bit,
                    rest,
                    at as int,
                    end as int,
                ) == unknown_cells((count - k) as nat));
                push_unknown(&mut values, count - k);
                return Ok(values);
            }
            let ghost before = value_views(values@);
            match read_column_value(
                self.data.as_slice(),
                at,
                end,
                kind,
                self.data_section_offset,
                self.is_64bit,
            ) {
                Ok(value) => {
                    values.push(value);
                    assert(value_views(values@) =~= before.push(value@));
                },
                Err(_) => {
                    values.push(DatValue::Unknown);
                },
            }
            at += kind.byte_stride(self.is_64bit);
            k += 1;
            proof {
                let next = row_cells(
                    self@.data,
                    self@.data_section_offset as int,
                    self@.is_64bit,
                    kinds.subrange(k as int, count as int),
                    at as int,
                    end as int,
                );
                assert(before + (seq![value_views(values@).last()] + next) =~= value_views(values@)
                    + next);
            }
        }
        assert(value_views(values@) + Seq::<DatValueView>::empty() =~= value_views(values@));
        Ok(values)
    }

    /// Decodes the `count` elements of the list at `offset` in the
    /// variable-length section. The elements have the type of `col`, taken as
    /// a column that is no list.
    pub fn read_list_values(&self, offset: u64, count: usize, col: &Column) -> (r: Result<
        Vec<DatValue>,
        DatError,
    >)
        ensures
            r is Ok,
            value_views(r.unwrap()@) == self@.list(
                offset,
                count as nat,
                crate::dat::schema::scalar_kind(col.ty@),
            ),
    {
        let mut values: Vec<DatValue> = Vec::new();
        assert(value_views(values@) =~= Seq::<DatValueView>::empty());
        if count == 0 {
            return Ok(values);
        }
        let len = self.data.len();
        let start_wide: u128 = self.data_section_offset as u128 + offset as u128;
        if start_wide >= len as u128 {
            push_unknown(&mut values, 1);
            assert(unknown_cells(1) =~= seq![DatValueView::Unknown]);
            return Ok(values);
        }
        let start = start_wide as usize;
        let element = Column {
            name: None,
            ty: col.ty.clone(),
            array: false,
            references: None,
        };
        let kind = element.classify();
        let width = kind.byte_width(self.is_64bit);
        let stride = kind.byte_stride(self.is_64bit);
        proof {
            assert(0 <= width * count <= 16 * 0xffff_ffff_ffff_ffff) by (nonlinear_arith)
                requires
                    0 <= width <= 16,
                    0 <= count <= 0xffff_ffff_ffff_ffff,
            ;
        }
        let total: u128 = (width as u128) * (count as u128);
        let end: usize = if total <= (len - start) as u128 {
            start + total as usize
        } else {
            len
        };
        let mut at: usize = start;
        let mut k: usize = 0;
        while k < count
            invariant
                k <= count,
                len == self@.data.len(),
                at <= end <= len,
                stride == kind.stride(self@.is_64bit),
                kind == crate::dat::schema::scalar_kind(col.ty@),
                self@.list(offset, count as nat, kind) == value_views(values@) + list_cells(
                    self@.data,
                    self@.data_section_offset as int,
                    self@.is_64bit,
                    kind,
                    at as int,
                    end as int,
                    (count - k) as nat,
                ),
            decreases count - k,
        {
            if stride > end - at {
                assert(list_cells(
                    self@.data,
                    self@.data_section_offset as int,
                    self@.is_64bit,
                    kind,
                    at as int,
                    end as int,
                    (count - k) as nat,
                ) == unknown_cells((count - k) as nat));
                push_unknown(&mut values, count - k);
                return Ok(values);
            }
            let ghost before = value_views(values@);
            match read_column_value(
                self.data.as_slice(),
                at,
                end,
                kind,
                self.data_section_offset,
                self.is_64bit,
            ) {
                Ok(value) => {
                    values.push(value);
                    assert(value_views(values@) =~= before.push(value@));
                },
                Err(_) => {
                    values.push(DatValue::Unknown);
                },
            }
            at += stride;
            k += 1;
            proof {
                let next = list_cells(
                    self@.data,
                    self@.data_section_offset as int,
                    self@.is_64bit,
                    kind,
                    at as int,
                    end as int,
                    (count - k) as nat,
                );
                assert(before + (seq![value_views(values@).last()] + next) =~= value_views(values@)
                    + next);
            }
        }
        assert(value_views(values@) + Seq::<DatValueView>::empty() =~= value_views(values@));
        Ok(values)
    }
}

/// A row has one cell for each column.
pub proof fn lemma_row_cells_len(
    file: Seq<u8>,
    heap: int,
    is_64bit: bool,
    kinds: Seq<ColumnKind>,
    at: int,
    end: int,
)
    ensures
        row_cells(file, heap, is_64bit, kinds, at, end).len() == kinds.len(),
    decreases kinds.len(),
{
    if kinds.len() > 0 && at + kinds[0].width(is_64bit) <= end {
        lemma_row_cells_len(
            file,
            heap,
            is_64bit,
            kinds.drop_first(),
            at + kinds[0].stride(is_64bit),
            end,
        );
    }
}

/// Where the cell of column `j` starts within its row when every cell before
/// it could be read.
pub open spec fn cell_offset(kinds: Seq<ColumnKind>, is_64bit: bool, j: nat) -> nat
    decreases j,
{
    if j == 0 {
        0
    } else {
        cell_offset(kinds, is_64bit, (j - 1) as nat) + kinds[j - 1].stride(is_64bit)
    }
}

/// In a row that ends too early, the first cell that does not lie whole
/// before the end is unknown, and so is every cell after it, whether or not
/// it would fit where it stands: if cell `i` does not fit, no cell from `i`
/// on is known.
pub proof fn lemma_truncated_cells_are_unknown(
    file: Seq<u8>,
    heap: int,
    is_64bit: bool,
    kinds: Seq<ColumnKind>,
    at: int,
    end: int,
    i: int,
    j: int,
)
    requires
        0 <= i <= j < kinds.len(),
        at + cell_offset(kinds, is_64bit, i as nat) + kinds[i].width(is_64bit) > end,
    ensures
        row_cells(file, heap, is_64bit, kinds, at, end).len() == kinds.len(),
        row_cells(file, heap, is_64bit, kinds, at, end)[j] == DatValueView::Unknown,
    decreases kinds.len(),
{
    lemma_row_cells_len(file, heap, is_64bit, kinds, at, end);
    if at + kinds[0].width(is_64bit) <= end {
        let rest = kinds.drop_first();
        let next = at + kinds[0].stride(is_64bit);
        assert(i > 0);
        lemma_cell_offset_shift(kinds, is_64bit, i as nat);
        lemma_truncated_cells_are_unknown(file, heap, is_64bit, rest, next, end, i - 1, j - 1);
    }
}

/// A cell is known if it and every cell before it lie whole before the end
/// of the row: it is what `decode_cell` reads where the strides of the cells
/// before it put it.
pub proof fn lemma_cells_that_fit_are_read(
    file: Seq<u8>,
    heap: int,
    is_64bit: bool,
    kinds: Seq<ColumnKind>,
    at: int,
    end: int,
    j: int,
)
    requires
        0 <= j < kinds.len(),
        forall|k: int|
            0 <= k <= j ==> at + #[trigger] cell_offset(kinds, is_64bit, k as nat)
                + kinds[k].width(is_64bit) <= end,
    ensures
        row_cells(file, heap, is_64bit, kinds, at, end).len() == kinds.len(),
        row_cells(file, heap, is_64bit, kinds, at, end)[j] == decode_cell(
            file,
            heap,
            is_64bit,
            kinds[j],
            at + cell_offset(kinds, is_64bit, j as nat),
        ),
    decreases kinds.len(),
{
    lemma_row_cells_len(file, heap, is_64bit, kinds, at, end);
    assert(cell_offset(kinds, is_64bit, 0) == 0);
    if j > 0 {
        let rest = kinds.drop_first();
        let next = at + kinds[0].stride(is_64bit);
        assert forall|k: int| 0 <= k <= j - 1 implies next + #[trigger] cell_offset(
            rest,
            is_64bit,
            k as nat,
        ) + rest[k].width(is_64bit) <= end by {
            lemma_cell_offset_shift(kinds, is_64bit, (k + 1) as nat);
            assert(rest[k] == kinds[k + 1]);
            assert(at + cell_offset(kinds, is_64bit, (k + 1) as nat) + kinds[k + 1].width(is_64bit)
                <= end);
        }
        lemma_cell_offset_shift(kinds, is_64bit, j as nat);
        lemma_cells_that_fit_are_read(file, heap, is_64bit, rest, next, end, j - 1);
        assert(rest[j - 1] == kinds[j]);
    }
}

/// The offset of a cell counts the first cell and then the offset within the
/// rest of the row.
proof fn lemma_cell_offset_shift(kinds: Seq<ColumnKind>, is_64bit: bool, j: nat)
    requires
        1 <= j <= kinds.len(),
    ensures
        cell_offset(kinds, is_64bit, j) == kinds[0].stride(is_64bit) + cell_offset(
            kinds.drop_first(),
            is_64bit,
            (j - 1) as nat,
        ),
    decreases j,
{
    if j > 1 {
        lemma_cell_offset_shift(kinds, is_64bit, (j - 1) as nat);
        assert(kinds.drop_first()[j - 2] == kinds[j - 1]);
    } else {
        assert(cell_offset(kinds, is_64bit, 0) == 0);
        assert(cell_offset(kinds.drop_first(), is_64bit, 0) == 0);
    }
}

/// A table whose rows are followed by the marker opens with the row length
/// that puts the marker right behind the last row, provided that no marker
/// before it leaves a whole number of bytes for each row.
pub proof fn lemma_marker_behind_rows_is_found(
    reader: DatReaderView,
    data: Seq<u8>,
    filename: Seq<char>,
    row_length: nat,
)
    requires
        reader.opens(data, filename),
        reader.row_count > 0,
        4 + reader.row_count * row_length <= usize::MAX,
        marker_at(data, 4 + reader.row_count * row_length, marker_width(reader.is_64bit)),
        forall|j: int|
            4 <= j < 4 + reader.row_count * row_length ==> !is_boundary(
                data,
                marker_width(reader.is_64bit),
                reader.row_count as nat,
                j,
            ),
    ensures
        reader.data_section_offset == 4 + reader.row_count * row_length,
        reader.row_length == Some(row_length as usize),
{
    let count = reader.row_count as int;
    let behind = 4 + count * row_length;
    assert((count * row_length) % count == 0 && (count * row_length) / count == row_length)
        by (nonlinear_arith)
        requires
            count > 0,
            row_length >= 0,
    ;
    assert(count * row_length >= 0) by (nonlinear_arith)
        requires
            count > 0,
            row_length >= 0,
    ;
    assert(is_boundary(data, marker_width(reader.is_64bit), reader.row_count as nat, behind));
}

} // verus!

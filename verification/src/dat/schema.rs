//! The column schema of DAT tables and the widths of the column types.

use crate::text::{ascii_lower, bytes_eq, has_prefix, starts_with, str_eq, to_ascii_lowercase};
use vstd::prelude::*;
use vstd::string::*;
use vstd::utf8::encode_utf8;

verus! {

/// One column of a table.
#[derive(Debug, Clone, PartialEq, Eq)]
pub struct Column {
    pub name: Option<String>,
    /// Name of the column's type, such as `bool`, `i32` or `string`.
    pub ty: String,
    /// Whether a cell holds a list of values of that type.
    pub array: bool,
    /// Name of the table that the column refers to, if any.
    pub references: Option<String>,
}

/// The columns of one table, in the order in which a row stores them.
#[derive(Debug, Clone, PartialEq, Eq)]
pub struct Table {
    pub name: String,
    pub columns: Vec<Column>,
}

/// The tables of a schema.
#[derive(Debug, Clone, PartialEq, Eq)]
pub struct Schema {
    pub tables: Vec<Table>,
}

/// How the cells of a column are stored and read.
#[derive(Debug, Clone, Copy, PartialEq, Eq, Structural)]
pub enum ColumnKind {
    /// `bool`: one byte, true unless zero.
    Bool,
    /// `byte`, `u8`: one unsigned byte.
    Byte,
    /// `short`: two bytes, signed.
    Short,
    /// `i16`: read like `short`, but counted with the width of an unlisted
    /// type.
    I16,
    /// `ushort`, `u16`: two bytes, unsigned.
    UShort,
    /// `int`, `i32`: four bytes, signed.
    Int,
    /// `uint`, `u32`: four bytes, unsigned.
    UInt,
    /// `float`, `f32`: four bytes.
    Float,
    /// `long`, `i64`, `ulong`, `u64`: eight bytes.
    Long,
    /// `string`, `ref|string`: an offset into the variable-length section.
    Text,
    /// `foreign_row`, `foreignrow`: the index of a row of another table.
    ForeignRow,
    /// `row` and every other `ref|` type: the index of a row.
    Row,
    /// A type that is not listed.
    Other,
    /// A list of values, whatever their type.
    Array,
}

/// The kind of a column that is no list, by the name of its type.
pub open spec fn scalar_kind(ty: Seq<char>) -> ColumnKind {
    if ty == "bool"@ {
        ColumnKind::Bool
    } else if ty == "byte"@ || ty == "u8"@ {
        ColumnKind::Byte
    } else if ty == "short"@ {
        ColumnKind::Short
    } else if ty == "i16"@ {
        ColumnKind::I16
    } else if ty == "ushort"@ || ty == "u16"@ {
        ColumnKind::UShort
    } else if ty == "int"@ || ty == "i32"@ {
        ColumnKind::Int
    } else if ty == "uint"@ || ty == "u32"@ {
        ColumnKind::UInt
    } else if ty == "float"@ || ty == "f32"@ {
        ColumnKind::Float
    } else if ty == "long"@ || ty == "i64"@ || ty == "ulong"@ || ty
        == "u64"@ {
        ColumnKind::Long
    } else if ty == "string"@ || ty == "ref|string"@ {
        ColumnKind::Text
    } else if ty == "foreign_row"@ || ty == "foreignrow"@ {
        ColumnKind::ForeignRow
    } else if has_prefix(ty, "ref|"@) || ty == "row"@ {
        ColumnKind::Row
    } else {
        ColumnKind::Other
    }
}

/// The kind of a column: a column flagged as an array is a list, whatever its
/// type.
pub open spec fn column_kind(ty: Seq<char>, array: bool) -> ColumnKind {
    if array {
        ColumnKind::Array
    } else {
        scalar_kind(ty)
    }
}

impl ColumnKind {
    /// Number of bytes that a cell of this kind takes in a row. Offsets and
    /// row indices double in 64-bit tables; a foreign row there carries eight
    /// more bytes.
    pub open spec fn width(self, is_64bit: bool) -> nat {
        match self {
            ColumnKind::Bool | ColumnKind::Byte => 1,
            ColumnKind::Short | ColumnKind::UShort => 2,
            ColumnKind::Int | ColumnKind::UInt | ColumnKind::Float => 4,
            ColumnKind::I16 | ColumnKind::Other => 4,
            ColumnKind::Long => 8,
            ColumnKind::Text | ColumnKind::Row => if is_64bit {
                8
            } else {
                4
            },
            ColumnKind::ForeignRow => if is_64bit {
                16
            } else {
                4
            },
            ColumnKind::Array => if is_64bit {
                16
            } else {
                8
            },
        }
    }

    /// Number of bytes that reading a cell of this kind moves on by.
    pub open spec fn stride(self, is_64bit: bool) -> nat {
        match self {
            ColumnKind::I16 => 2,
            _ => self.width(is_64bit),
        }
    }

    /// Computes `width`.
    pub fn byte_width(self, is_64bit: bool) -> (w: usize)
        ensures
            w == self.width(is_64bit),
            1 <= w <= 16,
    {
        match self {
            ColumnKind::Bool | ColumnKind::Byte => 1,
            ColumnKind::Short | ColumnKind::UShort => 2,
            ColumnKind::Int | ColumnKind::UInt | ColumnKind::Float => 4,
            ColumnKind::I16 | ColumnKind::Other => 4,
            ColumnKind::Long => 8,
            ColumnKind::Text | ColumnKind::Row => if is_64bit {
                8
            } else {
                4
            },
            ColumnKind::ForeignRow => if is_64bit {
                16
            } else {
                4
            },
            ColumnKind::Array => if is_64bit {
                16
            } else {
                8
            },
        }
    }

    /// Computes `stride`.
    pub fn byte_stride(self, is_64bit: bool) -> (w: usize)
        ensures
            w == self.stride(is_64bit),
            1 <= w <= self.width(is_64bit),
    {
        match self {
            ColumnKind::I16 => 2,
            _ => self.byte_width(is_64bit),
        }
    }
}

impl Column {
    /// The kind of the column.
    pub open spec fn kind(&self) -> ColumnKind {
        column_kind(self.ty@, self.array)
    }

    /// Computes the kind of the column from its array flag and the name of
    /// its type.
    pub fn classify(&self) -> (kind: ColumnKind)
        ensures
            kind == self.kind(),
    {
        if self.array {
            return ColumnKind::Array;
        }
        let t = self.ty.as_str();
        if str_eq(t, "bool") {
            ColumnKind::Bool
        } else if str_eq(t, "byte") || str_eq(t, "u8") {
            ColumnKind::Byte
        } else if str_eq(t, "short") {
            ColumnKind::Short
        } else if str_eq(t, "i16") {
            ColumnKind::I16
        } else if str_eq(t, "ushort") || str_eq(t, "u16") {
            ColumnKind::UShort
        } else if str_eq(t, "int") || str_eq(t, "i32") {
            ColumnKind::Int
        } else if str_eq(t, "uint") || str_eq(t, "u32") {
            ColumnKind::UInt
        } else if str_eq(t, "float") || str_eq(t, "f32") {
            ColumnKind::Float
        } else if str_eq(t, "long") || str_eq(t, "i64") || str_eq(t, "ulong") || str_eq(t, "u64") {
            ColumnKind::Long
        } else if str_eq(t, "string") || str_eq(t, "ref|string") {
            ColumnKind::Text
        } else if str_eq(t, "foreign_row") || str_eq(t, "foreignrow") {
            ColumnKind::ForeignRow
        } else if starts_with(t, "ref|") || str_eq(t, "row") {
            ColumnKind::Row
        } else {
            ColumnKind::Other
        }
    }
}

/// Number of bytes that a cell of `col` takes in a row of a 32-bit or a 64-bit
/// table.
pub fn get_column_size(col: &Column, is_64bit: bool) -> (size: usize)
    ensures
        size == col.kind().width(is_64bit),
{
    col.classify().byte_width(is_64bit)
}

/// Whether two names are the same but for the case of their ASCII letters.
pub open spec fn same_ignoring_ascii_case(a: Seq<char>, b: Seq<char>) -> bool {
    ascii_lower(encode_utf8(a)) == ascii_lower(encode_utf8(b))
}

/// The first table from `from` on whose name is `name` but for the case of
/// its ASCII letters.
pub open spec fn table_index(tables: Seq<Table>, name: Seq<char>, from: int) -> Option<int>
    decreases tables.len() - from,
{
    if from < 0 || from >= tables.len() {
        None
    } else if same_ignoring_ascii_case(tables[from].name@, name) {
        Some(from)
    } else {
        table_index(tables, name, from + 1)
    }
}

impl Schema {
    /// Looks for the table called `name`, whatever the case of its ASCII
    /// letters; the first one wins.
    pub fn find_table(&self, name: &str) -> (found: Option<&Table>)
        ensures
            match found {
                Some(table) => table_index(self.tables@, name@, 0) matches Some(i) && *table
                    == self.tables@[i],
                None => table_index(self.tables@, name@, 0) is None,
            },
    {
        let wanted = to_ascii_lowercase(name.as_bytes());
        let mut i: usize = 0;
        while i < self.tables.len()
            invariant
                i <= self.tables@.len(),
                wanted@ == ascii_lower(encode_utf8(name@)),
                table_index(self.tables@, name@, 0) == table_index(self.tables@, name@, i as int),
            decreases self.tables@.len() - i,
        {
            let candidate = to_ascii_lowercase(self.tables[i].name.as_str().as_bytes());
            if bytes_eq(candidate.as_slice(), wanted.as_slice()) {
                return Some(&self.tables[i]);
            }
            i += 1;
        }
        None
    }
}

} // verus!

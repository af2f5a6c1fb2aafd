use ggpk_explorer::dat::reader::{
    read_column_value, read_string_at, DatError, DatReader, DatValue,
};
use ggpk_explorer::dat::schema::{get_column_size, Column, ColumnKind, Schema, Table};
use ggpk_explorer::text::{ends_with, starts_with, str_eq};

fn col(ty: &str) -> Column {
    Column { name: None, ty: ty.to_string(), array: false, references: None }
}

fn list(ty: &str) -> Column {
    Column { name: Some("items".to_string()), ty: ty.to_string(), array: true, references: None }
}

fn table(columns: Vec<Column>) -> Table {
    Table { name: "Test".to_string(), columns }
}

fn file(row_count: u32, rows: &[u8], marker: usize, heap: &[u8]) -> Vec<u8> {
    let mut data = row_count.to_le_bytes().to_vec();
    data.extend_from_slice(rows);
    data.extend(std::iter::repeat(0xBB).take(marker));
    data.extend_from_slice(heap);
    data
}

fn utf16(text: &str) -> Vec<u8> {
    let mut out = Vec::new();
    for unit in text.encode_utf16() {
        out.extend_from_slice(&unit.to_le_bytes());
    }
    out.extend_from_slice(&[0, 0]);
    out
}

#[test]
fn column_widths_in_32_bit_tables() {
    for (ty, width) in [
        ("bool", 1),
        ("byte", 1),
        ("u8", 1),
        ("short", 2),
        ("u16", 2),
        ("ushort", 2),
        ("int", 4),
        ("uint", 4),
        ("float", 4),
        ("u32", 4),
        ("i32", 4),
        ("f32", 4),
        ("long", 8),
        ("ulong", 8),
        ("u64", 8),
        ("i64", 8),
        ("string", 4),
        ("ref|string", 4),
        ("ref|Mods", 4),
        ("ref|", 4),
        ("row", 4),
        ("foreign_row", 4),
        ("foreignrow", 4),
        ("enumrow", 4),
        ("i16", 4),
        ("", 4),
        ("Bool", 4),
    ] {
        assert_eq!(get_column_size(&col(ty), false), width, "{}", ty);
    }
}

#[test]
fn column_widths_in_64_bit_tables() {
    for (ty, width) in [
        ("bool", 1),
        ("byte", 1),
        ("u8", 1),
        ("short", 2),
        ("u16", 2),
        ("ushort", 2),
        ("int", 4),
        ("uint", 4),
        ("float", 4),
        ("u32", 4),
        ("long", 8),
        ("ulong", 8),
        ("u64", 8),
        ("i64", 8),
        ("string", 8),
        ("ref|string", 8),
        ("ref|Mods", 8),
        ("row", 8),
        ("foreign_row", 16),
        ("foreignrow", 16),
        ("enumrow", 4),
        ("i16", 4),
    ] {
        assert_eq!(get_column_size(&col(ty), true), width, "{}", ty);
    }
}

#[test]
fn array_columns_hold_a_count_and_an_offset() {
    for ty in ["bool", "string", "long", "foreign_row", "whatever"] {
        assert_eq!(get_column_size(&list(ty), false), 8);
        assert_eq!(get_column_size(&list(ty), true), 16);
        assert_eq!(list(ty).classify(), ColumnKind::Array);
    }
}

#[test]
fn columns_are_classified_by_the_name_of_their_type() {
    assert_eq!(col("bool").classify(), ColumnKind::Bool);
    assert_eq!(col("u8").classify(), ColumnKind::Byte);
    assert_eq!(col("short").classify(), ColumnKind::Short);
    assert_eq!(col("i16").classify(), ColumnKind::I16);
    assert_eq!(col("u16").classify(), ColumnKind::UShort);
    assert_eq!(col("i32").classify(), ColumnKind::Int);
    assert_eq!(col("uint").classify(), ColumnKind::UInt);
    assert_eq!(col("f32").classify(), ColumnKind::Float);
    assert_eq!(col("ulong").classify(), ColumnKind::Long);
    assert_eq!(col("ref|string").classify(), ColumnKind::Text);
    assert_eq!(col("foreignrow").classify(), ColumnKind::ForeignRow);
    assert_eq!(col("ref|x").classify(), ColumnKind::Row);
    assert_eq!(col("row").classify(), ColumnKind::Row);
    assert_eq!(col("ref").classify(), ColumnKind::Other);
    assert_eq!(col("strin").classify(), ColumnKind::Other);
    assert_eq!(col("stringy").classify(), ColumnKind::Other);
}

#[test]
fn strides_differ_from_widths_for_i16_only() {
    for wide in [false, true] {
        assert_eq!(ColumnKind::I16.byte_width(wide), 4);
        assert_eq!(ColumnKind::I16.byte_stride(wide), 2);
        for kind in [
            ColumnKind::Bool,
            ColumnKind::Byte,
            ColumnKind::Short,
            ColumnKind::UShort,
            ColumnKind::Int,
            ColumnKind::UInt,
            ColumnKind::Float,
            ColumnKind::Long,
            ColumnKind::Text,
            ColumnKind::ForeignRow,
            ColumnKind::Row,
            ColumnKind::Other,
            ColumnKind::Array,
        ] {
            assert_eq!(kind.byte_stride(wide), kind.byte_width(wide));
        }
    }
}

#[test]
fn text_comparisons() {
    assert!(str_eq("", ""));
    assert!(str_eq("größe", "größe"));
    assert!(!str_eq("a", "b"));
    assert!(!str_eq("a", "ab"));
    assert!(starts_with("ref|string", "ref|"));
    assert!(starts_with("ref|", "ref|"));
    assert!(!starts_with("ref", "ref|"));
    assert!(!starts_with("xref|", "ref|"));
    assert!(starts_with("anything", ""));
    assert!(ends_with("Mods.dat64", "64"));
    assert!(ends_with("64", "64"));
    assert!(!ends_with("4", "64"));
    assert!(!ends_with("Mods.dat", "64"));
    assert!(ends_with("größe64", "64"));
}

#[test]
fn the_marker_behind_two_rows_is_found() {
    let rows = [1u8, 2, 3, 4, 5, 6, 7, 8, 9, 10, 11, 12];
    let data = file(2, &rows, 4, &[]);
    let reader = DatReader::new(data.clone(), "Test.dat").unwrap();
    assert!(!reader.is_64bit);
    assert_eq!(reader.row_count, 2);
    assert_eq!(reader.row_length, Some(6));
    assert_eq!(reader.data_section_offset, 16);
    assert_eq!(reader.filename, "Test.dat");
    assert_eq!(reader.get_data(), &data[..]);
}

#[test]
fn markers_that_split_the_rows_unevenly_are_passed_over() {
    let rows = [1u8, 2, 3, 4, 5, 0xBB, 0xBB, 0xBB, 0xBB, 10, 11, 12];
    let reader = DatReader::new(file(2, &rows, 4, &[0; 8]), "Test.dat").unwrap();
    assert_eq!(reader.row_length, Some(6));
    assert_eq!(reader.data_section_offset, 16);
    let rows = [1u8, 2, 3, 0xBB, 0xBB, 0xBB, 0xBB, 0xBB, 0xBB, 10, 11, 12];
    let reader = DatReader::new(file(4, &rows, 4, &[]), "Test.dat").unwrap();
    assert_eq!(reader.row_length, Some(1));
    assert_eq!(reader.data_section_offset, 8);
}

#[test]
fn the_first_marker_that_splits_the_rows_evenly_wins() {
    let rows = [1u8, 2, 3, 4, 0xBB, 0xBB, 0xBB, 0xBB, 9, 10, 11, 12];
    let reader = DatReader::new(file(2, &rows, 4, &[]), "Test.dat").unwrap();
    assert_eq!(reader.row_length, Some(2));
    assert_eq!(reader.data_section_offset, 8);
}

#[test]
fn rows_of_length_zero() {
    let reader = DatReader::new(file(3, &[], 4, &[1, 2]), "Test.dat").unwrap();
    assert_eq!(reader.row_length, Some(0));
    assert_eq!(reader.data_section_offset, 4);
}

#[test]
fn tables_named_64_have_a_marker_of_eight_bytes() {
    let rows = [1u8, 2, 3, 4, 0xBB, 0xBB, 0xBB, 0xBB, 9, 10, 11, 12];
    for name in ["Test.dat64", "Test.datc64", "Test.datl64"] {
        let reader = DatReader::new(file(2, &rows, 8, &[]), name).unwrap();
        assert!(reader.is_64bit);
        assert_eq!(reader.row_length, Some(6));
        assert_eq!(reader.data_section_offset, 16);
    }
    for name in ["Test.dat", "Test.datc", "Test.dat64.bak", ""] {
        let reader = DatReader::new(file(2, &rows, 8, &[]), name).unwrap();
        assert!(!reader.is_64bit);
        assert_eq!(reader.row_length, Some(2));
        assert_eq!(reader.data_section_offset, 8);
    }
}

#[test]
fn a_table_without_a_fitting_marker_cannot_be_opened() {
    let rows = [1u8, 2, 3, 4, 5, 6];
    assert_eq!(
        DatReader::new(file(2, &rows, 0, &[]), "Test.dat").err(),
        Some(DatError::NoBoundary { row_count: 2 })
    );
    assert_eq!(
        DatReader::new(file(2, &rows, 3, &[]), "Test.dat").err(),
        Some(DatError::NoBoundary { row_count: 2 })
    );
    assert_eq!(
        DatReader::new(file(2, &rows, 4, &[]), "Test.dat64").err(),
        Some(DatError::NoBoundary { row_count: 2 })
    );
    assert_eq!(
        DatReader::new(file(4, &rows, 4, &[]), "Test.dat").err(),
        Some(DatError::NoBoundary { row_count: 4 })
    );
    assert_eq!(
        DatReader::new(file(7, &[], 0, &[]), "Test.dat").err(),
        Some(DatError::NoBoundary { row_count: 7 })
    );
}

#[test]
fn a_table_too_short_for_its_row_count_cannot_be_opened() {
    for len in 0..4 {
        assert_eq!(
            DatReader::new(vec![0u8; len], "Test.dat").err(),
            Some(DatError::UnexpectedEof)
        );
    }
}

#[test]
fn a_table_without_rows_opens_with_or_without_its_marker() {
    let reader = DatReader::new(file(0, &[], 4, &[]), "Test.dat").unwrap();
    assert_eq!(reader.row_count, 0);
    assert_eq!(reader.row_length, Some(0));
    assert_eq!(reader.data_section_offset, 4);
    let reader = DatReader::new(file(0, &[], 0, &[]), "Test.dat").unwrap();
    assert_eq!(reader.row_length, Some(0));
    assert_eq!(reader.data_section_offset, 0);
    let reader = DatReader::new(file(0, &[1, 2, 3, 4], 4, &[]), "Test.dat").unwrap();
    assert_eq!(reader.data_section_offset, 0);
    let reader = DatReader::new(file(0, &[], 8, &[]), "Test.dat64").unwrap();
    assert_eq!(reader.data_section_offset, 4);
    let reader = DatReader::new(file(0, &[], 4, &[0; 4]), "Test.dat64").unwrap();
    assert_eq!(reader.data_section_offset, 0);
    let reader = DatReader::new(file(0, &[], 7, &[]), "Test.dat64").unwrap();
    assert_eq!(reader.data_section_offset, 0);
    let reader = DatReader::new(file(0, &[], 3, &[]), "Test.dat").unwrap();
    assert_eq!(reader.data_section_offset, 0);
}

fn every_kind() -> Table {
    table(vec![
        col("bool"),
        col("byte"),
        col("short"),
        col("ushort"),
        col("int"),
        col("uint"),
        col("float"),
        col("long"),
        col("string"),
        col("foreign_row"),
        col("row"),
        list("int"),
        col("mystery"),
    ])
}

fn row_32() -> Vec<u8> {
    let mut row = vec![1u8, 200];
    row.extend_from_slice(&(-2i16).to_le_bytes());
    row.extend_from_slice(&65535u16.to_le_bytes());
    row.extend_from_slice(&(-3i32).to_le_bytes());
    row.extend_from_slice(&4_000_000_000u32.to_le_bytes());
    row.extend_from_slice(&1.5f32.to_bits().to_le_bytes());
    row.extend_from_slice(&0xFEDC_BA98_7654_3210u64.to_le_bytes());
    row.extend_from_slice(&8u32.to_le_bytes());
    row.extend_from_slice(&77u32.to_le_bytes());
    row.extend_from_slice(&78u32.to_le_bytes());
    row.extend_from_slice(&3u32.to_le_bytes());
    row.extend_from_slice(&14u32.to_le_bytes());
    row.extend_from_slice(&[9, 9, 9, 9]);
    row
}

fn values_32() -> Vec<DatValue> {
    vec![
        DatValue::Bool(true),
        DatValue::Int(200),
        DatValue::Int(-2),
        DatValue::Int(65535),
        DatValue::Int(-3),
        DatValue::Int(4_000_000_000),
        DatValue::Float(0x3FC0_0000),
        DatValue::Long(0xFEDC_BA98_7654_3210),
        DatValue::String("Hi".to_string()),
        DatValue::ForeignRow(77),
        DatValue::ForeignRow(78),
        DatValue::List(3, 14),
        DatValue::Unknown,
    ]
}

fn heap_32() -> Vec<u8> {
    let mut heap = vec![0u8; 4];
    heap.extend(utf16("Hi"));
    for v in [10i32, -20, 30] {
        heap.extend_from_slice(&v.to_le_bytes());
    }
    heap
}

#[test]
fn a_row_of_every_kind_in_a_32_bit_table() {
    let row = row_32();
    assert_eq!(row.len(), 50);
    let mut rows = row.clone();
    rows.extend(vec![0u8; 50]);
    let reader = DatReader::new(file(2, &rows, 4, &heap_32()), "Test.dat").unwrap();
    assert_eq!(reader.row_length, Some(50));
    assert_eq!(reader.read_row(0, &every_kind()).unwrap(), values_32());
    let second = reader.read_row(1, &every_kind()).unwrap();
    assert_eq!(second[0], DatValue::Bool(false));
    assert_eq!(second[8], DatValue::String(String::new()));
    assert_eq!(second[11], DatValue::List(0, 0));
    match values_32()[6] {
        DatValue::Float(bits) => assert_eq!(f32::from_bits(bits), 1.5),
        _ => unreachable!(),
    }
}

#[test]
fn a_row_of_every_kind_in_a_64_bit_table() {
    let mut row = vec![1u8, 200];
    row.extend_from_slice(&(-2i16).to_le_bytes());
    row.extend_from_slice(&65535u16.to_le_bytes());
    row.extend_from_slice(&(-3i32).to_le_bytes());
    row.extend_from_slice(&4_000_000_000u32.to_le_bytes());
    row.extend_from_slice(&1.5f32.to_bits().to_le_bytes());
    row.extend_from_slice(&0xFEDC_BA98_7654_3210u64.to_le_bytes());
    row.extend_from_slice(&8u32.to_le_bytes());
    row.extend_from_slice(&[0xEE; 4]);
    row.extend_from_slice(&77u32.to_le_bytes());
    row.extend_from_slice(&[0xEE; 12]);
    row.extend_from_slice(&78u32.to_le_bytes());
    row.extend_from_slice(&[0xEE; 4]);
    row.extend_from_slice(&3u32.to_le_bytes());
    row.extend_from_slice(&[0xEE; 4]);
    row.extend_from_slice(&14u32.to_le_bytes());
    row.extend_from_slice(&[0xEE; 4]);
    row.extend_from_slice(&[9, 9, 9, 9]);
    assert_eq!(row.len(), 78);
    let mut heap = Vec::new();
    heap.extend(utf16("Hi"));
    let reader = DatReader::new(file(1, &row, 8, &heap), "Test.dat64").unwrap();
    assert_eq!(reader.row_length, Some(78));
    assert_eq!(reader.data_section_offset, 82);
    assert_eq!(reader.read_row(0, &every_kind()).unwrap(), values_32());
}

#[test]
fn cells_behind_the_end_of_a_short_row_are_unknown() {
    let full = row_32();
    let expected = values_32();
    let schema = every_kind();
    let mut ends = Vec::new();
    let mut at = 0;
    for c in &schema.columns {
        at += get_column_size(c, false);
        ends.push(at);
    }
    assert_eq!(at, 50);
    for len in 0..=full.len() {
        let reader = DatReader::new(file(1, &full[..len], 4, &heap_32()), "Test.dat").unwrap();
        assert_eq!(reader.row_length, Some(len));
        let values = reader.read_row(0, &schema).unwrap();
        assert_eq!(values.len(), schema.columns.len());
        for (j, value) in values.iter().enumerate() {
            if ends[j] <= len {
                if j != 8 {
                    assert_eq!(value, &expected[j], "row of {} bytes, cell {}", len, j);
                }
            } else {
                assert_eq!(value, &DatValue::Unknown, "row of {} bytes, cell {}", len, j);
            }
        }
    }
}

#[test]
fn a_cell_that_does_not_fit_hides_the_narrower_cells_after_it() {
    let schema = table(vec![col("int"), col("bool")]);
    let reader = DatReader::new(file(1, &[1, 2], 4, &[]), "Test.dat").unwrap();
    assert_eq!(
        reader.read_row(0, &schema).unwrap(),
        vec![DatValue::Unknown, DatValue::Unknown]
    );
}

#[test]
fn rows_of_unknown_length_are_as_wide_as_their_columns() {
    let schema = table(vec![col("short"), col("byte"), col("int")]);
    let mut rows = Vec::new();
    for r in 0..3u8 {
        rows.extend_from_slice(&[r, 0, 10 + r, r, 1, 0, 0]);
    }
    let mut reader = DatReader::new(file(0, &rows, 0, &[]), "Test.dat").unwrap();
    assert_eq!(reader.row_length, Some(0));
    reader.row_length = None;
    for r in 0..3u32 {
        assert_eq!(
            reader.read_row(r, &schema).unwrap(),
            vec![DatValue::Int(r as i64), DatValue::Int(10 + r as i64), DatValue::Int(256 + r as i64)]
        );
    }
}

#[test]
fn a_row_that_the_end_of_the_table_cuts_short() {
    let schema = table(vec![col("short"), col("byte"), col("int")]);
    let rows = [1u8, 0, 2, 3, 0, 0, 0, 9, 0, 8];
    let mut reader = DatReader::new(file(0, &rows, 0, &[]), "Test.dat").unwrap();
    reader.row_length = None;
    assert_eq!(
        reader.read_row(1, &schema).unwrap(),
        vec![DatValue::Int(9), DatValue::Int(8), DatValue::Unknown]
    );
}

#[test]
fn rows_that_start_behind_the_table_are_out_of_bounds() {
    let schema = table(vec![col("byte"), col("byte")]);
    let reader = DatReader::new(file(2, &[1, 2, 3, 4], 4, &[]), "Test.dat").unwrap();
    assert_eq!(reader.get_data().len(), 12);
    assert_eq!(
        reader.read_row(1, &schema).unwrap(),
        vec![DatValue::Int(3), DatValue::Int(4)]
    );
    assert_eq!(
        reader.read_row(3, &schema).unwrap(),
        vec![DatValue::Int(0xBB), DatValue::Int(0xBB)]
    );
    assert_eq!(
        reader.read_row(4, &schema).unwrap(),
        vec![DatValue::Unknown, DatValue::Unknown]
    );
    assert_eq!(reader.read_row(5, &schema).err(), Some(DatError::RowOutOfBounds));
    assert_eq!(reader.read_row(u32::MAX, &schema).err(), Some(DatError::RowOutOfBounds));
}

#[test]
fn a_row_without_columns_has_no_cells() {
    let reader = DatReader::new(file(1, &[1, 2], 4, &[]), "Test.dat").unwrap();
    assert_eq!(reader.read_row(0, &table(vec![])).unwrap(), vec![]);
}

#[test]
fn i16_is_read_from_two_bytes_but_asks_for_four() {
    let schema = table(vec![col("i16"), col("byte"), col("byte")]);
    let reader = DatReader::new(file(1, &[0xFE, 0xFF, 7, 8], 4, &[]), "Test.dat").unwrap();
    assert_eq!(
        reader.read_row(0, &schema).unwrap(),
        vec![DatValue::Int(-2), DatValue::Int(7), DatValue::Int(8)]
    );
    let reader = DatReader::new(file(1, &[0xFE, 0xFF, 7], 4, &[]), "Test.dat").unwrap();
    assert_eq!(
        reader.read_row(0, &schema).unwrap(),
        vec![DatValue::Unknown, DatValue::Unknown, DatValue::Unknown]
    );
}

#[test]
fn strings_point_into_the_variable_length_section() {
    let schema = table(vec![col("string"), col("ref|string"), col("string"), col("string")]);
    let mut row = Vec::new();
    row.extend_from_slice(&4u32.to_le_bytes());
    row.extend_from_slice(&16u32.to_le_bytes());
    row.extend_from_slice(&0u32.to_le_bytes());
    row.extend_from_slice(&5000u32.to_le_bytes());
    let mut heap = utf16("Grüße");
    heap.extend(utf16("€"));
    let reader = DatReader::new(file(1, &row, 4, &heap), "Test.dat").unwrap();
    assert_eq!(reader.data_section_offset, 20);
    assert_eq!(
        reader.read_row(0, &schema).unwrap(),
        vec![
            DatValue::String("Grüße".to_string()),
            DatValue::String("€".to_string()),
            DatValue::String(String::new()),
            DatValue::String(String::new()),
        ]
    );
}

#[test]
fn strings_are_decoded_as_lossy_utf16() {
    let data = [0x41, 0x00, 0x00, 0xD8, 0x42, 0x00, 0x00, 0x00];
    assert_eq!(read_string_at(&data, 0), "A\u{FFFD}B");
    let pair = [0x3D, 0xD8, 0x00, 0xDE, 0x00, 0x00];
    assert_eq!(read_string_at(&pair, 0), "\u{1F600}");
}

#[test]
fn strings_end_at_the_end_of_the_table() {
    let data = [0x41, 0x00, 0x42, 0x00, 0x43];
    assert_eq!(read_string_at(&data, 0), "AB");
    assert_eq!(read_string_at(&data, 1), "\u{4200}\u{4300}");
    assert_eq!(read_string_at(&data, 3), "\u{4300}");
    assert_eq!(read_string_at(&data, 4), "");
    assert_eq!(read_string_at(&data, 5), "");
    assert_eq!(read_string_at(&data, 500), "");
    assert_eq!(read_string_at(&[], 0), "");
    assert_eq!(read_string_at(&[0, 0, 0x41, 0], 0), "");
}

#[test]
fn strings_are_read_for_1001_units_at_most() {
    let mut data = Vec::new();
    for _ in 0..1500 {
        data.extend_from_slice(&[0x61, 0x00]);
    }
    assert_eq!(read_string_at(&data, 0), "a".repeat(1001));
    assert_eq!(read_string_at(&data, 998), "a".repeat(1001));
    assert_eq!(read_string_at(&data, 1000), "a".repeat(1000));
}

#[test]
fn a_cell_is_read_only_if_it_lies_whole_before_the_end() {
    let data = [1u8, 2, 3, 4, 5, 6, 7, 8];
    assert_eq!(
        read_column_value(&data, 0, 8, ColumnKind::Int, 0, false),
        Ok(DatValue::Int(0x04030201))
    );
    assert_eq!(
        read_column_value(&data, 4, 8, ColumnKind::UInt, 0, false),
        Ok(DatValue::Int(0x08070605))
    );
    assert_eq!(
        read_column_value(&data, 5, 8, ColumnKind::Int, 0, false),
        Err(DatError::UnexpectedEof)
    );
    assert_eq!(
        read_column_value(&data, 0, 3, ColumnKind::Int, 0, false),
        Err(DatError::UnexpectedEof)
    );
    assert_eq!(
        read_column_value(&data, 0, 9, ColumnKind::Int, 0, false),
        Err(DatError::UnexpectedEof)
    );
    assert_eq!(
        read_column_value(&data, 6, 4, ColumnKind::Bool, 0, false),
        Err(DatError::UnexpectedEof)
    );
    assert_eq!(
        read_column_value(&data, 0, 8, ColumnKind::Long, 0, false),
        Ok(DatValue::Long(0x0807060504030201))
    );
    assert_eq!(
        read_column_value(&data, 0, 8, ColumnKind::Array, 0, false),
        Ok(DatValue::List(0x04030201, 0x08070605))
    );
    assert_eq!(
        read_column_value(&data, 0, 8, ColumnKind::Array, 0, true),
        Err(DatError::UnexpectedEof)
    );
    assert_eq!(
        read_column_value(&data, 6, 8, ColumnKind::I16, 0, false),
        Ok(DatValue::Int(0x0807))
    );
    assert_eq!(
        read_column_value(&data, 4, 8, ColumnKind::Other, 0, false),
        Ok(DatValue::Unknown)
    );
    assert_eq!(
        read_column_value(&data, 0, 8, ColumnKind::Text, u64::MAX, false),
        Ok(DatValue::String(String::new()))
    );
}

#[test]
fn lists_are_decoded_element_by_element() {
    let reader = DatReader::new(file(1, &[0; 2], 4, &heap_32()), "Test.dat").unwrap();
    assert_eq!(reader.data_section_offset, 6);
    assert_eq!(
        reader.read_list_values(14, 3, &list("int")).unwrap(),
        vec![DatValue::Int(10), DatValue::Int(-20), DatValue::Int(30)]
    );
    assert_eq!(
        reader.read_list_values(14, 3, &col("int")).unwrap(),
        vec![DatValue::Int(10), DatValue::Int(-20), DatValue::Int(30)]
    );
    assert_eq!(
        reader.read_list_values(18, 2, &list("uint")).unwrap(),
        vec![DatValue::Int(0xFFFF_FFEC), DatValue::Int(30)]
    );
    assert_eq!(
        reader.read_list_values(14, 12, &list("byte")).unwrap(),
        [10u8, 0, 0, 0, 0xEC, 0xFF, 0xFF, 0xFF, 30, 0, 0, 0]
            .iter()
            .map(|b| DatValue::Int(*b as i64))
            .collect::<Vec<_>>()
    );
}

#[test]
fn lists_that_run_past_the_table_end_in_unknown_values() {
    let reader = DatReader::new(file(1, &[0; 2], 4, &heap_32()), "Test.dat").unwrap();
    assert_eq!(reader.get_data().len(), 32);
    assert_eq!(
        reader.read_list_values(18, 4, &list("int")).unwrap(),
        vec![DatValue::Int(-20), DatValue::Int(30), DatValue::Unknown, DatValue::Unknown]
    );
    assert_eq!(
        reader.read_list_values(23, 2, &list("int")).unwrap(),
        vec![DatValue::Unknown, DatValue::Unknown]
    );
    assert_eq!(
        reader.read_list_values(25, 3, &list("byte")).unwrap(),
        vec![DatValue::Int(0), DatValue::Unknown, DatValue::Unknown]
    );
}

#[test]
fn lists_that_start_behind_the_table_are_one_unknown_value() {
    let reader = DatReader::new(file(1, &[0; 2], 4, &heap_32()), "Test.dat").unwrap();
    assert_eq!(reader.read_list_values(26, 5, &list("int")).unwrap(), vec![DatValue::Unknown]);
    assert_eq!(
        reader.read_list_values(u64::MAX, 5, &list("int")).unwrap(),
        vec![DatValue::Unknown]
    );
    assert_eq!(reader.read_list_values(26, 0, &list("int")).unwrap(), vec![]);
    assert_eq!(reader.read_list_values(0, 0, &list("int")).unwrap(), vec![]);
}

#[test]
fn lists_of_strings_and_of_unlisted_types() {
    let mut heap = vec![0u8; 4];
    heap.extend_from_slice(&16u32.to_le_bytes());
    heap.extend_from_slice(&0u32.to_le_bytes());
    heap.extend(utf16("Hi"));
    let reader = DatReader::new(file(1, &[0; 2], 4, &heap), "Test.dat").unwrap();
    assert_eq!(
        reader.read_list_values(8, 2, &list("string")).unwrap(),
        vec![DatValue::String("Hi".to_string()), DatValue::String(String::new())]
    );
    assert_eq!(
        reader.read_list_values(8, 2, &list("mystery")).unwrap(),
        vec![DatValue::Unknown, DatValue::Unknown]
    );
    assert_eq!(
        reader.read_list_values(8, 2, &list("i16")).unwrap(),
        vec![DatValue::Int(16), DatValue::Int(0)]
    );
}

#[test]
fn lists_in_64_bit_tables() {
    let mut heap = Vec::new();
    heap.extend_from_slice(&5u32.to_le_bytes());
    heap.extend_from_slice(&[0xEE; 12]);
    heap.extend_from_slice(&6u32.to_le_bytes());
    heap.extend_from_slice(&[0xEE; 12]);
    heap.extend_from_slice(&7u32.to_le_bytes());
    heap.extend_from_slice(&[0xEE; 4]);
    let reader = DatReader::new(file(1, &[0; 2], 8, &heap), "Test.dat64").unwrap();
    assert_eq!(
        reader.read_list_values(8, 3, &list("foreign_row")).unwrap(),
        vec![DatValue::ForeignRow(5), DatValue::ForeignRow(6), DatValue::Unknown]
    );
    assert_eq!(
        reader.read_list_values(40, 1, &list("row")).unwrap(),
        vec![DatValue::ForeignRow(7)]
    );
}

#[test]
fn tables_are_found_by_name_whatever_the_case() {
    let schema = Schema {
        tables: vec![
            Table { name: "Mods".to_string(), columns: vec![col("int")] },
            Table { name: "BaseItemTypes".to_string(), columns: vec![] },
            Table { name: "mods".to_string(), columns: vec![col("bool")] },
            Table { name: "Größe".to_string(), columns: vec![] },
        ],
    };
    assert_eq!(schema.find_table("Mods"), Some(&schema.tables[0]));
    assert_eq!(schema.find_table("MODS"), Some(&schema.tables[0]));
    assert_eq!(schema.find_table("baseitemtypes"), Some(&schema.tables[1]));
    assert_eq!(schema.find_table("GRößE"), Some(&schema.tables[3]));
    assert_eq!(schema.find_table("GRÖßE"), None);
    assert_eq!(schema.find_table("Mod"), None);
    assert_eq!(schema.find_table(""), None);
    assert_eq!(Schema { tables: vec![] }.find_table("Mods"), None);
}

#[test]
fn the_layout_of_a_table_can_be_asked_for() {
    let reader = DatReader::new(file(2, &[1, 2, 3, 4, 5, 6], 8, &[9]), "Mods.datc64").unwrap();
    assert!(reader.is_64bit());
    assert_eq!(reader.row_count(), 2);
    assert_eq!(reader.row_length(), Some(3));
    assert_eq!(reader.data_section_offset(), 10);
    assert_eq!(reader.filename(), "Mods.datc64");
    let reader = DatReader::new(file(0, &[], 0, &[]), "Mods.dat").unwrap();
    assert!(!reader.is_64bit());
    assert_eq!(reader.row_count(), 0);
    assert_eq!(reader.row_length(), Some(0));
    assert_eq!(reader.data_section_offset(), 0);
}

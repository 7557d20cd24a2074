use xlref::utility::{xl_col_to_name, xl_rowcol_to_cell, Utility};

#[test]
fn test_xl_cell_to_rowcol() {
    let tests = [
        // row, col, A1 string
        (0, 0, "A1"),
        (0, 1, "B1"),
        (0, 2, "C1"),
        (0, 9, "J1"),
        (1, 0, "A2"),
        (2, 0, "A3"),
        (9, 0, "A10"),
        (1, 24, "Y2"),
        (7, 25, "Z8"),
        (9, 26, "AA10"),
        (1, 254, "IU2"),
        (1, 255, "IV2"),
        (1, 256, "IW2"),
        (0, 16383, "XFD1"),
        (1_048_576, 16384, "XFE1048577"),
    ];

    for (row, col, string) in tests.iter() {
        let col = *col as usize;
        let row = *row as usize;
        let exp = *string;
        let got = xl_rowcol_to_cell(row, col, false, false).unwrap();
        assert_eq!(got, exp);
    }
}

#[test]
fn test_xl_rowcol_to_cell_abs() {
    let tests = [
        // row, col, row_abs, col_abs, A1 string
        (0, 0, false, false, "A1"),
        (0, 0, true, false, "A$1"),
        (0, 0, false, true, "$A1"),
        (0, 0, true, true, "$A$1"),
    ];

    for (row, col, row_abs, col_abs, string) in tests.iter() {
        let col = *col as usize;
        let row = *row as usize;
        let exp = *string;
        let got = xl_rowcol_to_cell(row, col, *row_abs, *col_abs).unwrap();
        assert_eq!(got, exp);
    }
}

#[test]
fn test_xl_col_to_name() {
    let tests = [
        // col,  col string
        (0, "A"),
        (1, "B"),
        (2, "C"),
        (9, "J"),
        (24, "Y"),
        (25, "Z"),
        (26, "AA"),
        (254, "IU"),
        (255, "IV"),
        (256, "IW"),
        (16383, "XFD"),
        (16384, "XFE"),
    ];

    for (col, string) in tests.iter() {
        let exp = *string;
        let got = xl_col_to_name(*col as usize, false).unwrap();
        assert_eq!(got, exp);
    }
}

#[test]
fn test_xl_col_to_name_abs() {
    let tests = [
        // col,  col string
        (0, "$A"),
        (25, "$Z"),
        (26, "$AA"),
        (16383, "$XFD"),
    ];

    for (col, string) in tests.iter() {
        let exp = *string;
        let got = xl_col_to_name(*col as usize, true).unwrap();
        assert_eq!(got, exp);
    }
}

#[test]
fn test_name_length_boundaries() {
    // The name length grows exactly when the column index crosses
    // 26 + 26^2 + ... + 26^k: at 26, 702, 18278.
    assert_eq!(xl_col_to_name(25, false).unwrap(), "Z");
    assert_eq!(xl_col_to_name(26, false).unwrap(), "AA");
    assert_eq!(xl_col_to_name(701, false).unwrap(), "ZZ");
    assert_eq!(xl_col_to_name(702, false).unwrap(), "AAA");
    assert_eq!(xl_col_to_name(18277, false).unwrap(), "ZZZ");
    assert_eq!(xl_col_to_name(18278, false).unwrap(), "AAAA");
}

#[test]
fn test_upper_letters_only() {
    for col in 0..20000usize {
        let name = xl_col_to_name(col, false).unwrap();
        assert!(name.chars().all(|c| c.is_ascii_uppercase()));
    }
}

#[test]
fn test_distinct_columns_distinct_names() {
    let mut names: Vec<String> = Vec::new();
    for col in 0..2000usize {
        names.push(xl_col_to_name(col, false).unwrap());
    }
    for i in 0..names.len() {
        for j in (i + 1)..names.len() {
            assert_ne!(names[i], names[j]);
        }
    }
}

#[test]
fn test_abs_flags_compose() {
    for (row, col) in [(0usize, 0usize), (7, 25), (9, 26), (41, 702)] {
        let both = xl_rowcol_to_cell(row, col, true, true).unwrap();
        let name = xl_col_to_name(col, false).unwrap();
        let composed = format!("${}${}", name, row + 1);
        assert_eq!(both, composed);
    }
}

#[test]
fn test_determinism() {
    let first = xl_rowcol_to_cell(122, 733, true, false).unwrap();
    let second = xl_rowcol_to_cell(122, 733, true, false).unwrap();
    assert_eq!(first, second);
    let name_first = xl_col_to_name(733, true).unwrap();
    let name_second = xl_col_to_name(733, true).unwrap();
    assert_eq!(name_first, name_second);
}

#[test]
fn test_utility_new() {
    let _u: Utility = Utility::new();
}

#[test]
fn test_large_row() {
    assert_eq!(
        xl_rowcol_to_cell(1_048_576, 16384, false, false).unwrap(),
        "XFE1048577"
    );
    assert_eq!(xl_rowcol_to_cell(999_999_999, 0, true, true).unwrap(), "$A$1000000000");
}

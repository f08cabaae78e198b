use editors_engine::effects::lut::{lut_from_scan, scan_cube, Lut};
use editors_engine::text::is_white_space_char;

/// Reads a `.cube` text: scan, convert the value texts, build.
fn from_cube(content: &str) -> Result<Lut, String> {
    let scan = scan_cube(content);
    let parsed: Vec<Result<u32, String>> = scan
        .tokens
        .iter()
        .map(|t| t.text.parse::<f32>().map(|v| v.to_bits()).map_err(|e| e.to_string()))
        .collect();
    lut_from_scan(&scan, parsed).expect("table size overflows")
}

fn floats(bits: &[u32]) -> Vec<f32> {
    bits.iter().map(|b| f32::from_bits(*b)).collect()
}

#[test]
fn parse_identity_3d_cube() {
    let cube = "LUT_3D_SIZE 2\n0.0 0.0 0.0\n1.0 0.0 0.0\n0.0 1.0 0.0\n1.0 1.0 0.0\n0.0 0.0 1.0\n1.0 0.0 1.0\n0.0 1.0 1.0\n1.0 1.0 1.0\n";
    let lut = from_cube(cube).expect("parse");
    match lut {
        Lut::Lut3D(l) => {
            assert_eq!(l.size, 2);
            assert_eq!(l.table.len(), 2 * 2 * 2 * 3);
        }
        _ => panic!("expected 3D LUT"),
    }
}

#[test]
fn parse_identity_1d_cube() {
    let cube = "LUT_1D_SIZE 4\n0.0 0.0 0.0\n0.333 0.333 0.333\n0.667 0.667 0.667\n1.0 1.0 1.0\n";
    let lut = from_cube(cube).expect("parse");
    match lut {
        Lut::Lut1D(l) => {
            assert_eq!(l.size, 4);
            assert_eq!(l.table[0].len(), 4);
        }
        _ => panic!("expected 1D LUT"),
    }
}

#[test]
fn one_d_tables_split_channels() {
    let cube = "# comment\nTITLE \"x\"\nDOMAIN_MIN 0 0 0\nlut_1d_size 2\r\n0.1 0.2 0.3\r\n  0.4 0.5 0.6  \r\n0.7 0.8 0.9\n";
    match from_cube(cube).unwrap() {
        Lut::Lut1D(l) => {
            assert_eq!(l.size, 2);
            assert_eq!(floats(&l.table[0]), vec![0.1, 0.4]);
            assert_eq!(floats(&l.table[1]), vec![0.2, 0.5]);
            assert_eq!(floats(&l.table[2]), vec![0.3, 0.6]);
        }
        _ => panic!("expected 1D LUT"),
    }
}

#[test]
fn three_d_size_wins_and_extra_values_drop() {
    let mut cube = String::from("LUT_1D_SIZE 5\nLUT_3D_SIZE 1\n");
    cube.push_str("1 2 3 4 5 6\n");
    match from_cube(&cube).unwrap() {
        Lut::Lut3D(l) => {
            assert_eq!(l.size, 1);
            assert_eq!(floats(&l.table), vec![1.0, 2.0, 3.0]);
        }
        _ => panic!("expected 3D LUT"),
    }
}

#[test]
fn cube_error_messages() {
    assert_eq!(
        from_cube("LUT_3D_SIZE 2\n0 0 0\n").unwrap_err(),
        "3D LUT expected 24 values, got 3"
    );
    assert_eq!(from_cube("LUT_1D_SIZE 2\n0 0 0\n").unwrap_err(), "1D LUT expected 6 values, got 3");
    assert_eq!(from_cube("0 0 0\n").unwrap_err(), "No LUT_1D_SIZE or LUT_3D_SIZE found in .cube file");
    assert_eq!(
        from_cube("\nLUT_3D_SIZE two\n").unwrap_err(),
        "LUT_3D_SIZE parse error at line 2: invalid digit found in string"
    );
    assert_eq!(
        from_cube("LUT_1D_SIZE 1\n0 x 0\n").unwrap_err(),
        "value parse error at line 2: invalid float literal"
    );
    // A value error comes before a size error on a later line.
    assert_eq!(
        from_cube("LUT_1D_SIZE 1\n0 ? 0\nLUT_1D_SIZE -1\n").unwrap_err(),
        "value parse error at line 2: invalid float literal"
    );
    // No space after the keyword: the line is read as values.
    assert_eq!(
        from_cube("LUT_1D_SIZE\t1\n").unwrap_err(),
        "value parse error at line 1: invalid float literal"
    );
    assert_eq!(
        from_cube("LUT_1D_SIZE +1\n1 2 3\n").map(|l| matches!(l, Lut::Lut1D(_))),
        Ok(true)
    );
}

#[test]
fn scan_records_lines_and_stops_at_error() {
    let scan = scan_cube("LUT_3D_SIZE 1\n\n0.5 0.25\n1\nLUT_1D_SIZE x\n9 9 9\n");
    assert_eq!(scan.size_3d, Some(1));
    assert_eq!(scan.size_1d, None);
    let lines: Vec<(String, usize)> = scan.tokens.iter().map(|t| (t.text.clone(), t.line)).collect();
    assert_eq!(
        lines,
        vec![("0.5".to_string(), 3), ("0.25".to_string(), 3), ("1".to_string(), 4)]
    );
    assert!(scan.error.unwrap().starts_with("LUT_1D_SIZE parse error at line 5: "));
}

#[test]
fn white_space_matches_char_is_whitespace() {
    for c in (0u32..0x11000).filter_map(char::from_u32) {
        assert_eq!(is_white_space_char(c), c.is_whitespace(), "{:?}", c);
    }
}

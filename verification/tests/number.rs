use agtx::{decimal, parse_usize, signed_decimal};

#[test]
fn decimal_matches_to_string() {
    let values = [0u64, 1, 9, 10, 11, 99, 100, 12345, 65535, u32::MAX as u64, u64::MAX - 1, u64::MAX];
    for v in values {
        assert_eq!(decimal(v), v.to_string());
    }
    for v in 0u64..2000 {
        assert_eq!(decimal(v), v.to_string());
    }
}

#[test]
fn signed_decimal_matches_to_string() {
    let values = [0i32, 1, -1, 9, -10, 500, -500, i32::MAX, i32::MIN];
    for v in values {
        assert_eq!(signed_decimal(v), v.to_string());
    }
}

#[test]
fn parse_usize_matches_from_str() {
    let max = usize::MAX.to_string();
    let over = format!("{}0", usize::MAX);
    let samples: Vec<&str> = vec![
        "", "0", "7", "007", "+5", "+", "-5", "-0", "12a", " 5", "5 ", "++5", "+-5", "٣",
        &max, &over, "18446744073709551616",
    ];
    for s in samples {
        assert_eq!(parse_usize(s), s.parse::<usize>().ok(), "sample {:?}", s);
    }
}

#[test]
fn parse_reads_back_decimal() {
    for v in [0u64, 3, 42, 1000, 4294967295] {
        assert_eq!(parse_usize(&decimal(v)), Some(v as usize));
    }
}

use tcp_balancer::text::{parse_u16, push_decimal};

#[test]
fn decimal_of_small_and_large_numbers() {
    for (number, text) in [
        (0u64, "0"),
        (1, "1"),
        (9, "9"),
        (10, "10"),
        (99, "99"),
        (100, "100"),
        (1234567890, "1234567890"),
        (u64::MAX, "18446744073709551615"),
    ] {
        let mut out = String::new();
        push_decimal(&mut out, number);
        assert_eq!(out, text);
    }
}

#[test]
fn decimal_is_appended_to_what_is_there() {
    let mut out = "port ".to_string();
    push_decimal(&mut out, 80);
    push_decimal(&mut out, 0);
    push_decimal(&mut out, 443);
    assert_eq!(out, "port 800443");
}

#[test]
fn decimal_agrees_with_std_formatting() {
    let mut number: u64 = 0;
    for step in 0..2000u64 {
        let mut out = String::new();
        push_decimal(&mut out, number);
        assert_eq!(out, number.to_string());
        number = number.wrapping_mul(6364136223846793005).wrapping_add(step | 1);
    }
}

#[test]
fn port_numbers_read_as_std_reads_them() {
    let samples = [
        "", "0", "00", "1", "+1", "+", "-", "-1", "+-1", "65535", "65536", "065535", "655350",
        "99999", "100000", "4294967295", "4294967296", "18446744073709551615",
        "340282366920938463463374607431768211456", " 1", "1 ", "1a", "a1", "1_000", "0x1f", "1e3",
        "\u{661}", "+0", "+00065535", "++1", "1+1",
    ];
    for sample in samples {
        assert_eq!(parse_u16(sample), sample.parse::<u16>().ok(), "{:?}", sample);
    }
}

#[test]
fn every_port_reads_back_from_its_decimal() {
    for port in 0..=u16::MAX {
        let mut out = String::new();
        push_decimal(&mut out, port as u64);
        assert_eq!(parse_u16(&out), Some(port));
    }
}

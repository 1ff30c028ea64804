use handyfiles::managers::download::{
    content_range_total, decimal_string, parse_u64, plan_download, progress_due, range_header,
    signed_decimal_string, ResumePlan,
};

#[test]
fn parse_u64_like_std() {
    for s in ["0", "42", "+7", "", "+", "-1", "12a", "18446744073709551615", "18446744073709551616", " 1", "007"] {
        assert_eq!(parse_u64(s), s.parse::<u64>().ok(), "input {s:?}");
    }
}

#[test]
fn decimal_round_trip() {
    for n in [0u64, 7, 10, 12345, u64::MAX] {
        assert_eq!(decimal_string(n), n.to_string());
        assert_eq!(parse_u64(&decimal_string(n)), Some(n));
    }
    assert_eq!(signed_decimal_string(-1), "-1");
    assert_eq!(signed_decimal_string(i32::MIN), i32::MIN.to_string());
    assert_eq!(signed_decimal_string(255), "255");
}

#[test]
fn range_header_values() {
    assert_eq!(range_header(0), None);
    assert_eq!(range_header(1024), Some("bytes=1024-".to_string()));
}

#[test]
fn content_range_totals() {
    assert_eq!(content_range_total("bytes 100-199/5000"), Some(5000));
    assert_eq!(content_range_total("bytes 100-199/*"), None);
    assert_eq!(content_range_total("5000"), Some(5000));
    assert_eq!(content_range_total("bytes 1-2/"), None);
}

#[test]
fn plans() {
    let mib = 1024 * 1024;
    assert_eq!(
        plan_download(206, 500, Some("bytes 500-999/1000".to_string()), Some(500), 75),
        Ok(ResumePlan { start_bytes: 500, total_bytes: 1000 })
    );
    assert_eq!(
        plan_download(206, 500, Some("garbage".to_string()), None, 75),
        Ok(ResumePlan { start_bytes: 500, total_bytes: 75 * mib })
    );
    assert_eq!(
        plan_download(200, 500, None, Some(1234), 75),
        Ok(ResumePlan { start_bytes: 0, total_bytes: 1234 })
    );
    assert_eq!(
        plan_download(200, 0, None, None, 142),
        Ok(ResumePlan { start_bytes: 0, total_bytes: 142 * mib })
    );
    assert_eq!(plan_download(404, 0, None, None, 75), Err(404));
    assert_eq!(plan_download(301, 0, None, None, 75), Err(301));
}

#[test]
fn progress_timing() {
    assert!(!progress_due(199));
    assert!(progress_due(200));
}

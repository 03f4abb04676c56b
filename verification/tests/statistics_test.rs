use yumo_core::db::{day_totals, text_before};

fn row(date: &str, text: &str) -> (String, String) {
    (date.to_string(), text.to_string())
}

#[test]
fn day_totals_group_by_date_in_order() {
    let rows = vec![
        row("2024-05-02", "hello world"),
        row("2024-05-01", "你好"),
        row("2024-05-02", "one"),
        row("2024-04-30", ""),
    ];
    let days = day_totals(&rows);
    let got: Vec<(String, i64, i32)> = days.into_iter().map(|d| (d.date, d.words, d.sessions)).collect();
    assert_eq!(
        got,
        vec![
            ("2024-04-30".to_string(), 0, 1),
            ("2024-05-01".to_string(), 2, 1),
            ("2024-05-02".to_string(), 3, 2),
        ]
    );
    assert!(day_totals(&vec![]).is_empty());
}

#[test]
fn text_order_matches_string_order() {
    for (a, b) in [("a", "b"), ("ab", "a"), ("", "x"), ("2024-01-10", "2024-01-09"), ("中", "中文"), ("same", "same")] {
        assert_eq!(text_before(a, b), a < b, "{a} vs {b}");
    }
}

#[test]
fn percent_decode_valid_utf8_path() {
    assert_eq!(yumo_core::db::percent_decode("%E4%B8%AD.wav"), "中.wav");
}

use wsp::output::{format_error, format_repo_status, Table};

fn normalize_whitespace(s: &str) -> String {
    s.lines().map(|line| line.trim_end()).collect::<Vec<_>>().join("\n")
}

fn render_to_string(headers: &[String], rows: &[Vec<String>]) -> String {
    let mut table = Table::new(headers.to_vec());
    for row in rows {
        table.add_row(row.clone()).unwrap();
    }
    String::from_utf8(table.render().unwrap()).unwrap()
}

#[test]
fn test_table() {
    let cases: Vec<(&str, Vec<&str>, Vec<Vec<&str>>, &str)> = vec![
        ("single column", vec!["Name"], vec![vec!["Alice"], vec!["Bob"]], "NAME\nAlice\nBob\n"),
        (
            "two columns aligned",
            vec!["Name", "Status"],
            vec![vec!["api-gateway", "clean"], vec!["user-service", "2 modified"]],
            "NAME          STATUS\napi-gateway   clean\nuser-service  2 modified\n",
        ),
        (
            "three columns",
            vec!["Repository", "Branch", "Status"],
            vec![
                vec!["api-gateway", "main", "clean"],
                vec!["user-service", "feature-branch", "2 modified"],
            ],
            "REPOSITORY    BRANCH          STATUS\napi-gateway   main            clean\nuser-service  feature-branch  2 modified\n",
        ),
        ("headers only no rows", vec!["Name", "Age"], vec![], "NAME  AGE\n"),
        ("no headers", vec![], vec![], ""),
    ];
    for (name, headers, rows, want) in cases {
        let headers_owned: Vec<String> = headers.iter().map(|s| s.to_string()).collect();
        let rows_owned: Vec<Vec<String>> =
            rows.iter().map(|r| r.iter().map(|s| s.to_string()).collect()).collect();
        let output = render_to_string(&headers_owned, &rows_owned);
        assert_eq!(normalize_whitespace(&output), normalize_whitespace(want), "{}", name);
    }
}

#[test]
fn test_table_column_mismatch() {
    let mut table = Table::new(vec!["Name".into(), "Age".into()]);

    let err = table.add_row(vec!["Alice".into(), "30".into(), "extra".into()]);
    assert!(err.is_err());
    assert!(err.unwrap_err().message().contains("3 columns, expected 2"));

    let err = table.add_row(vec!["Bob".into()]);
    assert!(err.is_err());
    assert!(err.unwrap_err().message().contains("1 columns, expected 2"));
}

#[test]
fn refused_rows_are_not_rendered() {
    let mut table = Table::new(vec!["Name".into()]);
    assert!(table.add_row(vec!["a".into(), "b".into()]).is_err());
    table.add_row(vec!["kept".into()]).unwrap();
    assert_eq!(String::from_utf8(table.render().unwrap()).unwrap(), "NAME\nkept\n");
}

#[test]
fn headers_are_upper_cased() {
    let table = Table::new(vec!["repo".into()]);
    assert_eq!(String::from_utf8(table.render().unwrap()).unwrap(), "REPO\n");
}

#[test]
fn test_format_repo_status() {
    let cases = vec![
        ("clean", 0, 0, "clean"),
        ("modified only", 0, 5, "5 modified"),
        ("ahead only", 3, 0, "3 ahead"),
        ("both", 2, 4, "2 ahead, 4 modified"),
        ("one each", 1, 1, "1 ahead, 1 modified"),
    ];
    for (name, ahead, modified, want) in cases {
        assert_eq!(format_repo_status(ahead, modified), want, "{}", name);
    }
}

#[test]
fn repo_status_large_counts() {
    assert_eq!(format_repo_status(4294967295, 10), "4294967295 ahead, 10 modified");
}

#[test]
fn test_format_error() {
    assert_eq!(format_error("something broke"), "ERROR: something broke");
}

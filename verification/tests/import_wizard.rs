use dat0_ui::i18n::Catalog;
use dat0_ui::import_wizard::{quote_ident, quote_str, ColumnDraft, Issue, SniffSummary, Step, WizardModel};

fn sniff(encoding_supported: bool) -> SniffSummary {
    SniffSummary {
        top_delimiter: ',',
        encoding_supported,
    }
}

fn model() -> WizardModel {
    WizardModel::from_sniff(
        "/tmp/a.csv",
        &sniff(true),
        &vec![
            ("id".to_string(), "BIGINT".to_string()),
            ("name".to_string(), "VARCHAR".to_string()),
        ],
    )
}

#[test]
fn a_sniffed_type_outside_the_vocabulary_degrades_to_varchar() {
    let c = ColumnDraft::new("x", "DECIMAL(18,3)");
    assert_eq!(c.ty, "VARCHAR");
}

#[test]
fn read_csv_sql_is_none_until_the_model_validates() {
    let mut m = model();
    m.delimiter = String::new();
    assert!(m.read_csv_sql().is_none());
}

#[test]
fn excluded_columns_stay_in_the_columns_map_but_leave_the_projection() {
    let mut m = model();
    m.columns[1].imported = false;
    let sql = m.read_csv_sql().expect("valid");
    assert!(sql.contains("'name': 'VARCHAR'"), "{sql}");
    assert!(!sql.contains("AS \"name\""), "{sql}");
}

#[test]
fn identifiers_and_literals_are_escaped() {
    let mut m = model();
    m.columns[0].name = "we\"ird".into();
    m.path = "/tmp/o'brien.csv".to_string();
    let sql = m.read_csv_sql().expect("valid");
    assert!(sql.contains("\"we\"\"ird\""), "{sql}");
    assert!(sql.contains("'/tmp/o''brien.csv'"), "{sql}");
}

#[test]
fn the_whole_statement_reads_every_setting() {
    let m = model();
    assert_eq!(
        m.read_csv_sql().unwrap(),
        "SELECT \"id\" AS \"id\", \"name\" AS \"name\" FROM read_csv('/tmp/a.csv', delim = ',', \
         quote = '\"', header = true, columns = {'id': 'BIGINT', 'name': 'VARCHAR'})"
    );
}

#[test]
fn a_lowercase_sniffed_type_is_raised_into_the_vocabulary() {
    assert_eq!(ColumnDraft::new("x", "bigint").ty, "BIGINT");
    let c = ColumnDraft::new("col", "date");
    assert_eq!(c.name, "col");
    assert!(c.imported);
}

#[test]
fn dialect_issues_name_each_fault() {
    let mut m = model();
    m.delimiter = String::new();
    m.encoding_supported = false;
    assert_eq!(m.dialect_issues(), vec![Issue::DelimiterEmpty, Issue::EncodingUnsupported]);
    m.delimiter = ";;".into();
    m.quote = String::new();
    m.encoding_supported = true;
    assert_eq!(m.dialect_issues(), vec![Issue::DelimiterNotSingleChar, Issue::QuoteNotSingleChar]);
    m.delimiter = "\"".into();
    m.quote = "\"".into();
    assert_eq!(m.dialect_issues(), vec![Issue::DelimiterEqualsQuote]);
}

#[test]
fn column_issues_find_empty_reserved_duplicate_and_unknown() {
    let mut m = model();
    m.columns.push(ColumnDraft::new("other", "VARCHAR"));
    m.columns.push(ColumnDraft::new("x", "BIGINT"));
    m.columns[0].name = "   ".into();
    m.columns[1].name = "__DAT0_ROWID".into();
    m.columns[2].name = " __dat0_rowid ".into();
    m.columns[3].ty = "MONEY".into();
    assert_eq!(
        m.column_issues(),
        vec![
            Issue::EmptyColumnName { row: 0 },
            Issue::ReservedColumnName { row: 1 },
            Issue::ReservedColumnName { row: 2 },
            Issue::DuplicateColumnName { row: 2, name: "__dat0_rowid".into() },
            Issue::UnknownType { row: 3, ty: "MONEY".into() },
        ]
    );
}

#[test]
fn no_included_column_is_one_issue() {
    let mut m = model();
    m.columns[0].imported = false;
    m.columns[1].imported = false;
    assert_eq!(m.column_issues(), vec![Issue::NoColumnsIncluded]);
    assert_eq!(m.issues(Step::Columns), vec![Issue::NoColumnsIncluded]);
    assert!(m.issues(Step::Confirm).is_empty());
}

#[test]
fn the_steps_advance_only_past_a_clean_step() {
    let mut m = model();
    assert!(!m.can_go_back());
    assert!(m.advance());
    assert_eq!(m.step, Step::Columns);
    m.columns[0].name = String::new();
    assert!(!m.can_advance());
    assert!(!m.advance());
    assert_eq!(m.step, Step::Columns);
    m.columns[0].name = "id".into();
    assert!(m.advance());
    assert_eq!(m.step, Step::Confirm);
    assert!(m.can_import());
    assert!(!m.advance());
    assert!(m.go_back());
    assert_eq!(m.step, Step::Columns);
    assert!(m.go_back());
    assert!(!m.go_back());
    assert_eq!(m.step, Step::Dialect);
}

#[test]
fn steps_count_and_name_themselves() {
    assert_eq!(Step::Dialect.index(), 0);
    assert_eq!(Step::Confirm.index(), 2);
    assert_eq!(Step::Columns.id(), "columns");
    assert_eq!(Step::Confirm.title_key(), "wizard.step.confirm");
    assert_eq!(Step::Dialect.next(), Some(Step::Columns));
    assert_eq!(Step::Dialect.prev(), None);
}

#[test]
fn included_lists_the_imported_rows() {
    let mut m = model();
    m.columns[0].imported = false;
    assert_eq!(m.included(), vec![1]);
}

#[test]
fn an_issue_says_which_column_and_what() {
    let mut cat = Catalog::new();
    cat.insert("wizard.column", "Column");
    cat.insert("wizard.issue.duplicate_name", "Duplicate name");
    cat.insert("wizard.issue.reserved_name", "Reserved name");
    cat.insert("wizard.issue.delimiter_empty", "Delimiter is empty");
    let dup = Issue::DuplicateColumnName { row: 1, name: "a".into() };
    assert_eq!(dup.message(&cat), "Column 2 — Duplicate name: a");
    assert_eq!(Issue::ReservedColumnName { row: 0 }.message(&cat), "Column 1 — Reserved name: __dat0_rowid");
    assert_eq!(Issue::DelimiterEmpty.message(&cat), "Delimiter is empty");
    assert_eq!(Issue::DelimiterEmpty.step(), Step::Dialect);
    assert_eq!(dup.step(), Step::Columns);
    assert_eq!(dup.row(), Some(1));
}

#[test]
fn quoting_doubles_the_quote_character() {
    assert_eq!(quote_str("o'brien"), "'o''brien'");
    assert_eq!(quote_ident("a\"b"), "\"a\"\"b\"");
}

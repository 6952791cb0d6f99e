use vectordb::cli::{
    delete_report, insert_report, interpret_line_pieces, parse_cli_line, update_report,
    CliRequest,
};
use vectordb::client::{VDBDeleteResponse, VDBInsertResponse, VDBUpdateResponse};

#[test]
fn blank_lines_ask_for_nothing() {
    assert_eq!(parse_cli_line(""), CliRequest::Nothing);
    assert_eq!(parse_cli_line("   \t "), CliRequest::Nothing);
}

#[test]
fn insert_joins_its_arguments() {
    assert_eq!(
        parse_cli_line("INS [{\"vectors\": {}, \"fields\": []}]"),
        CliRequest::Insert("[{\"vectors\":{},\"fields\":[]}]".to_string())
    );
    assert_eq!(parse_cli_line("  INS\t[]  "), CliRequest::Insert("[]".to_string()));
}

#[test]
fn insert_without_documents_is_refused() {
    assert_eq!(
        parse_cli_line("INS"),
        CliRequest::Reject("Wrong number of arguments, expected DOCUMENTS.".to_string())
    );
    assert_eq!(
        parse_cli_line("INS   "),
        CliRequest::Reject("Wrong number of arguments, expected DOCUMENTS.".to_string())
    );
}

#[test]
fn ping_takes_no_argument() {
    assert_eq!(parse_cli_line("PING"), CliRequest::Ping);
    assert_eq!(
        parse_cli_line("PING now later"),
        CliRequest::Reject("Expected no arguments, got: now".to_string())
    );
}

#[test]
fn exit_and_unknown_commands() {
    assert_eq!(parse_cli_line("EXIT"), CliRequest::Exit);
    assert_eq!(parse_cli_line("EXIT now"), CliRequest::Exit);
    assert_eq!(
        parse_cli_line("DELETE efdsaa"),
        CliRequest::Reject("Unknown command: DELETE".to_string())
    );
    assert_eq!(parse_cli_line("ping"), CliRequest::Reject("Unknown command: ping".to_string()));
}

#[test]
fn pieces_are_interpreted_as_given() {
    let pieces = vec!["".to_string(), "x".to_string()];
    assert_eq!(interpret_line_pieces(&pieces), CliRequest::Nothing);
    let pieces = vec!["INS".to_string(), "".to_string(), "".to_string()];
    assert_eq!(
        interpret_line_pieces(&pieces),
        CliRequest::Reject("Wrong number of arguments, expected DOCUMENTS.".to_string())
    );
    let pieces = vec!["INS".to_string(), "a".to_string(), "b c".to_string()];
    assert_eq!(interpret_line_pieces(&pieces), CliRequest::Insert("ab c".to_string()));
    assert_eq!(interpret_line_pieces(&vec![]), CliRequest::Nothing);
}

#[test]
fn insert_report_counts_documents() {
    let ok = VDBInsertResponse { success: true, error: None };
    assert_eq!(insert_report(1, &ok), "1 documents inserted.");
    assert_eq!(insert_report(0, &ok), "0 documents inserted.");
    assert_eq!(insert_report(10, &ok), "10 documents inserted.");
    assert_eq!(insert_report(1234567, &ok), "1234567 documents inserted.");
    assert_eq!(insert_report(usize::MAX, &ok), format!("{} documents inserted.", usize::MAX));
}

#[test]
fn insert_report_of_failure() {
    let failed = VDBInsertResponse { success: false, error: Some("oops".to_string()) };
    assert_eq!(insert_report(3, &failed), "Failed to insert documents: oops");
    let silent = VDBInsertResponse { success: false, error: None };
    assert_eq!(insert_report(3, &silent), "Failed to insert documents: ");
}

#[test]
fn update_joins_its_arguments() {
    assert_eq!(
        parse_cli_line("UPD [{\"id\":\"efdsaa\",\"vectors\": {}, \"fields\": []}]"),
        CliRequest::Update("[{\"id\":\"efdsaa\",\"vectors\":{},\"fields\":[]}]".to_string())
    );
    assert_eq!(
        parse_cli_line("UPD"),
        CliRequest::Reject("Wrong number of arguments, expected DOCUMENTS.".to_string())
    );
}

#[test]
fn update_reports() {
    let ok = VDBUpdateResponse { success: true, error: None };
    assert_eq!(update_report(1, &ok), "1 documents updated.");
    assert_eq!(update_report(25, &ok), "25 documents updated.");
    let failed = VDBUpdateResponse { success: false, error: Some("INVALID PAYLOAD: x".to_string()) };
    assert_eq!(update_report(2, &failed), "Failed to update documents: INVALID PAYLOAD: x");
}

#[test]
fn delete_takes_ids() {
    assert_eq!(parse_cli_line("DEL efdsaa"), CliRequest::Delete(vec!["efdsaa".to_string()]));
    assert_eq!(
        parse_cli_line("DEL a  b"),
        CliRequest::Delete(vec!["a".to_string(), "b".to_string()])
    );
    assert_eq!(
        parse_cli_line("DEL"),
        CliRequest::Reject("Wrong number of arguments, expected IDS.".to_string())
    );
}

#[test]
fn delete_reports() {
    let ok = VDBDeleteResponse { success: true, error: None };
    assert_eq!(delete_report(1, &ok), "1 documents deleted.");
    let failed = VDBDeleteResponse { success: false, error: Some("e".to_string()) };
    assert_eq!(delete_report(1, &failed), "Failed to delete documents: e");
}

use pg_wal_budget::types::StatementClass;
use pg_wal_budget::utility::{
    NodeTag, UtilityNode, classify_utility_node_tag, explain_has_analyze_option,
};

#[test]
fn classifies_read_only_utility_tags() {
    assert_eq!(
        classify_utility_node_tag(
            NodeTag::VariableShowStmt,
            None,
            false
        ),
        StatementClass::ReadOnly
    );
}

#[test]
fn classifies_wal_candidate_utility_tags() {
    assert_eq!(
        classify_utility_node_tag(NodeTag::IndexStmt, None, true),
        StatementClass::Utility
    );
}

#[test]
fn classifies_call_and_execute_as_conservative_utility() {
    assert_eq!(
        classify_utility_node_tag(NodeTag::CallStmt, None, true),
        StatementClass::Utility
    );
    assert_eq!(
        classify_utility_node_tag(NodeTag::ExecuteStmt, None, true),
        StatementClass::Utility
    );
}

#[test]
fn classifies_explain_without_statement_as_conservative_utility() {
    assert_eq!(
        classify_utility_node_tag(NodeTag::ExplainStmt, None, false),
        StatementClass::Utility
    );
}

#[test]
fn explain_analyze_defaults_to_false_without_options() {
    let explain = UtilityNode {
        tag: NodeTag::ExplainStmt,
        is_from: false,
        options: Vec::new(),
        extension_name: None,
    };

    assert!(!explain_has_analyze_option(&explain));
}

#[test]
fn unknown_utility_respects_read_only_tree() {
    assert_eq!(
        classify_utility_node_tag(NodeTag::Invalid, None, true),
        StatementClass::ReadOnly
    );
    assert_eq!(
        classify_utility_node_tag(NodeTag::Invalid, None, false),
        StatementClass::Utility
    );
}

//! Which class a statement belongs to.

use vstd::prelude::*;

use crate::errors;
use crate::errors::{internal_error, PwbErrorView, PwbResult};
use crate::seqs;
use crate::text;
use crate::types;
use crate::types::{QueryId, StatementClass};

verus! {

/// The kind of a utility statement's parse node.
#[derive(Debug, Clone, Copy, PartialEq, Eq, Structural)]
pub enum NodeTag {
    VariableSetStmt,
    VariableShowStmt,
    TransactionStmt,
    DeclareCursorStmt,
    ClosePortalStmt,
    FetchStmt,
    ListenStmt,
    UnlistenStmt,
    DiscardStmt,
    LockStmt,
    ConstraintsSetStmt,
    PrepareStmt,
    DeallocateStmt,
    CreateSchemaStmt,
    AlterTableStmt,
    AlterCollationStmt,
    AlterDomainStmt,
    GrantStmt,
    GrantRoleStmt,
    AlterDefaultPrivilegesStmt,
    CreateStmt,
    CreateTableSpaceStmt,
    DropTableSpaceStmt,
    AlterTableSpaceOptionsStmt,
    AlterTableMoveAllStmt,
    CreateExtensionStmt,
    AlterExtensionStmt,
    AlterExtensionContentsStmt,
    CreateFdwStmt,
    AlterFdwStmt,
    CreateForeignServerStmt,
    AlterForeignServerStmt,
    CreateForeignTableStmt,
    AlterUserMappingStmt,
    DropUserMappingStmt,
    ImportForeignSchemaStmt,
    CreatePolicyStmt,
    AlterPolicyStmt,
    CreateAmStmt,
    CreateTrigStmt,
    CreateEventTrigStmt,
    AlterEventTrigStmt,
    CreatePLangStmt,
    CreateRoleStmt,
    AlterRoleStmt,
    AlterRoleSetStmt,
    DropRoleStmt,
    CreateSeqStmt,
    AlterSeqStmt,
    DefineStmt,
    CreateDomainStmt,
    CreateOpClassStmt,
    CreateOpFamilyStmt,
    AlterOpFamilyStmt,
    DropStmt,
    TruncateStmt,
    CommentStmt,
    SecLabelStmt,
    IndexStmt,
    CreateStatsStmt,
    AlterStatsStmt,
    CreateFunctionStmt,
    AlterFunctionStmt,
    DoStmt,
    CallStmt,
    RenameStmt,
    AlterObjectDependsStmt,
    AlterObjectSchemaStmt,
    AlterOwnerStmt,
    AlterOperatorStmt,
    AlterTypeStmt,
    RuleStmt,
    ViewStmt,
    LoadStmt,
    CreatedbStmt,
    AlterDatabaseStmt,
    AlterDatabaseRefreshCollStmt,
    AlterDatabaseSetStmt,
    DropdbStmt,
    AlterSystemStmt,
    ClusterStmt,
    VacuumStmt,
    CheckPointStmt,
    CreateTableAsStmt,
    RefreshMatViewStmt,
    ReindexStmt,
    CreateConversionStmt,
    CreateCastStmt,
    CreateTransformStmt,
    ExecuteStmt,
    DropOwnedStmt,
    ReassignOwnedStmt,
    AlterTSDictionaryStmt,
    AlterTSConfigurationStmt,
    CreatePublicationStmt,
    AlterPublicationStmt,
    CreateSubscriptionStmt,
    AlterSubscriptionStmt,
    DropSubscriptionStmt,
    CopyStmt,
    ExplainStmt,
    /// Any other kind.
    Invalid,
}

/// The kind of a planned statement.
#[derive(Debug, Clone, Copy, PartialEq, Eq, Structural)]
pub enum CommandType {
    Select,
    Insert,
    Update,
    Delete,
    Merge,
    Utility,
    /// Any other kind.
    Unknown,
}

/// The argument of an option.
#[derive(Debug, Clone, Copy, PartialEq, Eq, Structural)]
pub enum DefElemArg {
    Missing,
    Boolean(bool),
    /// An argument that is not a boolean.
    Other,
}

/// An option of a statement.
#[derive(Debug, Clone, PartialEq, Eq)]
pub struct DefElem {
    pub name: Option<String>,
    pub arg: DefElemArg,
}

/// What is read of a utility statement's parse node.
#[derive(Debug, Clone, PartialEq, Eq)]
pub struct UtilityNode {
    pub tag: NodeTag,
    /// Of a copy: whether it copies into a table.
    pub is_from: bool,
    /// Of an explain: its options, where a missing one is passed over.
    pub options: Vec<Option<DefElem>>,
    /// Of a create extension: the name of the extension.
    pub extension_name: Option<String>,
}

/// What is read of a planned statement.
#[derive(Debug, Clone, PartialEq, Eq)]
pub struct PlannedStatement {
    pub command_type: CommandType,
    pub has_modifying_cte: bool,
    /// The identity of the query, zero where it has none.
    pub query_id: u64,
    pub utility: Option<UtilityNode>,
}

/// Whether utility statements of this kind never write WAL to speak of.
pub open spec fn is_read_only_tag(tag: NodeTag) -> bool {
    match tag {
        NodeTag::VariableSetStmt
        | NodeTag::VariableShowStmt
        | NodeTag::TransactionStmt
        | NodeTag::DeclareCursorStmt
        | NodeTag::ClosePortalStmt
        | NodeTag::FetchStmt
        | NodeTag::ListenStmt
        | NodeTag::UnlistenStmt
        | NodeTag::DiscardStmt
        | NodeTag::LockStmt
        | NodeTag::ConstraintsSetStmt
        | NodeTag::PrepareStmt
        | NodeTag::DeallocateStmt => true,
        _ => false,
    }
}

/// Whether utility statements of this kind may write WAL.
pub open spec fn is_wal_candidate_tag(tag: NodeTag) -> bool {
    match tag {
        NodeTag::CreateSchemaStmt
        | NodeTag::AlterTableStmt
        | NodeTag::AlterCollationStmt
        | NodeTag::AlterDomainStmt
        | NodeTag::GrantStmt
        | NodeTag::GrantRoleStmt
        | NodeTag::AlterDefaultPrivilegesStmt
        | NodeTag::CreateStmt
        | NodeTag::CreateTableSpaceStmt
        | NodeTag::DropTableSpaceStmt
        | NodeTag::AlterTableSpaceOptionsStmt
        | NodeTag::AlterTableMoveAllStmt
        | NodeTag::CreateExtensionStmt
        | NodeTag::AlterExtensionStmt
        | NodeTag::AlterExtensionContentsStmt
        | NodeTag::CreateFdwStmt
        | NodeTag::AlterFdwStmt
        | NodeTag::CreateForeignServerStmt
        | NodeTag::AlterForeignServerStmt
        | NodeTag::CreateForeignTableStmt
        | NodeTag::AlterUserMappingStmt
        | NodeTag::DropUserMappingStmt
        | NodeTag::ImportForeignSchemaStmt
        | NodeTag::CreatePolicyStmt
        | NodeTag::AlterPolicyStmt
        | NodeTag::CreateAmStmt
        | NodeTag::CreateTrigStmt
        | NodeTag::CreateEventTrigStmt
        | NodeTag::AlterEventTrigStmt
        | NodeTag::CreatePLangStmt
        | NodeTag::CreateRoleStmt
        | NodeTag::AlterRoleStmt
        | NodeTag::AlterRoleSetStmt
        | NodeTag::DropRoleStmt
        | NodeTag::CreateSeqStmt
        | NodeTag::AlterSeqStmt
        | NodeTag::DefineStmt
        | NodeTag::CreateDomainStmt
        | NodeTag::CreateOpClassStmt
        | NodeTag::CreateOpFamilyStmt
        | NodeTag::AlterOpFamilyStmt
        | NodeTag::DropStmt
        | NodeTag::TruncateStmt
        | NodeTag::CommentStmt
        | NodeTag::SecLabelStmt
        | NodeTag::IndexStmt
        | NodeTag::CreateStatsStmt
        | NodeTag::AlterStatsStmt
        | NodeTag::CreateFunctionStmt
        | NodeTag::AlterFunctionStmt
        | NodeTag::DoStmt
        | NodeTag::CallStmt
        | NodeTag::RenameStmt
        | NodeTag::AlterObjectDependsStmt
        | NodeTag::AlterObjectSchemaStmt
        | NodeTag::AlterOwnerStmt
        | NodeTag::AlterOperatorStmt
        | NodeTag::AlterTypeStmt
        | NodeTag::RuleStmt
        | NodeTag::ViewStmt
        | NodeTag::LoadStmt
        | NodeTag::CreatedbStmt
        | NodeTag::AlterDatabaseStmt
        | NodeTag::AlterDatabaseRefreshCollStmt
        | NodeTag::AlterDatabaseSetStmt
        | NodeTag::DropdbStmt
        | NodeTag::AlterSystemStmt
        | NodeTag::ClusterStmt
        | NodeTag::VacuumStmt
        | NodeTag::CheckPointStmt
        | NodeTag::CreateTableAsStmt
        | NodeTag::RefreshMatViewStmt
        | NodeTag::ReindexStmt
        | NodeTag::CreateConversionStmt
        | NodeTag::CreateCastStmt
        | NodeTag::CreateTransformStmt
        | NodeTag::ExecuteStmt
        | NodeTag::DropOwnedStmt
        | NodeTag::ReassignOwnedStmt
        | NodeTag::AlterTSDictionaryStmt
        | NodeTag::AlterTSConfigurationStmt
        | NodeTag::CreatePublicationStmt
        | NodeTag::AlterPublicationStmt
        | NodeTag::CreateSubscriptionStmt
        | NodeTag::AlterSubscriptionStmt
        | NodeTag::DropSubscriptionStmt => true,
        _ => false,
    }
}

pub fn is_known_read_only_utility(tag: NodeTag) -> (r: bool)
    ensures
        r == is_read_only_tag(tag),
{
    match tag {
        NodeTag::VariableSetStmt
        | NodeTag::VariableShowStmt
        | NodeTag::TransactionStmt
        | NodeTag::DeclareCursorStmt
        | NodeTag::ClosePortalStmt
        | NodeTag::FetchStmt
        | NodeTag::ListenStmt
        | NodeTag::UnlistenStmt
        | NodeTag::DiscardStmt
        | NodeTag::LockStmt
        | NodeTag::ConstraintsSetStmt
        | NodeTag::PrepareStmt
        | NodeTag::DeallocateStmt => true,
        _ => false,
    }
}

pub fn is_known_wal_candidate_utility(tag: NodeTag) -> (r: bool)
    ensures
        r == is_wal_candidate_tag(tag),
{
    match tag {
        NodeTag::CreateSchemaStmt
        | NodeTag::AlterTableStmt
        | NodeTag::AlterCollationStmt
        | NodeTag::AlterDomainStmt
        | NodeTag::GrantStmt
        | NodeTag::GrantRoleStmt
        | NodeTag::AlterDefaultPrivilegesStmt
        | NodeTag::CreateStmt
        | NodeTag::CreateTableSpaceStmt
        | NodeTag::DropTableSpaceStmt
        | NodeTag::AlterTableSpaceOptionsStmt
        | NodeTag::AlterTableMoveAllStmt
        | NodeTag::CreateExtensionStmt
        | NodeTag::AlterExtensionStmt
        | NodeTag::AlterExtensionContentsStmt
        | NodeTag::CreateFdwStmt
        | NodeTag::AlterFdwStmt
        | NodeTag::CreateForeignServerStmt
        | NodeTag::AlterForeignServerStmt
        | NodeTag::CreateForeignTableStmt
        | NodeTag::AlterUserMappingStmt
        | NodeTag::DropUserMappingStmt
        | NodeTag::ImportForeignSchemaStmt
        | NodeTag::CreatePolicyStmt
        | NodeTag::AlterPolicyStmt
        | NodeTag::CreateAmStmt
        | NodeTag::CreateTrigStmt
        | NodeTag::CreateEventTrigStmt
        | NodeTag::AlterEventTrigStmt
        | NodeTag::CreatePLangStmt
        | NodeTag::CreateRoleStmt
        | NodeTag::AlterRoleStmt
        | NodeTag::AlterRoleSetStmt
        | NodeTag::DropRoleStmt
        | NodeTag::CreateSeqStmt
        | NodeTag::AlterSeqStmt
        | NodeTag::DefineStmt
        | NodeTag::CreateDomainStmt
        | NodeTag::CreateOpClassStmt
        | NodeTag::CreateOpFamilyStmt
        | NodeTag::AlterOpFamilyStmt
        | NodeTag::DropStmt
        | NodeTag::TruncateStmt
        | NodeTag::CommentStmt
        | NodeTag::SecLabelStmt
        | NodeTag::IndexStmt
        | NodeTag::CreateStatsStmt
        | NodeTag::AlterStatsStmt
        | NodeTag::CreateFunctionStmt
        | NodeTag::AlterFunctionStmt
        | NodeTag::DoStmt
        | NodeTag::CallStmt
        | NodeTag::RenameStmt
        | NodeTag::AlterObjectDependsStmt
        | NodeTag::AlterObjectSchemaStmt
        | NodeTag::AlterOwnerStmt
        | NodeTag::AlterOperatorStmt
        | NodeTag::AlterTypeStmt
        | NodeTag::RuleStmt
        | NodeTag::ViewStmt
        | NodeTag::LoadStmt
        | NodeTag::CreatedbStmt
        | NodeTag::AlterDatabaseStmt
        | NodeTag::AlterDatabaseRefreshCollStmt
        | NodeTag::AlterDatabaseSetStmt
        | NodeTag::DropdbStmt
        | NodeTag::AlterSystemStmt
        | NodeTag::ClusterStmt
        | NodeTag::VacuumStmt
        | NodeTag::CheckPointStmt
        | NodeTag::CreateTableAsStmt
        | NodeTag::RefreshMatViewStmt
        | NodeTag::ReindexStmt
        | NodeTag::CreateConversionStmt
        | NodeTag::CreateCastStmt
        | NodeTag::CreateTransformStmt
        | NodeTag::ExecuteStmt
        | NodeTag::DropOwnedStmt
        | NodeTag::ReassignOwnedStmt
        | NodeTag::AlterTSDictionaryStmt
        | NodeTag::AlterTSConfigurationStmt
        | NodeTag::CreatePublicationStmt
        | NodeTag::AlterPublicationStmt
        | NodeTag::CreateSubscriptionStmt
        | NodeTag::AlterSubscriptionStmt
        | NodeTag::DropSubscriptionStmt => true,
        _ => false,
    }
}

impl DefElem {
    /// Whether the option has this name.
    pub open spec fn is_named(self, name: Seq<char>) -> bool {
        types::opt_chars(self.name) == Some(name)
    }

    /// The boolean that the option is set to.
    pub open spec fn boolean(self) -> Option<bool> {
        match self.arg {
            DefElemArg::Boolean(value) => Some(value),
            _ => None,
        }
    }
}

pub open spec fn is_analyze_option() -> spec_fn(Option<DefElem>) -> bool {
    |option: Option<DefElem>| option is Some && option->0.is_named("analyze"@)
}

/// Whether options ask for the statement to be run: the first one that says so decides, and without an
/// argument it means yes.
pub open spec fn asks_to_analyze(options: Seq<Option<DefElem>>) -> bool {
    match seqs::first_where(options, is_analyze_option()) {
        Some(i) => match options[i]->0.boolean() {
            Some(value) => value,
            None => true,
        },
        None => false,
    }
}

/// The class of a utility statement by its kind and, for copies and explains, by what the statement
/// says, where it is known.
pub open spec fn utility_class(
    tag: NodeTag,
    node: Option<UtilityNode>,
    read_only_tree: bool,
) -> StatementClass {
    if tag == NodeTag::CopyStmt {
        match node {
            None => StatementClass::Copy,
            Some(copy) => if copy.is_from {
                StatementClass::Copy
            } else {
                StatementClass::ReadOnly
            },
        }
    } else if tag == NodeTag::ExplainStmt {
        match node {
            None => StatementClass::Utility,
            Some(explain) => if asks_to_analyze(explain.options@) {
                StatementClass::Utility
            } else {
                StatementClass::ReadOnly
            },
        }
    } else if is_read_only_tag(tag) {
        StatementClass::ReadOnly
    } else if is_wal_candidate_tag(tag) {
        StatementClass::Utility
    } else if read_only_tree {
        StatementClass::ReadOnly
    } else {
        StatementClass::Utility
    }
}

/// The class of a statement that is handed to the utility hook.
pub open spec fn utility_statement_class(
    statement: PlannedStatement,
    read_only_tree: bool,
) -> StatementClass {
    if statement.command_type != CommandType::Utility {
        StatementClass::Unknown
    } else {
        match statement.utility {
            None => StatementClass::Utility,
            Some(node) => utility_class(node.tag, Some(node), read_only_tree),
        }
    }
}

/// The class of a statement that is handed to the executor hook.
pub open spec fn executor_statement_class(statement: PlannedStatement) -> StatementClass {
    match statement.command_type {
        CommandType::Select => if statement.has_modifying_cte {
            StatementClass::Write
        } else {
            StatementClass::ReadOnly
        },
        CommandType::Insert => StatementClass::Write,
        CommandType::Update => StatementClass::Write,
        CommandType::Delete => StatementClass::Write,
        CommandType::Merge => StatementClass::Write,
        CommandType::Utility => StatementClass::Unknown,
        CommandType::Unknown => StatementClass::Unknown,
    }
}

/// The identity of a statement's query.
pub open spec fn query_identity(statement: PlannedStatement) -> Option<QueryId> {
    if statement.query_id == 0 {
        None
    } else {
        Some(statement.query_id)
    }
}

/// Whether a statement creates this very extension.
pub open spec fn creates_this_extension(statement: PlannedStatement) -> bool {
    &&& statement.command_type == CommandType::Utility
    &&& statement.utility matches Some(node) && node.tag == NodeTag::CreateExtensionStmt
        && types::opt_chars(node.extension_name) == Some("pg_wal_budget"@)
}

pub fn def_elem_name_is(def_elem: &DefElem, expected: &str) -> (r: bool)
    ensures
        r == def_elem.is_named(expected@),
{
    match &def_elem.name {
        Some(name) => text::str_eq(name.as_str(), expected),
        None => false,
    }
}

pub fn def_elem_boolean_value(def_elem: &DefElem) -> (r: Option<bool>)
    ensures
        r == def_elem.boolean(),
{
    match def_elem.arg {
        DefElemArg::Boolean(value) => Some(value),
        _ => None,
    }
}

pub fn explain_options_contain_analyze(options: &[Option<DefElem>]) -> (r: bool)
    ensures
        r == asks_to_analyze(options@),
{
    let ghost p = is_analyze_option();
    let mut i: usize = 0;
    while i < options.len()
        invariant
            i <= options@.len(),
            p == is_analyze_option(),
            forall|j: int| 0 <= j < i ==> !p(#[trigger] options@[j]),
        decreases options@.len() - i,
    {
        if let Some(def_elem) = &options[i] {
            if def_elem_name_is(def_elem, "analyze") {
                proof {
                    seqs::lemma_first_where_is_unique(options@, p, Some(i as int));
                }
                return match def_elem_boolean_value(def_elem) {
                    Some(value) => value,
                    None => true,
                };
            }
        }
        i += 1;
    }
    proof {
        seqs::lemma_first_where_is_unique(options@, p, None);
    }
    false
}

pub fn explain_has_analyze_option(explain_statement: &UtilityNode) -> (r: bool)
    ensures
        r == asks_to_analyze(explain_statement.options@),
{
    explain_options_contain_analyze(explain_statement.options.as_slice())
}

pub fn classify_copy_statement(utility_stmt: Option<&UtilityNode>) -> (r: StatementClass)
    ensures
        r == match utility_stmt {
            None => StatementClass::Copy,
            Some(copy) => if copy.is_from {
                StatementClass::Copy
            } else {
                StatementClass::ReadOnly
            },
        },
{
    match utility_stmt {
        None => StatementClass::Copy,
        Some(copy) => if copy.is_from {
            StatementClass::Copy
        } else {
            StatementClass::ReadOnly
        },
    }
}

pub fn classify_explain_statement(utility_stmt: Option<&UtilityNode>) -> (r: StatementClass)
    ensures
        r == match utility_stmt {
            None => StatementClass::Utility,
            Some(explain) => if asks_to_analyze(explain.options@) {
                StatementClass::Utility
            } else {
                StatementClass::ReadOnly
            },
        },
{
    match utility_stmt {
        None => StatementClass::Utility,
        Some(explain) => if explain_has_analyze_option(explain) {
            StatementClass::Utility
        } else {
            StatementClass::ReadOnly
        },
    }
}

/// The node behind an optional reference.
pub open spec fn node_of(node: Option<&UtilityNode>) -> Option<UtilityNode> {
    match node {
        Some(node) => Some(*node),
        None => None,
    }
}

pub fn classify_utility_node_tag(
    tag: NodeTag,
    utility_stmt: Option<&UtilityNode>,
    read_only_tree: bool,
) -> (r: StatementClass)
    ensures
        r == utility_class(tag, node_of(utility_stmt), read_only_tree),
{
    if tag == NodeTag::CopyStmt {
        return classify_copy_statement(utility_stmt);
    }
    if tag == NodeTag::ExplainStmt {
        return classify_explain_statement(utility_stmt);
    }
    if is_known_read_only_utility(tag) {
        return StatementClass::ReadOnly;
    }
    if is_known_wal_candidate_utility(tag) {
        return StatementClass::Utility;
    }
    if read_only_tree {
        StatementClass::ReadOnly
    } else {
        StatementClass::Utility
    }
}

/// The error for a utility hook that was called without a statement.
pub open spec fn missing_statement_error() -> PwbErrorView {
    errors::internal("process utility received a null PlannedStmt"@)
}

pub fn classify_utility_statement(pstmt: Option<&PlannedStatement>, read_only_tree: bool) -> (r:
    PwbResult<StatementClass>)
    ensures
        errors::same_result(
            r,
            match pstmt {
                Some(statement) => Ok(utility_statement_class(*statement, read_only_tree)),
                None => Err(missing_statement_error()),
            },
        ),
{
    match pstmt {
        None => Err(internal_error("process utility received a null PlannedStmt".to_owned())),
        Some(statement) => {
            if statement.command_type != CommandType::Utility {
                return Ok(StatementClass::Unknown);
            }
            match &statement.utility {
                None => Ok(StatementClass::Utility),
                Some(node) => Ok(classify_utility_node_tag(node.tag, Some(node), read_only_tree)),
            }
        },
    }
}

pub fn extract_utility_query_id(pstmt: Option<&PlannedStatement>) -> (r: Option<QueryId>)
    ensures
        r == match pstmt {
            Some(statement) => query_identity(*statement),
            None => None,
        },
{
    match pstmt {
        Some(statement) => extract_query_id(statement),
        None => None,
    }
}

pub fn extract_query_id(planned_statement: &PlannedStatement) -> (r: Option<QueryId>)
    ensures
        r == query_identity(*planned_statement),
{
    if planned_statement.query_id == 0 {
        None
    } else {
        Some(planned_statement.query_id)
    }
}

pub fn classify_planned_statement(planned_statement: &PlannedStatement) -> (r: StatementClass)
    ensures
        r == executor_statement_class(*planned_statement),
{
    match planned_statement.command_type {
        CommandType::Select => if planned_statement.has_modifying_cte {
            StatementClass::Write
        } else {
            StatementClass::ReadOnly
        },
        CommandType::Insert | CommandType::Update | CommandType::Delete | CommandType::Merge =>
            StatementClass::Write,
        CommandType::Utility | CommandType::Unknown => StatementClass::Unknown,
    }
}

pub fn is_pg_wal_budget_create_extension(pstmt: Option<&PlannedStatement>) -> (r: bool)
    ensures
        r == (pstmt is Some && creates_this_extension(*pstmt->0)),
{
    match pstmt {
        None => false,
        Some(statement) => {
            if statement.command_type != CommandType::Utility {
                return false;
            }
            match &statement.utility {
                None => false,
                Some(node) => {
                    if node.tag != NodeTag::CreateExtensionStmt {
                        return false;
                    }
                    match &node.extension_name {
                        None => false,
                        Some(name) => text::str_eq(name.as_str(), "pg_wal_budget"),
                    }
                },
            }
        },
    }
}

/// No kind of utility statement is both known to only read and known to write.
pub proof fn law_utility_kinds_are_told_apart(tag: NodeTag)
    ensures
        !(is_read_only_tag(tag) && is_wal_candidate_tag(tag)),
        is_read_only_tag(tag) ==> tag != NodeTag::CopyStmt && tag != NodeTag::ExplainStmt,
        is_wal_candidate_tag(tag) ==> tag != NodeTag::CopyStmt && tag != NodeTag::ExplainStmt,
{
}

/// What the server says of the statement counts only for kinds that are not known.
pub proof fn law_known_utilities_ignore_read_only_tree(tag: NodeTag, node: Option<UtilityNode>)
    requires
        is_read_only_tag(tag) || is_wal_candidate_tag(tag) || tag == NodeTag::CopyStmt || tag
            == NodeTag::ExplainStmt,
    ensures
        utility_class(tag, node, true) == utility_class(tag, node, false),
{
}

/// For the executor a statement only reads exactly where it is a select without a modifying common table
/// expression. Every insert, update, delete and merge writes, as does a select with such an expression;
/// what is none of these is of an unknown class.
pub proof fn law_only_plain_selects_read(statement: PlannedStatement)
    ensures
        executor_statement_class(statement) == StatementClass::ReadOnly <==> statement.command_type
            == CommandType::Select && !statement.has_modifying_cte,
        executor_statement_class(statement) == StatementClass::Write <==> statement.command_type
            == CommandType::Insert || statement.command_type == CommandType::Update
            || statement.command_type == CommandType::Delete || statement.command_type
            == CommandType::Merge || (statement.command_type == CommandType::Select
            && statement.has_modifying_cte),
        executor_statement_class(statement) == StatementClass::Unknown <==> statement.command_type
            == CommandType::Utility || statement.command_type == CommandType::Unknown,
{
}

/// A copy into a table is a copy, a copy out of one only reads, and an explain only reads unless it runs
/// the statement. Session control, transactions, cursors, notifications, locks and prepared statements
/// only read. Every other kind that is known may write, whatever the server says of it; of a kind that is
/// not known the server decides.
pub proof fn law_utilities_are_told_by_what_they_do(
    tag: NodeTag,
    node: UtilityNode,
    read_only_tree: bool,
)
    ensures
        utility_class(NodeTag::CopyStmt, Some(node), read_only_tree) == if node.is_from {
            StatementClass::Copy
        } else {
            StatementClass::ReadOnly
        },
        utility_class(NodeTag::CopyStmt, None, read_only_tree) == StatementClass::Copy,
        utility_class(NodeTag::ExplainStmt, None, read_only_tree) == StatementClass::Utility,
        utility_class(NodeTag::ExplainStmt, Some(node), read_only_tree) == StatementClass::Utility
            || utility_class(NodeTag::ExplainStmt, Some(node), read_only_tree)
            == StatementClass::ReadOnly,
        ({
            let reads = tag == NodeTag::VariableSetStmt || tag == NodeTag::VariableShowStmt || tag
                == NodeTag::TransactionStmt || tag == NodeTag::DeclareCursorStmt || tag
                == NodeTag::ClosePortalStmt || tag == NodeTag::FetchStmt || tag
                == NodeTag::ListenStmt || tag == NodeTag::UnlistenStmt || tag
                == NodeTag::DiscardStmt || tag == NodeTag::LockStmt || tag
                == NodeTag::ConstraintsSetStmt || tag == NodeTag::PrepareStmt || tag
                == NodeTag::DeallocateStmt;
            let special = tag == NodeTag::CopyStmt || tag == NodeTag::ExplainStmt || tag
                == NodeTag::Invalid;
            &&& reads ==> utility_class(tag, Some(node), read_only_tree) == StatementClass::ReadOnly
                && utility_class(tag, None, read_only_tree) == StatementClass::ReadOnly
            &&& !reads && !special ==> utility_class(tag, Some(node), read_only_tree)
                == StatementClass::Utility && utility_class(tag, None, read_only_tree)
                == StatementClass::Utility
            &&& reads <==> is_read_only_tag(tag)
            &&& !reads && !special <==> is_wal_candidate_tag(tag)
        }),
        utility_class(NodeTag::Invalid, Some(node), read_only_tree) == if read_only_tree {
            StatementClass::ReadOnly
        } else {
            StatementClass::Utility
        },
{
}

/// An explain runs its statement exactly where the first of its options named analyze is not set to
/// false. Without such an option it only reads.
pub proof fn law_explain_runs_what_it_analyzes(
    options: Seq<Option<DefElem>>,
    node: UtilityNode,
    i: int,
    read_only_tree: bool,
)
    requires
        node.options@ == options,
        0 <= i <= options.len(),
        forall|j: int|
            0 <= j < i ==> !((#[trigger] options[j]) matches Some(option) && option.name matches Some(
                name,
            ) && name@ == "analyze"@),
        i < options.len() ==> (options[i] matches Some(option) && option.name matches Some(name)
            && name@ == "analyze"@),
    ensures
        utility_class(NodeTag::ExplainStmt, Some(node), read_only_tree) == if i < options.len()
            && options[i]->0.arg != DefElemArg::Boolean(false) {
            StatementClass::Utility
        } else {
            StatementClass::ReadOnly
        },
        asks_to_analyze(options) <==> i < options.len() && options[i]->0.arg != DefElemArg::Boolean(
            false,
        ),
{
    let p = is_analyze_option();
    assert forall|j: int| 0 <= j < i implies !p(#[trigger] options[j]) by {}
    if i < options.len() {
        assert(p(options[i]));
        seqs::lemma_first_where_is_unique(options, p, Some(i));
    } else {
        seqs::lemma_first_where_is_unique(options, p, None);
    }
}

/// What is handed to the utility hook is classed by its node where it is a utility statement with one;
/// without a node it may write, and what is no utility statement is of an unknown class. A query has an
/// identity exactly where its number is not zero, and it is that number.
pub proof fn law_hooks_class_by_node_and_number(statement: PlannedStatement, read_only_tree: bool)
    ensures
        statement.command_type != CommandType::Utility ==> utility_statement_class(
            statement,
            read_only_tree,
        ) == StatementClass::Unknown,
        statement.command_type == CommandType::Utility ==> utility_statement_class(
            statement,
            read_only_tree,
        ) == match statement.utility {
            Some(node) => utility_class(node.tag, Some(node), read_only_tree),
            None => StatementClass::Utility,
        },
        statement.query_id == 0 <==> query_identity(statement) is None,
        query_identity(statement) matches Some(query_id) ==> query_id == statement.query_id,
        creates_this_extension(statement) <==> (statement.command_type == CommandType::Utility
            && statement.utility is Some && statement.utility->0.tag
            == NodeTag::CreateExtensionStmt && statement.utility->0.extension_name is Some
            && statement.utility->0.extension_name->0@ == "pg_wal_budget"@),
{
}

} // verus!

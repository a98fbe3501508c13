//! The records that the extraction produces, each with a model over mathematical values.
use vstd::prelude::*;

use crate::seqs::{vec_same, ViewEq};
use crate::text::{opt_str_eq, str_eq};

verus! {

/// What an execution step does.
#[derive(Debug, Clone, Copy, PartialEq, Eq, Structural)]
pub enum StepKind {
    FieldRead,
    FieldAssignment,
    Arithmetic,
    CpiCall,
    LamportTransfer,
    SetAuthority,
    RequireCheck,
    Emit,
    ConditionalBranch,
    LetBinding,
    MethodCall,
}

/// An instruction listed in the scope file: its name and its context struct.
#[derive(Debug, Clone, PartialEq)]
pub struct ScopeInstruction {
    pub ix: String,
    pub context: String,
}

/// The model of [`ScopeInstruction`].
pub struct SpecScopeInstruction {
    pub ix: Seq<char>,
    pub context: Seq<char>,
}

impl View for ScopeInstruction {
    type V = SpecScopeInstruction;

    open spec fn view(&self) -> SpecScopeInstruction {
        SpecScopeInstruction {
            ix: self.ix@,
            context: self.context@,
        }
    }
}

impl DeepView for ScopeInstruction {
    type V = SpecScopeInstruction;

    open spec fn deep_view(&self) -> SpecScopeInstruction {
        self.view()
    }
}

/// The scope of a program: its name, when the scope was made, and its instructions.
#[derive(Debug, Clone, PartialEq)]
pub struct Scope {
    pub program: String,
    pub generated_at: String,
    pub instructions: Vec<ScopeInstruction>,
}

/// The model of [`Scope`].
pub struct SpecScope {
    pub program: Seq<char>,
    pub generated_at: Seq<char>,
    pub instructions: Seq<SpecScopeInstruction>,
}

impl View for Scope {
    type V = SpecScope;

    open spec fn view(&self) -> SpecScope {
        SpecScope {
            program: self.program@,
            generated_at: self.generated_at@,
            instructions: self.instructions.deep_view(),
        }
    }
}

impl DeepView for Scope {
    type V = SpecScope;

    open spec fn deep_view(&self) -> SpecScope {
        self.view()
    }
}

/// Everything extracted from a program's source.
#[derive(Debug, Clone, PartialEq)]
pub struct Facts {
    pub program: String,
    pub program_id: Option<String>,
    pub instructions: Vec<FactInstruction>,
    pub accounts: Vec<FactAccount>,
    pub data_structs: Vec<FactDataStruct>,
    pub errors: Vec<FactError>,
    pub cpi_calls: Vec<CpiCall>,
    pub risk_signals: Vec<RiskSignal>,
    pub flags: Vec<RiskFlag>,
}

/// The model of [`Facts`].
pub struct SpecFacts {
    pub program: Seq<char>,
    pub program_id: Option<Seq<char>>,
    pub instructions: Seq<SpecFactInstruction>,
    pub accounts: Seq<SpecFactAccount>,
    pub data_structs: Seq<SpecFactDataStruct>,
    pub errors: Seq<SpecFactError>,
    pub cpi_calls: Seq<SpecCpiCall>,
    pub risk_signals: Seq<SpecRiskSignal>,
    pub flags: Seq<SpecRiskFlag>,
}

impl View for Facts {
    type V = SpecFacts;

    open spec fn view(&self) -> SpecFacts {
        SpecFacts {
            program: self.program@,
            program_id: self.program_id.deep_view(),
            instructions: self.instructions.deep_view(),
            accounts: self.accounts.deep_view(),
            data_structs: self.data_structs.deep_view(),
            errors: self.errors.deep_view(),
            cpi_calls: self.cpi_calls.deep_view(),
            risk_signals: self.risk_signals.deep_view(),
            flags: self.flags.deep_view(),
        }
    }
}

impl DeepView for Facts {
    type V = SpecFacts;

    open spec fn deep_view(&self) -> SpecFacts {
        self.view()
    }
}

/// One instruction handler (or helper) with what its signature, context and body show.
#[derive(Debug, Clone, PartialEq)]
pub struct FactInstruction {
    pub name: String,
    pub context: String,
    pub args: Vec<InstructionArg>,
    pub params: Vec<InstructionParam>,
    pub accounts: Vec<InstructionAccount>,
    pub checks: Vec<String>,
    pub body_checks: Vec<BodyCheck>,
    pub arithmetic: Vec<Arithmetic>,
    pub cpi_calls: Vec<CpiCall>,
    pub events_emitted: Vec<String>,
    pub uses_remaining_accounts: bool,
    pub error_codes_referenced: Vec<String>,
    pub pda: Vec<String>,
    pub source: Option<String>,
    pub execution_steps: Vec<ExecutionStep>,
    pub sol_flows: Vec<SolFlow>,
    pub token_flows: Vec<TokenFlow>,
    pub state_mutations: Vec<StateMutation>,
    pub set_authority_calls: Vec<SetAuthorityCall>,
    pub partial_lamport_flows: Vec<PartialLamportFlow>,
}

/// The model of [`FactInstruction`].
pub struct SpecFactInstruction {
    pub name: Seq<char>,
    pub context: Seq<char>,
    pub args: Seq<SpecInstructionArg>,
    pub params: Seq<SpecInstructionParam>,
    pub accounts: Seq<SpecInstructionAccount>,
    pub checks: Seq<Seq<char>>,
    pub body_checks: Seq<SpecBodyCheck>,
    pub arithmetic: Seq<SpecArithmetic>,
    pub cpi_calls: Seq<SpecCpiCall>,
    pub events_emitted: Seq<Seq<char>>,
    pub uses_remaining_accounts: bool,
    pub error_codes_referenced: Seq<Seq<char>>,
    pub pda: Seq<Seq<char>>,
    pub source: Option<Seq<char>>,
    pub execution_steps: Seq<SpecExecutionStep>,
    pub sol_flows: Seq<SpecSolFlow>,
    pub token_flows: Seq<SpecTokenFlow>,
    pub state_mutations: Seq<SpecStateMutation>,
    pub set_authority_calls: Seq<SpecSetAuthorityCall>,
    pub partial_lamport_flows: Seq<SpecPartialLamportFlow>,
}

impl View for FactInstruction {
    type V = SpecFactInstruction;

    open spec fn view(&self) -> SpecFactInstruction {
        SpecFactInstruction {
            name: self.name@,
            context: self.context@,
            args: self.args.deep_view(),
            params: self.params.deep_view(),
            accounts: self.accounts.deep_view(),
            checks: self.checks.deep_view(),
            body_checks: self.body_checks.deep_view(),
            arithmetic: self.arithmetic.deep_view(),
            cpi_calls: self.cpi_calls.deep_view(),
            events_emitted: self.events_emitted.deep_view(),
            uses_remaining_accounts: self.uses_remaining_accounts,
            error_codes_referenced: self.error_codes_referenced.deep_view(),
            pda: self.pda.deep_view(),
            source: self.source.deep_view(),
            execution_steps: self.execution_steps.deep_view(),
            sol_flows: self.sol_flows.deep_view(),
            token_flows: self.token_flows.deep_view(),
            state_mutations: self.state_mutations.deep_view(),
            set_authority_calls: self.set_authority_calls.deep_view(),
            partial_lamport_flows: self.partial_lamport_flows.deep_view(),
        }
    }
}

impl DeepView for FactInstruction {
    type V = SpecFactInstruction;

    open spec fn deep_view(&self) -> SpecFactInstruction {
        self.view()
    }
}

/// A named field with the text of its type.
#[derive(Debug, Clone, PartialEq)]
pub struct InstructionArg {
    pub name: String,
    pub type_info: String,
}

/// The model of [`InstructionArg`].
pub struct SpecInstructionArg {
    pub name: Seq<char>,
    pub type_info: Seq<char>,
}

impl View for InstructionArg {
    type V = SpecInstructionArg;

    open spec fn view(&self) -> SpecInstructionArg {
        SpecInstructionArg {
            name: self.name@,
            type_info: self.type_info@,
        }
    }
}

impl DeepView for InstructionArg {
    type V = SpecInstructionArg;

    open spec fn deep_view(&self) -> SpecInstructionArg {
        self.view()
    }
}

/// A handler parameter other than its context, with the text of its type.
#[derive(Debug, Clone, PartialEq)]
pub struct InstructionParam {
    pub name: String,
    pub ty: String,
    pub overflow_risk: bool,
}

/// The model of [`InstructionParam`].
pub struct SpecInstructionParam {
    pub name: Seq<char>,
    pub ty: Seq<char>,
    pub overflow_risk: bool,
}

impl View for InstructionParam {
    type V = SpecInstructionParam;

    open spec fn view(&self) -> SpecInstructionParam {
        SpecInstructionParam {
            name: self.name@,
            ty: self.ty@,
            overflow_risk: self.overflow_risk,
        }
    }
}

impl DeepView for InstructionParam {
    type V = SpecInstructionParam;

    open spec fn deep_view(&self) -> SpecInstructionParam {
        self.view()
    }
}

/// An account field of a `#[derive(Accounts)]` struct.
#[derive(Debug, Clone, PartialEq)]
pub struct InstructionAccount {
    pub name: String,
    pub type_info: String,
    pub is_mut: bool,
    pub is_signer: bool,
    pub constraints: Vec<String>,
    pub attributes: String,
    pub wrapper_type: Option<String>,
    pub inner_type: Option<String>,
    pub unchecked: bool,
    pub has_one: Vec<String>,
    pub close_target: Option<String>,
}

/// The model of [`InstructionAccount`].
pub struct SpecInstructionAccount {
    pub name: Seq<char>,
    pub type_info: Seq<char>,
    pub is_mut: bool,
    pub is_signer: bool,
    pub constraints: Seq<Seq<char>>,
    pub attributes: Seq<char>,
    pub wrapper_type: Option<Seq<char>>,
    pub inner_type: Option<Seq<char>>,
    pub unchecked: bool,
    pub has_one: Seq<Seq<char>>,
    pub close_target: Option<Seq<char>>,
}

impl View for InstructionAccount {
    type V = SpecInstructionAccount;

    open spec fn view(&self) -> SpecInstructionAccount {
        SpecInstructionAccount {
            name: self.name@,
            type_info: self.type_info@,
            is_mut: self.is_mut,
            is_signer: self.is_signer,
            constraints: self.constraints.deep_view(),
            attributes: self.attributes@,
            wrapper_type: self.wrapper_type.deep_view(),
            inner_type: self.inner_type.deep_view(),
            unchecked: self.unchecked,
            has_one: self.has_one.deep_view(),
            close_target: self.close_target.deep_view(),
        }
    }
}

impl DeepView for InstructionAccount {
    type V = SpecInstructionAccount;

    open spec fn deep_view(&self) -> SpecInstructionAccount {
        self.view()
    }
}

/// A `require!`-family check found in a handler body.
#[derive(Debug, Clone, PartialEq)]
pub struct BodyCheck {
    pub macro_name: String,
    pub condition: Option<String>,
    pub lhs: Option<String>,
    pub rhs: Option<String>,
    pub error: String,
}

/// The model of [`BodyCheck`].
pub struct SpecBodyCheck {
    pub macro_name: Seq<char>,
    pub condition: Option<Seq<char>>,
    pub lhs: Option<Seq<char>>,
    pub rhs: Option<Seq<char>>,
    pub error: Seq<char>,
}

impl View for BodyCheck {
    type V = SpecBodyCheck;

    open spec fn view(&self) -> SpecBodyCheck {
        SpecBodyCheck {
            macro_name: self.macro_name@,
            condition: self.condition.deep_view(),
            lhs: self.lhs.deep_view(),
            rhs: self.rhs.deep_view(),
            error: self.error@,
        }
    }
}

impl DeepView for BodyCheck {
    type V = SpecBodyCheck;

    open spec fn deep_view(&self) -> SpecBodyCheck {
        self.view()
    }
}

/// An arithmetic operation found in a handler body.
#[derive(Debug, Clone, PartialEq)]
pub struct Arithmetic {
    pub operation: String,
    pub style: String,
    pub expression: String,
    pub overflow_risk: bool,
}

/// The model of [`Arithmetic`].
pub struct SpecArithmetic {
    pub operation: Seq<char>,
    pub style: Seq<char>,
    pub expression: Seq<char>,
    pub overflow_risk: bool,
}

impl View for Arithmetic {
    type V = SpecArithmetic;

    open spec fn view(&self) -> SpecArithmetic {
        SpecArithmetic {
            operation: self.operation@,
            style: self.style@,
            expression: self.expression@,
            overflow_risk: self.overflow_risk,
        }
    }
}

impl DeepView for Arithmetic {
    type V = SpecArithmetic;

    open spec fn deep_view(&self) -> SpecArithmetic {
        self.view()
    }
}

/// A flagged pattern, with its severity and where it was seen.
#[derive(Debug, Clone, PartialEq)]
pub struct RiskFlag {
    pub severity: String,
    pub ty: String,
    pub instruction: String,
    pub account: Option<String>,
    pub expression: Option<String>,
    pub drain_target: Option<String>,
    pub note: String,
}

/// The model of [`RiskFlag`].
pub struct SpecRiskFlag {
    pub severity: Seq<char>,
    pub ty: Seq<char>,
    pub instruction: Seq<char>,
    pub account: Option<Seq<char>>,
    pub expression: Option<Seq<char>>,
    pub drain_target: Option<Seq<char>>,
    pub note: Seq<char>,
}

impl View for RiskFlag {
    type V = SpecRiskFlag;

    open spec fn view(&self) -> SpecRiskFlag {
        SpecRiskFlag {
            severity: self.severity@,
            ty: self.ty@,
            instruction: self.instruction@,
            account: self.account.deep_view(),
            expression: self.expression.deep_view(),
            drain_target: self.drain_target.deep_view(),
            note: self.note@,
        }
    }
}

impl DeepView for RiskFlag {
    type V = SpecRiskFlag;

    open spec fn deep_view(&self) -> SpecRiskFlag {
        self.view()
    }
}

/// A context struct and its fields.
#[derive(Debug, Clone, PartialEq)]
pub struct FactAccount {
    pub name: String,
    pub fields: Vec<InstructionArg>,
}

/// The model of [`FactAccount`].
pub struct SpecFactAccount {
    pub name: Seq<char>,
    pub fields: Seq<SpecInstructionArg>,
}

impl View for FactAccount {
    type V = SpecFactAccount;

    open spec fn view(&self) -> SpecFactAccount {
        SpecFactAccount {
            name: self.name@,
            fields: self.fields.deep_view(),
        }
    }
}

impl DeepView for FactAccount {
    type V = SpecFactAccount;

    open spec fn deep_view(&self) -> SpecFactAccount {
        self.view()
    }
}

/// A field of an `#[account]` data struct with its tags.
#[derive(Debug, Clone, PartialEq)]
pub struct DataStructField {
    pub name: String,
    pub ty: String,
    pub tags: Vec<String>,
}

/// The model of [`DataStructField`].
pub struct SpecDataStructField {
    pub name: Seq<char>,
    pub ty: Seq<char>,
    pub tags: Seq<Seq<char>>,
}

impl View for DataStructField {
    type V = SpecDataStructField;

    open spec fn view(&self) -> SpecDataStructField {
        SpecDataStructField {
            name: self.name@,
            ty: self.ty@,
            tags: self.tags.deep_view(),
        }
    }
}

impl DeepView for DataStructField {
    type V = SpecDataStructField;

    open spec fn deep_view(&self) -> SpecDataStructField {
        self.view()
    }
}

/// An `#[account]` data struct.
#[derive(Debug, Clone, PartialEq)]
pub struct FactDataStruct {
    pub name: String,
    pub fields: Vec<DataStructField>,
    pub attributes: Vec<String>,
}

/// The model of [`FactDataStruct`].
pub struct SpecFactDataStruct {
    pub name: Seq<char>,
    pub fields: Seq<SpecDataStructField>,
    pub attributes: Seq<Seq<char>>,
}

impl View for FactDataStruct {
    type V = SpecFactDataStruct;

    open spec fn view(&self) -> SpecFactDataStruct {
        SpecFactDataStruct {
            name: self.name@,
            fields: self.fields.deep_view(),
            attributes: self.attributes.deep_view(),
        }
    }
}

impl DeepView for FactDataStruct {
    type V = SpecFactDataStruct;

    open spec fn deep_view(&self) -> SpecFactDataStruct {
        self.view()
    }
}

/// A variant of an `#[error_code]` enum and its message.
#[derive(Debug, Clone, PartialEq)]
pub struct FactError {
    pub code: String,
    pub msg: String,
}

/// The model of [`FactError`].
pub struct SpecFactError {
    pub code: Seq<char>,
    pub msg: Seq<char>,
}

impl View for FactError {
    type V = SpecFactError;

    open spec fn view(&self) -> SpecFactError {
        SpecFactError {
            code: self.code@,
            msg: self.msg@,
        }
    }
}

impl DeepView for FactError {
    type V = SpecFactError;

    open spec fn deep_view(&self) -> SpecFactError {
        self.view()
    }
}

/// A cross-program invocation.
#[derive(Debug, Clone, PartialEq)]
pub struct CpiCall {
    pub target: String,
    pub instruction: String,
    pub from_account: Option<String>,
    pub to_account: Option<String>,
    pub signer_seeds: Option<String>,
    pub nesting_depth: Option<String>,
    pub instruction_name: Option<String>,
}

/// The model of [`CpiCall`].
pub struct SpecCpiCall {
    pub target: Seq<char>,
    pub instruction: Seq<char>,
    pub from_account: Option<Seq<char>>,
    pub to_account: Option<Seq<char>>,
    pub signer_seeds: Option<Seq<char>>,
    pub nesting_depth: Option<Seq<char>>,
    pub instruction_name: Option<Seq<char>>,
}

impl View for CpiCall {
    type V = SpecCpiCall;

    open spec fn view(&self) -> SpecCpiCall {
        SpecCpiCall {
            target: self.target@,
            instruction: self.instruction@,
            from_account: self.from_account.deep_view(),
            to_account: self.to_account.deep_view(),
            signer_seeds: self.signer_seeds.deep_view(),
            nesting_depth: self.nesting_depth.deep_view(),
            instruction_name: self.instruction_name.deep_view(),
        }
    }
}

impl DeepView for CpiCall {
    type V = SpecCpiCall;

    open spec fn deep_view(&self) -> SpecCpiCall {
        self.view()
    }
}

/// A named risk rule with its detail.
#[derive(Debug, Clone, PartialEq)]
pub struct RiskSignal {
    pub rule: String,
    pub detail: String,
}

/// The model of [`RiskSignal`].
pub struct SpecRiskSignal {
    pub rule: Seq<char>,
    pub detail: Seq<char>,
}

impl View for RiskSignal {
    type V = SpecRiskSignal;

    open spec fn view(&self) -> SpecRiskSignal {
        SpecRiskSignal {
            rule: self.rule@,
            detail: self.detail@,
        }
    }
}

impl DeepView for RiskSignal {
    type V = SpecRiskSignal;

    open spec fn deep_view(&self) -> SpecRiskSignal {
        self.view()
    }
}

/// The program-wide summary drawn from the facts.
#[derive(Debug, Clone, PartialEq)]
pub struct Summary {
    pub call_surface: Vec<String>,
    pub authority_map: Vec<String>,
    pub pda_map: Vec<String>,
    pub token_flows: Vec<String>,
    pub top_risks: Vec<String>,
    pub sol_flow_summary: Vec<SummarySolFlow>,
    pub token_flow_summary: Vec<SummaryTokenFlow>,
    pub authority_revocations: Vec<SummaryAuthorityRevocation>,
    pub state_mutation_summary: Vec<SummaryStateMutation>,
}

/// The model of [`Summary`].
pub struct SpecSummary {
    pub call_surface: Seq<Seq<char>>,
    pub authority_map: Seq<Seq<char>>,
    pub pda_map: Seq<Seq<char>>,
    pub token_flows: Seq<Seq<char>>,
    pub top_risks: Seq<Seq<char>>,
    pub sol_flow_summary: Seq<SpecSummarySolFlow>,
    pub token_flow_summary: Seq<SpecSummaryTokenFlow>,
    pub authority_revocations: Seq<SpecSummaryAuthorityRevocation>,
    pub state_mutation_summary: Seq<SpecSummaryStateMutation>,
}

impl View for Summary {
    type V = SpecSummary;

    open spec fn view(&self) -> SpecSummary {
        SpecSummary {
            call_surface: self.call_surface.deep_view(),
            authority_map: self.authority_map.deep_view(),
            pda_map: self.pda_map.deep_view(),
            token_flows: self.token_flows.deep_view(),
            top_risks: self.top_risks.deep_view(),
            sol_flow_summary: self.sol_flow_summary.deep_view(),
            token_flow_summary: self.token_flow_summary.deep_view(),
            authority_revocations: self.authority_revocations.deep_view(),
            state_mutation_summary: self.state_mutation_summary.deep_view(),
        }
    }
}

impl DeepView for Summary {
    type V = SpecSummary;

    open spec fn deep_view(&self) -> SpecSummary {
        self.view()
    }
}

/// One step of a handler body, numbered in body order.
#[derive(Debug, Clone, PartialEq)]
pub struct ExecutionStep {
    pub order: usize,
    pub kind: StepKind,
    pub expression: String,
    pub assigned_to: Option<String>,
    pub source_hint: Option<String>,
}

/// The model of [`ExecutionStep`].
pub struct SpecExecutionStep {
    pub order: usize,
    pub kind: StepKind,
    pub expression: Seq<char>,
    pub assigned_to: Option<Seq<char>>,
    pub source_hint: Option<Seq<char>>,
}

impl View for ExecutionStep {
    type V = SpecExecutionStep;

    open spec fn view(&self) -> SpecExecutionStep {
        SpecExecutionStep {
            order: self.order,
            kind: self.kind,
            expression: self.expression@,
            assigned_to: self.assigned_to.deep_view(),
            source_hint: self.source_hint.deep_view(),
        }
    }
}

impl DeepView for ExecutionStep {
    type V = SpecExecutionStep;

    open spec fn deep_view(&self) -> SpecExecutionStep {
        self.view()
    }
}

/// One side of a direct lamport move: an account and the direction of the move.
#[derive(Debug, Clone, PartialEq)]
pub struct PartialLamportFlow {
    pub account: String,
    pub direction: String,
    pub amount_expression: String,
    pub instruction_order: usize,
}

/// The model of [`PartialLamportFlow`].
pub struct SpecPartialLamportFlow {
    pub account: Seq<char>,
    pub direction: Seq<char>,
    pub amount_expression: Seq<char>,
    pub instruction_order: usize,
}

impl View for PartialLamportFlow {
    type V = SpecPartialLamportFlow;

    open spec fn view(&self) -> SpecPartialLamportFlow {
        SpecPartialLamportFlow {
            account: self.account@,
            direction: self.direction@,
            amount_expression: self.amount_expression@,
            instruction_order: self.instruction_order,
        }
    }
}

impl DeepView for PartialLamportFlow {
    type V = SpecPartialLamportFlow;

    open spec fn deep_view(&self) -> SpecPartialLamportFlow {
        self.view()
    }
}

/// A move of SOL from one account to another.
#[derive(Debug, Clone, PartialEq)]
pub struct SolFlow {
    pub from: String,
    pub to: String,
    pub amount_expression: String,
    pub method: String,
    pub instruction_order: usize,
}

/// The model of [`SolFlow`].
pub struct SpecSolFlow {
    pub from: Seq<char>,
    pub to: Seq<char>,
    pub amount_expression: Seq<char>,
    pub method: Seq<char>,
    pub instruction_order: usize,
}

impl View for SolFlow {
    type V = SpecSolFlow;

    open spec fn view(&self) -> SpecSolFlow {
        SpecSolFlow {
            from: self.from@,
            to: self.to@,
            amount_expression: self.amount_expression@,
            method: self.method@,
            instruction_order: self.instruction_order,
        }
    }
}

impl DeepView for SolFlow {
    type V = SpecSolFlow;

    open spec fn deep_view(&self) -> SpecSolFlow {
        self.view()
    }
}

/// A token movement through a CPI.
#[derive(Debug, Clone, PartialEq)]
pub struct TokenFlow {
    pub from: String,
    pub to: String,
    pub amount_expression: String,
    pub cpi_method: String,
    pub instruction_order: usize,
}

/// The model of [`TokenFlow`].
pub struct SpecTokenFlow {
    pub from: Seq<char>,
    pub to: Seq<char>,
    pub amount_expression: Seq<char>,
    pub cpi_method: Seq<char>,
    pub instruction_order: usize,
}

impl View for TokenFlow {
    type V = SpecTokenFlow;

    open spec fn view(&self) -> SpecTokenFlow {
        SpecTokenFlow {
            from: self.from@,
            to: self.to@,
            amount_expression: self.amount_expression@,
            cpi_method: self.cpi_method@,
            instruction_order: self.instruction_order,
        }
    }
}

impl DeepView for TokenFlow {
    type V = SpecTokenFlow;

    open spec fn deep_view(&self) -> SpecTokenFlow {
        self.view()
    }
}

/// An assignment to a field of an account.
#[derive(Debug, Clone, PartialEq)]
pub struct StateMutation {
    pub account: String,
    pub field: String,
    pub operation: String,
    pub value_expression: String,
    pub instruction_order: usize,
}

/// The model of [`StateMutation`].
pub struct SpecStateMutation {
    pub account: Seq<char>,
    pub field: Seq<char>,
    pub operation: Seq<char>,
    pub value_expression: Seq<char>,
    pub instruction_order: usize,
}

impl View for StateMutation {
    type V = SpecStateMutation;

    open spec fn view(&self) -> SpecStateMutation {
        SpecStateMutation {
            account: self.account@,
            field: self.field@,
            operation: self.operation@,
            value_expression: self.value_expression@,
            instruction_order: self.instruction_order,
        }
    }
}

impl DeepView for StateMutation {
    type V = SpecStateMutation;

    open spec fn deep_view(&self) -> SpecStateMutation {
        self.view()
    }
}

/// A `set_authority` CPI.
#[derive(Debug, Clone, PartialEq)]
pub struct SetAuthorityCall {
    pub account: String,
    pub authority_type: String,
    pub new_authority: String,
    pub instruction_order: usize,
}

/// The model of [`SetAuthorityCall`].
pub struct SpecSetAuthorityCall {
    pub account: Seq<char>,
    pub authority_type: Seq<char>,
    pub new_authority: Seq<char>,
    pub instruction_order: usize,
}

impl View for SetAuthorityCall {
    type V = SpecSetAuthorityCall;

    open spec fn view(&self) -> SpecSetAuthorityCall {
        SpecSetAuthorityCall {
            account: self.account@,
            authority_type: self.authority_type@,
            new_authority: self.new_authority@,
            instruction_order: self.instruction_order,
        }
    }
}

impl DeepView for SetAuthorityCall {
    type V = SpecSetAuthorityCall;

    open spec fn deep_view(&self) -> SpecSetAuthorityCall {
        self.view()
    }
}

/// SOL flows between one pair of accounts by one method, with the instructions that make them.
#[derive(Debug, Clone, PartialEq)]
pub struct SummarySolFlow {
    pub from: String,
    pub to: String,
    pub via: String,
    pub instructions: Vec<String>,
}

/// The model of [`SummarySolFlow`].
pub struct SpecSummarySolFlow {
    pub from: Seq<char>,
    pub to: Seq<char>,
    pub via: Seq<char>,
    pub instructions: Seq<Seq<char>>,
}

impl View for SummarySolFlow {
    type V = SpecSummarySolFlow;

    open spec fn view(&self) -> SpecSummarySolFlow {
        SpecSummarySolFlow {
            from: self.from@,
            to: self.to@,
            via: self.via@,
            instructions: self.instructions.deep_view(),
        }
    }
}

impl DeepView for SummarySolFlow {
    type V = SpecSummarySolFlow;

    open spec fn deep_view(&self) -> SpecSummarySolFlow {
        self.view()
    }
}

/// Token flows between one pair of accounts by one CPI method, with the instructions that make them.
#[derive(Debug, Clone, PartialEq)]
pub struct SummaryTokenFlow {
    pub from: String,
    pub to: String,
    pub via: String,
    pub instructions: Vec<String>,
}

/// The model of [`SummaryTokenFlow`].
pub struct SpecSummaryTokenFlow {
    pub from: Seq<char>,
    pub to: Seq<char>,
    pub via: Seq<char>,
    pub instructions: Seq<Seq<char>>,
}

impl View for SummaryTokenFlow {
    type V = SpecSummaryTokenFlow;

    open spec fn view(&self) -> SpecSummaryTokenFlow {
        SpecSummaryTokenFlow {
            from: self.from@,
            to: self.to@,
            via: self.via@,
            instructions: self.instructions.deep_view(),
        }
    }
}

impl DeepView for SummaryTokenFlow {
    type V = SpecSummaryTokenFlow;

    open spec fn deep_view(&self) -> SpecSummaryTokenFlow {
        self.view()
    }
}

/// An authority revoked (set to `None`) and the instruction that first does it.
#[derive(Debug, Clone, PartialEq)]
pub struct SummaryAuthorityRevocation {
    pub account: String,
    pub authority_type: String,
    pub revoked_in: String,
}

/// The model of [`SummaryAuthorityRevocation`].
pub struct SpecSummaryAuthorityRevocation {
    pub account: Seq<char>,
    pub authority_type: Seq<char>,
    pub revoked_in: Seq<char>,
}

impl View for SummaryAuthorityRevocation {
    type V = SpecSummaryAuthorityRevocation;

    open spec fn view(&self) -> SpecSummaryAuthorityRevocation {
        SpecSummaryAuthorityRevocation {
            account: self.account@,
            authority_type: self.authority_type@,
            revoked_in: self.revoked_in@,
        }
    }
}

impl DeepView for SummaryAuthorityRevocation {
    type V = SpecSummaryAuthorityRevocation;

    open spec fn deep_view(&self) -> SpecSummaryAuthorityRevocation {
        self.view()
    }
}

/// The fields of an account that instructions assign, and those instructions.
#[derive(Debug, Clone, PartialEq)]
pub struct SummaryStateMutation {
    pub account: String,
    pub fields_mutated: Vec<String>,
    pub instructions: Vec<String>,
}

/// The model of [`SummaryStateMutation`].
pub struct SpecSummaryStateMutation {
    pub account: Seq<char>,
    pub fields_mutated: Seq<Seq<char>>,
    pub instructions: Seq<Seq<char>>,
}

impl View for SummaryStateMutation {
    type V = SpecSummaryStateMutation;

    open spec fn view(&self) -> SpecSummaryStateMutation {
        SpecSummaryStateMutation {
            account: self.account@,
            fields_mutated: self.fields_mutated.deep_view(),
            instructions: self.instructions.deep_view(),
        }
    }
}

impl DeepView for SummaryStateMutation {
    type V = SpecSummaryStateMutation;

    open spec fn deep_view(&self) -> SpecSummaryStateMutation {
        self.view()
    }
}

} // verus!

verus! {

impl ViewEq for BodyCheck {
    fn same(&self, other: &Self) -> (r: bool) {
        str_eq(self.macro_name.as_str(), other.macro_name.as_str())
            && opt_str_eq(&self.condition, &other.condition)
            && opt_str_eq(&self.lhs, &other.lhs)
            && opt_str_eq(&self.rhs, &other.rhs)
            && str_eq(self.error.as_str(), other.error.as_str())
    }
}

impl ViewEq for Arithmetic {
    fn same(&self, other: &Self) -> (r: bool) {
        str_eq(self.operation.as_str(), other.operation.as_str())
            && str_eq(self.style.as_str(), other.style.as_str())
            && str_eq(self.expression.as_str(), other.expression.as_str())
            && self.overflow_risk == other.overflow_risk
    }
}

impl ViewEq for CpiCall {
    fn same(&self, other: &Self) -> (r: bool) {
        str_eq(self.target.as_str(), other.target.as_str())
            && str_eq(self.instruction.as_str(), other.instruction.as_str())
            && opt_str_eq(&self.from_account, &other.from_account)
            && opt_str_eq(&self.to_account, &other.to_account)
            && opt_str_eq(&self.signer_seeds, &other.signer_seeds)
            && opt_str_eq(&self.nesting_depth, &other.nesting_depth)
            && opt_str_eq(&self.instruction_name, &other.instruction_name)
    }
}

impl ViewEq for ExecutionStep {
    fn same(&self, other: &Self) -> (r: bool) {
        self.order == other.order
            && self.kind == other.kind
            && str_eq(self.expression.as_str(), other.expression.as_str())
            && opt_str_eq(&self.assigned_to, &other.assigned_to)
            && opt_str_eq(&self.source_hint, &other.source_hint)
    }
}

impl ViewEq for SolFlow {
    fn same(&self, other: &Self) -> (r: bool) {
        str_eq(self.from.as_str(), other.from.as_str())
            && str_eq(self.to.as_str(), other.to.as_str())
            && str_eq(self.amount_expression.as_str(), other.amount_expression.as_str())
            && str_eq(self.method.as_str(), other.method.as_str())
            && self.instruction_order == other.instruction_order
    }
}

impl ViewEq for TokenFlow {
    fn same(&self, other: &Self) -> (r: bool) {
        str_eq(self.from.as_str(), other.from.as_str())
            && str_eq(self.to.as_str(), other.to.as_str())
            && str_eq(self.amount_expression.as_str(), other.amount_expression.as_str())
            && str_eq(self.cpi_method.as_str(), other.cpi_method.as_str())
            && self.instruction_order == other.instruction_order
    }
}

impl ViewEq for StateMutation {
    fn same(&self, other: &Self) -> (r: bool) {
        str_eq(self.account.as_str(), other.account.as_str())
            && str_eq(self.field.as_str(), other.field.as_str())
            && str_eq(self.operation.as_str(), other.operation.as_str())
            && str_eq(self.value_expression.as_str(), other.value_expression.as_str())
            && self.instruction_order == other.instruction_order
    }
}

impl ViewEq for SetAuthorityCall {
    fn same(&self, other: &Self) -> (r: bool) {
        str_eq(self.account.as_str(), other.account.as_str())
            && str_eq(self.authority_type.as_str(), other.authority_type.as_str())
            && str_eq(self.new_authority.as_str(), other.new_authority.as_str())
            && self.instruction_order == other.instruction_order
    }
}

impl ViewEq for InstructionArg {
    fn same(&self, other: &Self) -> (r: bool) {
        str_eq(self.name.as_str(), other.name.as_str())
            && str_eq(self.type_info.as_str(), other.type_info.as_str())
    }
}

} // verus!

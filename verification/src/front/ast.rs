//! The syntax tree of a KERN program, and what each node says.
//!
//! A number literal keeps the text it was written with; its numeric value
//! is read where it is used.
use vstd::prelude::*;
use crate::front::token::{Span, TokenKind};

verus! {

/// A name and where it was written.
#[derive(Debug, Clone)]
pub struct Identifier {
    pub name: String,
    pub span: Span,
}

pub struct IdentV {
    pub name: Seq<char>,
    pub span: Span,
}

impl View for Identifier {
    type V = IdentV;

    open spec fn view(&self) -> IdentV {
        IdentV { name: self.name@, span: self.span }
    }
}

/// The type of an entity's field.
#[derive(Debug, Clone)]
pub enum Type {
    Sym,
    Num,
    Bool,
    Vec,
    Ref,
    Ctx,
    Identifier(Identifier),
}

pub enum TypeV {
    Sym,
    Num,
    Bool,
    Vec,
    Ref,
    Ctx,
    Identifier(IdentV),
}

impl View for Type {
    type V = TypeV;

    open spec fn view(&self) -> TypeV {
        match self {
            Type::Sym => TypeV::Sym,
            Type::Num => TypeV::Num,
            Type::Bool => TypeV::Bool,
            Type::Vec => TypeV::Vec,
            Type::Ref => TypeV::Ref,
            Type::Ctx => TypeV::Ctx,
            Type::Identifier(i) => TypeV::Identifier(i@),
        }
    }
}

/// A field of an entity: its name and type.
#[derive(Debug, Clone)]
pub struct Field {
    pub name: Identifier,
    pub field_type: Type,
    pub span: Span,
}

pub struct FieldV {
    pub name: IdentV,
    pub field_type: TypeV,
    pub span: Span,
}

impl View for Field {
    type V = FieldV;

    open spec fn view(&self) -> FieldV {
        FieldV { name: self.name@, field_type: self.field_type@, span: self.span }
    }
}

/// The value a literal was written with.
#[derive(Debug, Clone)]
pub enum LiteralValue {
    String(String),
    Number(String),
    Boolean(bool),
}

pub enum LitV {
    Str(Seq<char>),
    Number(Seq<char>),
    Boolean(bool),
}

pub open spec fn lit_v(v: LiteralValue) -> LitV {
    match v {
        LiteralValue::String(s) => LitV::Str(s@),
        LiteralValue::Number(s) => LitV::Number(s@),
        LiteralValue::Boolean(b) => LitV::Boolean(b),
    }
}

#[derive(Debug, Clone)]
pub struct Literal {
    pub value: LiteralValue,
    pub span: Span,
}

#[derive(Debug, Clone)]
pub struct VariableExpression {
    pub name: Identifier,
    pub span: Span,
}

#[derive(Debug)]
pub struct BinaryExpression {
    pub left: Box<Expression>,
    pub operator: TokenKind,
    pub right: Box<Expression>,
    pub span: Span,
}

#[derive(Debug)]
pub struct UnaryExpression {
    pub operator: TokenKind,
    pub operand: Box<Expression>,
    pub span: Span,
}

#[derive(Debug)]
pub struct GroupingExpression {
    pub expression: Box<Expression>,
    pub span: Span,
}

#[derive(Debug)]
pub struct AssignmentExpression {
    pub target: Box<Expression>,
    pub value: Box<Expression>,
    pub span: Span,
}

#[derive(Debug)]
pub struct CallExpression {
    pub callee: Box<Expression>,
    pub arguments: Vec<Expression>,
    pub span: Span,
}

#[derive(Debug)]
pub struct MemberExpression {
    pub object: Box<Expression>,
    pub property: Identifier,
    pub span: Span,
}

#[derive(Debug)]
pub struct IndexExpression {
    pub object: Box<Expression>,
    pub index: Box<Expression>,
    pub span: Span,
}

/// An expression.
#[derive(Debug)]
pub enum Expression {
    Literal(Literal),
    Variable(VariableExpression),
    Binary(BinaryExpression),
    Unary(UnaryExpression),
    Grouping(GroupingExpression),
    Assignment(AssignmentExpression),
    Call(CallExpression),
    Member(MemberExpression),
    Index(IndexExpression),
}

/// What an expression says.
pub enum ExprV {
    Literal { value: LitV, span: Span },
    Variable { name: IdentV, span: Span },
    Binary { left: Box<ExprV>, operator: TokenKind, right: Box<ExprV>, span: Span },
    Unary { operator: TokenKind, operand: Box<ExprV>, span: Span },
    Grouping { expression: Box<ExprV>, span: Span },
    Assignment { target: Box<ExprV>, value: Box<ExprV>, span: Span },
    Call { callee: Box<ExprV>, arguments: Seq<ExprV>, span: Span },
    Member { object: Box<ExprV>, property: IdentV, span: Span },
    Index { object: Box<ExprV>, index: Box<ExprV>, span: Span },
}

impl ExprV {
    pub open spec fn span_of(self) -> Span {
        match self {
            ExprV::Literal { span, .. } => span,
            ExprV::Variable { span, .. } => span,
            ExprV::Binary { span, .. } => span,
            ExprV::Unary { span, .. } => span,
            ExprV::Grouping { span, .. } => span,
            ExprV::Assignment { span, .. } => span,
            ExprV::Call { span, .. } => span,
            ExprV::Member { span, .. } => span,
            ExprV::Index { span, .. } => span,
        }
    }
}

pub open spec fn expr_v(e: Expression) -> ExprV
    decreases e,
{
    match e {
        Expression::Literal(l) => ExprV::Literal { value: lit_v(l.value), span: l.span },
        Expression::Variable(v) => ExprV::Variable { name: v.name@, span: v.span },
        Expression::Binary(b) => ExprV::Binary {
            left: Box::new(expr_v(*b.left)),
            operator: b.operator,
            right: Box::new(expr_v(*b.right)),
            span: b.span,
        },
        Expression::Unary(u) => ExprV::Unary { operator: u.operator, operand: Box::new(expr_v(*u.operand)), span: u.span },
        Expression::Grouping(g) => ExprV::Grouping { expression: Box::new(expr_v(*g.expression)), span: g.span },
        Expression::Assignment(a) => ExprV::Assignment {
            target: Box::new(expr_v(*a.target)),
            value: Box::new(expr_v(*a.value)),
            span: a.span,
        },
        Expression::Call(c) => ExprV::Call {
            callee: Box::new(expr_v(*c.callee)),
            arguments: exprs_v(c.arguments@),
            span: c.span,
        },
        Expression::Member(m) => ExprV::Member { object: Box::new(expr_v(*m.object)), property: m.property@, span: m.span },
        Expression::Index(i) => ExprV::Index {
            object: Box::new(expr_v(*i.object)),
            index: Box::new(expr_v(*i.index)),
            span: i.span,
        },
    }
}

pub open spec fn exprs_v(s: Seq<Expression>) -> Seq<ExprV>
    decreases s,
{
    if s.len() == 0 {
        Seq::empty()
    } else {
        exprs_v(s.subrange(0, s.len() - 1)).push(expr_v(s[s.len() - 1]))
    }
}

pub proof fn lemma_exprs_v_push(s: Seq<Expression>, e: Expression)
    ensures
        exprs_v(s.push(e)) == exprs_v(s).push(expr_v(e)),
{
    assert(s.push(e).subrange(0, s.len() as int) =~= s);
}

impl Expression {
    pub fn span(&self) -> (r: &Span)
        ensures
            *r == expr_v(*self).span_of(),
    {
        match self {
            Expression::Literal(literal) => &literal.span,
            Expression::Variable(var) => &var.span,
            Expression::Binary(binary) => &binary.span,
            Expression::Unary(unary) => &unary.span,
            Expression::Grouping(grouping) => &grouping.span,
            Expression::Assignment(assignment) => &assignment.span,
            Expression::Call(call) => &call.span,
            Expression::Member(member) => &member.span,
            Expression::Index(index) => &index.span,
        }
    }
}

#[derive(Debug)]
pub struct ExpressionStatement {
    pub expression: Expression,
    pub span: Span,
}

#[derive(Debug)]
pub struct BlockStatement {
    pub statements: Vec<Statement>,
    pub span: Span,
}

#[derive(Debug)]
pub struct IfStatement {
    pub condition: Expression,
    pub then_branch: Box<Statement>,
    pub else_branch: Option<Box<Statement>>,
    pub span: Span,
}

#[derive(Debug)]
pub struct WhileStatement {
    pub condition: Expression,
    pub body: Box<Statement>,
    pub span: Span,
}

#[derive(Debug)]
pub struct ForStatement {
    pub initializer: Option<Box<Statement>>,
    pub condition: Expression,
    pub increment: Option<Expression>,
    pub body: Box<Statement>,
    pub span: Span,
}

#[derive(Debug)]
pub struct ReturnStatement {
    pub value: Option<Expression>,
    pub span: Span,
}

#[derive(Debug, Clone)]
pub struct BreakStatement {
    pub span: Span,
}

#[derive(Debug, Clone)]
pub struct ContinueStatement {
    pub span: Span,
}

/// A statement.
#[derive(Debug)]
pub enum Statement {
    Expression(ExpressionStatement),
    Declaration(Declaration),
    Block(BlockStatement),
    If(IfStatement),
    While(Box<WhileStatement>),
    For(Box<ForStatement>),
    Return(Box<ReturnStatement>),
    Break(BreakStatement),
    Continue(ContinueStatement),
}

#[derive(Debug)]
pub struct RuleCondition {
    pub expression: Expression,
    pub span: Span,
}

#[derive(Debug)]
pub struct RuleAction {
    pub statements: Vec<Statement>,
    pub span: Span,
}

#[derive(Debug)]
pub struct FlowStep {
    pub expression: Expression,
    pub span: Span,
}

#[derive(Debug)]
pub struct ConstraintCondition {
    pub expression: Expression,
    pub span: Span,
}

#[derive(Debug)]
pub struct ConstraintAction {
    pub statements: Vec<Statement>,
    pub span: Span,
}

#[derive(Debug)]
pub struct EntityDeclaration {
    pub name: Identifier,
    pub fields: Vec<Field>,
    pub span: Span,
}

#[derive(Debug)]
pub struct RuleDeclaration {
    pub name: Identifier,
    pub condition: RuleCondition,
    pub action: RuleAction,
    pub span: Span,
}

#[derive(Debug)]
pub struct FlowDeclaration {
    pub name: Identifier,
    pub steps: Vec<FlowStep>,
    pub span: Span,
}

#[derive(Debug)]
pub struct ConstraintDeclaration {
    pub name: Identifier,
    pub condition: ConstraintCondition,
    pub action: ConstraintAction,
    pub span: Span,
}

/// A declaration at the top of a program.
#[derive(Debug)]
pub enum Declaration {
    Entity(EntityDeclaration),
    Rule(RuleDeclaration),
    Flow(FlowDeclaration),
    Constraint(ConstraintDeclaration),
}

/// What a statement says.
pub enum StmtV {
    Expression { expression: ExprV, span: Span },
    Declaration { declaration: DeclV },
    Block { statements: Seq<StmtV>, span: Span },
    If { condition: ExprV, then_branch: Box<StmtV>, else_branch: Option<Box<StmtV>>, span: Span },
    While { condition: ExprV, body: Box<StmtV>, span: Span },
    For { initializer: Option<Box<StmtV>>, condition: ExprV, increment: Option<ExprV>, body: Box<StmtV>, span: Span },
    Return { value: Option<ExprV>, span: Span },
    Break { span: Span },
    Continue { span: Span },
}

/// What a declaration says; a rule's and a constraint's condition and
/// action each keep their own span.
pub enum DeclV {
    Entity { name: IdentV, fields: Seq<FieldV>, span: Span },
    Rule { name: IdentV, condition: ExprV, condition_span: Span, action: Seq<StmtV>, action_span: Span, span: Span },
    Flow { name: IdentV, steps: Seq<(ExprV, Span)>, span: Span },
    Constraint { name: IdentV, condition: ExprV, condition_span: Span, action: Seq<StmtV>, action_span: Span, span: Span },
}

impl DeclV {
    pub open spec fn span_of(self) -> Span {
        match self {
            DeclV::Entity { span, .. } => span,
            DeclV::Rule { span, .. } => span,
            DeclV::Flow { span, .. } => span,
            DeclV::Constraint { span, .. } => span,
        }
    }
}

impl StmtV {
    pub open spec fn span_of(self) -> Span {
        match self {
            StmtV::Expression { span, .. } => span,
            StmtV::Declaration { declaration } => declaration.span_of(),
            StmtV::Block { span, .. } => span,
            StmtV::If { span, .. } => span,
            StmtV::While { span, .. } => span,
            StmtV::For { span, .. } => span,
            StmtV::Return { span, .. } => span,
            StmtV::Break { span } => span,
            StmtV::Continue { span } => span,
        }
    }
}

pub open spec fn opt_expr_v(e: Option<Expression>) -> Option<ExprV> {
    match e {
        Some(x) => Some(expr_v(x)),
        None => None,
    }
}

pub open spec fn steps_v(s: Seq<FlowStep>) -> Seq<(ExprV, Span)> {
    s.map_values(|f: FlowStep| (expr_v(f.expression), f.span))
}

pub open spec fn fields_v(s: Seq<Field>) -> Seq<FieldV> {
    s.map_values(|f: Field| f@)
}

pub open spec fn stmt_v(s: Statement) -> StmtV
    decreases s,
{
    match s {
        Statement::Expression(e) => StmtV::Expression { expression: expr_v(e.expression), span: e.span },
        Statement::Declaration(d) => StmtV::Declaration { declaration: decl_v(d) },
        Statement::Block(b) => StmtV::Block { statements: stmts_v(b.statements@), span: b.span },
        Statement::If(i) => StmtV::If {
            condition: expr_v(i.condition),
            then_branch: Box::new(stmt_v(*i.then_branch)),
            else_branch: match i.else_branch {
                Some(b) => Some(Box::new(stmt_v(*b))),
                None => None,
            },
            span: i.span,
        },
        Statement::While(w) => StmtV::While { condition: expr_v(w.condition), body: Box::new(stmt_v(*w.body)), span: w.span },
        Statement::For(f) => StmtV::For {
            initializer: match f.initializer {
                Some(b) => Some(Box::new(stmt_v(*b))),
                None => None,
            },
            condition: expr_v(f.condition),
            increment: opt_expr_v(f.increment),
            body: Box::new(stmt_v(*f.body)),
            span: f.span,
        },
        Statement::Return(r) => StmtV::Return { value: opt_expr_v(r.value), span: r.span },
        Statement::Break(b) => StmtV::Break { span: b.span },
        Statement::Continue(c) => StmtV::Continue { span: c.span },
    }
}

pub open spec fn stmts_v(s: Seq<Statement>) -> Seq<StmtV>
    decreases s,
{
    if s.len() == 0 {
        Seq::empty()
    } else {
        stmts_v(s.subrange(0, s.len() - 1)).push(stmt_v(s[s.len() - 1]))
    }
}

pub open spec fn decl_v(d: Declaration) -> DeclV
    decreases d,
{
    match d {
        Declaration::Entity(e) => DeclV::Entity { name: e.name@, fields: fields_v(e.fields@), span: e.span },
        Declaration::Rule(r) => DeclV::Rule {
            name: r.name@,
            condition: expr_v(r.condition.expression),
            condition_span: r.condition.span,
            action: stmts_v(r.action.statements@),
            action_span: r.action.span,
            span: r.span,
        },
        Declaration::Flow(f) => DeclV::Flow { name: f.name@, steps: steps_v(f.steps@), span: f.span },
        Declaration::Constraint(c) => DeclV::Constraint {
            name: c.name@,
            condition: expr_v(c.condition.expression),
            condition_span: c.condition.span,
            action: stmts_v(c.action.statements@),
            action_span: c.action.span,
            span: c.span,
        },
    }
}

pub proof fn lemma_stmts_v_push(s: Seq<Statement>, x: Statement)
    ensures
        stmts_v(s.push(x)) == stmts_v(s).push(stmt_v(x)),
{
    assert(s.push(x).subrange(0, s.len() as int) =~= s);
}

impl Statement {
    pub fn span(&self) -> (r: &Span)
        ensures
            *r == stmt_v(*self).span_of(),
    {
        match self {
            Statement::Expression(expr) => &expr.span,
            Statement::Declaration(decl) => decl.span(),
            Statement::Block(block) => &block.span,
            Statement::If(if_stmt) => &if_stmt.span,
            Statement::While(while_stmt) => &while_stmt.span,
            Statement::For(for_stmt) => &for_stmt.span,
            Statement::Return(return_stmt) => &return_stmt.span,
            Statement::Break(break_stmt) => &break_stmt.span,
            Statement::Continue(continue_stmt) => &continue_stmt.span,
        }
    }
}

impl Declaration {
    pub fn span(&self) -> (r: &Span)
        ensures
            *r == decl_v(*self).span_of(),
    {
        match self {
            Declaration::Entity(entity) => &entity.span,
            Declaration::Rule(rule) => &rule.span,
            Declaration::Flow(flow) => &flow.span,
            Declaration::Constraint(constraint) => &constraint.span,
        }
    }
}

/// A whole program: its declarations in order, and its span.
#[derive(Debug)]
pub struct Program {
    pub declarations: Vec<Declaration>,
    pub span: Span,
}

pub struct ProgramV {
    pub declarations: Seq<DeclV>,
    pub span: Span,
}

pub open spec fn decls_v(s: Seq<Declaration>) -> Seq<DeclV> {
    s.map_values(|d: Declaration| decl_v(d))
}

impl View for Program {
    type V = ProgramV;

    open spec fn view(&self) -> ProgramV {
        ProgramV { declarations: decls_v(self.declarations@), span: self.span }
    }
}

/// Any node of the tree.
#[derive(Debug)]
pub enum AstNode {
    Program(Program),
    EntityDeclaration(EntityDeclaration),
    RuleDeclaration(RuleDeclaration),
    FlowDeclaration(FlowDeclaration),
    ConstraintDeclaration(ConstraintDeclaration),
    Field(Field),
    RuleCondition(RuleCondition),
    RuleAction(RuleAction),
    FlowStep(FlowStep),
    ConstraintCondition(ConstraintCondition),
    ConstraintAction(ConstraintAction),
    Expression(Expression),
    Statement(Statement),
    Literal(Literal),
    Identifier(Identifier),
    BinaryExpression(BinaryExpression),
    UnaryExpression(UnaryExpression),
    GroupingExpression(GroupingExpression),
    VariableExpression(VariableExpression),
    AssignmentExpression(AssignmentExpression),
    CallExpression(CallExpression),
    MemberExpression(MemberExpression),
    IndexExpression(IndexExpression),
}

/// The span of any node: the one it holds, or that of the expression or
/// statement it is.
pub open spec fn node_span(n: AstNode) -> Span {
    match n {
        AstNode::Program(program) => program.span,
        AstNode::EntityDeclaration(decl) => decl.span,
        AstNode::RuleDeclaration(decl) => decl.span,
        AstNode::FlowDeclaration(decl) => decl.span,
        AstNode::ConstraintDeclaration(decl) => decl.span,
        AstNode::Field(field) => field.span,
        AstNode::RuleCondition(condition) => condition.span,
        AstNode::RuleAction(action) => action.span,
        AstNode::FlowStep(step) => step.span,
        AstNode::ConstraintCondition(condition) => condition.span,
        AstNode::ConstraintAction(action) => action.span,
        AstNode::Expression(expr) => expr_v(expr).span_of(),
        AstNode::Statement(stmt) => stmt_v(stmt).span_of(),
        AstNode::Literal(literal) => literal.span,
        AstNode::Identifier(ident) => ident.span,
        AstNode::BinaryExpression(expr) => expr.span,
        AstNode::UnaryExpression(expr) => expr.span,
        AstNode::GroupingExpression(expr) => expr.span,
        AstNode::VariableExpression(expr) => expr.span,
        AstNode::AssignmentExpression(expr) => expr.span,
        AstNode::CallExpression(expr) => expr.span,
        AstNode::MemberExpression(expr) => expr.span,
        AstNode::IndexExpression(expr) => expr.span,
    }
}

impl AstNode {
    pub fn span(&self) -> (r: &Span)
        ensures
            *r == node_span(*self),
    {
        match self {
            AstNode::Program(program) => &program.span,
            AstNode::EntityDeclaration(decl) => &decl.span,
            AstNode::RuleDeclaration(decl) => &decl.span,
            AstNode::FlowDeclaration(decl) => &decl.span,
            AstNode::ConstraintDeclaration(decl) => &decl.span,
            AstNode::Field(field) => &field.span,
            AstNode::RuleCondition(condition) => &condition.span,
            AstNode::RuleAction(action) => &action.span,
            AstNode::FlowStep(step) => &step.span,
            AstNode::ConstraintCondition(condition) => &condition.span,
            AstNode::ConstraintAction(action) => &action.span,
            AstNode::Expression(expr) => expr.span(),
            AstNode::Statement(stmt) => stmt.span(),
            AstNode::Literal(literal) => &literal.span,
            AstNode::Identifier(ident) => &ident.span,
            AstNode::BinaryExpression(expr) => &expr.span,
            AstNode::UnaryExpression(expr) => &expr.span,
            AstNode::GroupingExpression(expr) => &expr.span,
            AstNode::VariableExpression(expr) => &expr.span,
            AstNode::AssignmentExpression(expr) => &expr.span,
            AstNode::CallExpression(expr) => &expr.span,
            AstNode::MemberExpression(expr) => &expr.span,
            AstNode::IndexExpression(expr) => &expr.span,
        }
    }
}

} // verus!

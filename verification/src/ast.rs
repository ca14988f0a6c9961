//! The syntax tree the parser builds.
//!
//! Every node that has a source range carries its [`Span`].  Sequences of
//! child nodes are held in [`List`]s, so that the specification functions
//! of the parser can build exactly the values the executable parser
//! returns.

use vstd::prelude::*;
use crate::token::Span;

verus! {

/// A finite sequence of nodes.
#[derive(Debug)]
pub enum List<T> {
    Nil,
    Cons(Box<T>, Box<List<T>>),
}

impl<T> List<T> {
    /// The elements of the list, in order.
    pub open spec fn to_seq(self) -> Seq<T>
        decreases self,
    {
        match self {
            List::Nil => Seq::empty(),
            List::Cons(head, tail) => seq![*head] + (*tail).to_seq(),
        }
    }

    /// The elements of `self` followed by those of `other`.
    pub open spec fn concat(self, other: List<T>) -> List<T>
        decreases self,
    {
        match self {
            List::Nil => other,
            List::Cons(head, tail) => List::Cons(head, Box::new((*tail).concat(other))),
        }
    }

    /// The elements of `self` followed by those of `other`.
    pub fn append(self, other: List<T>) -> (r: List<T>)
        ensures
            r == self.concat(other),
        decreases self,
    {
        match self {
            List::Nil => other,
            List::Cons(head, tail) => List::Cons(head, Box::new((*tail).append(other))),
        }
    }

    /// The empty list.
    pub fn new() -> (l: List<T>)
        ensures
            l == List::<T>::Nil,
    {
        List::Nil
    }

    /// Whether the list has no element.
    pub fn is_empty(&self) -> (b: bool)
        ensures
            b == (self.to_seq().len() == 0),
    {
        match self {
            List::Nil => true,
            List::Cons(_, _) => false,
        }
    }

    /// The element at index `i`, if there is one.
    pub fn get(&self, i: usize) -> (r: Option<&T>)
        ensures
            i < self.to_seq().len() ==> r == Some(&self.to_seq()[i as int]),
            i >= self.to_seq().len() ==> r is None,
        decreases i,
    {
        match self {
            List::Nil => None,
            List::Cons(head, tail) => {
                if i == 0 {
                    Some(&**head)
                } else {
                    let r = (**tail).get(i - 1);
                    proof {
                        assert(self.to_seq() == seq![**head] + (**tail).to_seq());
                    }
                    r
                }
            },
        }
    }

    /// The first element, if there is one.
    pub fn first(&self) -> (r: Option<&T>)
        ensures
            self.to_seq().len() > 0 ==> r == Some(&self.to_seq()[0]),
            self.to_seq().len() == 0 ==> r is None,
    {
        self.get(0)
    }

    /// The number of elements, saturating at `usize::MAX`.
    pub fn len(&self) -> (n: usize)
        ensures
            self.to_seq().len() <= usize::MAX ==> n == self.to_seq().len(),
        decreases self,
    {
        match self {
            List::Nil => 0,
            List::Cons(_, tail) => {
                let m = (**tail).len();
                if m < usize::MAX { m + 1 } else { usize::MAX }
            },
        }
    }
}

/// The text of an identifier: a name read from the source, or the
/// spelling of a keyword that names itself (`let`, `await`, `yield` or
/// `static` used as a name, a keyword after `.`, the `new` of `new.target`
/// and the `import` of `import.meta`).
#[derive(Debug)]
pub enum Name {
    Text(String),
    Keyword(&'static str),
}

impl View for Name {
    type V = Seq<char>;

    open spec fn view(&self) -> Seq<char> {
        match self {
            Name::Text(text) => text@,
            Name::Keyword(word) => word@,
        }
    }
}

impl Name {
    /// The name as a string slice.
    pub fn as_str(&self) -> (r: &str)
        ensures
            r@ == self@,
    {
        match self {
            Name::Text(text) => text.as_str(),
            Name::Keyword(word) => word,
        }
    }

    /// A copy of the name.
    pub fn duplicate(&self) -> (r: Name)
        ensures
            r == *self,
    {
        match self {
            Name::Text(text) => Name::Text(text.clone()),
            Name::Keyword(word) => Name::Keyword(word),
        }
    }
}

/// An identifier name.
#[derive(Debug)]
pub struct Identifier {
    pub name: Name,
}

/// A private class member name (`#name`), stored without the `#`.
#[derive(Debug)]
pub struct PrivateIdentifier {
    pub name: String,
}

/// A static literal value.
#[derive(Debug)]
pub enum Literal {
    /// A numeric literal, as the bit pattern of its IEEE-754 double.
    Number(u64),
    /// A `BigInt` literal's decimal digits.
    BigInt(String),
    /// A string literal.
    String(String),
    /// `true` or `false`.
    Boolean(bool),
    /// `null`.
    Null,
    /// A regular-expression literal.
    RegExp { pattern: String, flags: String },
}

#[derive(Debug, Clone, Copy, PartialEq, Eq, Structural)]
pub enum BinaryOperator {
    Equal,
    NotEqual,
    StrictEqual,
    StrictNotEqual,
    LessThan,
    LessThanOrEqual,
    GreaterThan,
    GreaterThanOrEqual,
    LeftShift,
    RightShift,
    UnsignedRightShift,
    Add,
    Subtract,
    Multiply,
    Divide,
    Remainder,
    Exponentiation,
    BitwiseOr,
    BitwiseXor,
    BitwiseAnd,
    In,
    InstanceOf,
}

#[derive(Debug, Clone, Copy, PartialEq, Eq, Structural)]
pub enum LogicalOperator {
    And,
    Or,
    NullishCoalescing,
}

#[derive(Debug, Clone, Copy, PartialEq, Eq, Structural)]
pub enum UnaryOperator {
    Minus,
    Plus,
    LogicalNot,
    BitwiseNot,
    TypeOf,
    Void,
    Delete,
}

#[derive(Debug, Clone, Copy, PartialEq, Eq, Structural)]
pub enum UpdateOperator {
    Increment,
    Decrement,
}

#[derive(Debug, Clone, Copy, PartialEq, Eq, Structural)]
pub enum AssignmentOperator {
    Assign,
    AddAssign,
    SubtractAssign,
    MultiplyAssign,
    DivideAssign,
    RemainderAssign,
    ExponentiationAssign,
    LeftShiftAssign,
    RightShiftAssign,
    UnsignedRightShiftAssign,
    BitwiseOrAssign,
    BitwiseXorAssign,
    BitwiseAndAssign,
    LogicalOrAssign,
    LogicalAndAssign,
    NullishCoalescingAssign,
}

/// An expression with its source span.
#[derive(Debug)]
pub struct Expression {
    pub kind: ExpressionKind,
    pub span: Span,
}

#[derive(Debug)]
pub enum ExpressionKind {
    This,
    Super,
    Identifier(Identifier),
    PrivateIdentifier(PrivateIdentifier),
    Literal(Literal),
    Template { quasis: List<String>, expressions: List<Expression> },
    Array { elements: List<Option<Expression>> },
    Object { properties: List<ObjectMember> },
    Member { object: Box<Expression>, property: MemberProperty, optional: bool },
    Call { callee: Box<Expression>, arguments: List<Expression>, optional: bool },
    New { callee: Box<Expression>, arguments: List<Expression> },
    Update { operator: UpdateOperator, argument: Box<Expression>, prefix: bool },
    Unary { operator: UnaryOperator, argument: Box<Expression> },
    Binary { operator: BinaryOperator, left: Box<Expression>, right: Box<Expression> },
    Logical { operator: LogicalOperator, left: Box<Expression>, right: Box<Expression> },
    Conditional { test: Box<Expression>, consequent: Box<Expression>, alternate: Box<Expression> },
    Assignment { operator: AssignmentOperator, left: Box<Expression>, right: Box<Expression> },
    Sequence { expressions: List<Expression> },
    Spread { argument: Box<Expression> },
    ArrowFunction(Box<ArrowFunction>),
    FunctionExpression(Box<Function>),
    ClassExpression(Box<Class>),
    Yield { argument: Option<Box<Expression>>, delegate: bool },
    Await { argument: Box<Expression> },
    Chain { expression: Box<Expression> },
    ImportExpression { source: Box<Expression>, options: Option<Box<Expression>> },
    MetaProperty { meta: Identifier, property: Identifier },
    Parenthesized { expression: Box<Expression> },
}

/// The property of a member access: `.name` or `[expr]`.
#[derive(Debug)]
pub enum MemberProperty {
    Identifier(Identifier),
    Computed(Box<Expression>),
}

/// The key of an object or class member.
#[derive(Debug)]
pub enum PropertyKey {
    Identifier(Identifier),
    String(String),
    /// A numeric key, as the bit pattern of its IEEE-754 double.
    Number(u64),
    Computed(Box<Expression>),
    Private(PrivateIdentifier),
}

/// A member of an object literal.
#[derive(Debug)]
pub enum ObjectMember {
    Property {
        key: PropertyKey,
        value: Expression,
        kind: ObjectPropertyKind,
        computed: bool,
        shorthand: bool,
    },
    Spread { argument: Expression },
}

#[derive(Debug, Clone, Copy, PartialEq, Eq, Structural)]
pub enum ObjectPropertyKind {
    Init,
    Getter,
    Setter,
    Method,
}

/// A function declaration, function expression or method body.
#[derive(Debug)]
pub struct Function {
    pub id: Option<Identifier>,
    pub params: List<Pattern>,
    pub body: List<Statement>,
    pub is_async: bool,
    pub is_generator: bool,
}

/// The body of an arrow function.
#[derive(Debug)]
pub enum ArrowBody {
    Expression(Box<Expression>),
    Block(List<Statement>),
}

/// An arrow function.
#[derive(Debug)]
pub struct ArrowFunction {
    pub params: List<Pattern>,
    pub body: ArrowBody,
    pub is_async: bool,
}

/// A class declaration or expression.
#[derive(Debug)]
pub struct Class {
    pub id: Option<Identifier>,
    pub super_class: Option<Box<Expression>>,
    pub body: List<ClassMember>,
}

/// A member of a class body.
#[derive(Debug)]
pub enum ClassMember {
    Method { key: PropertyKey, value: Function, kind: MethodKind, is_static: bool, computed: bool },
    Property { key: PropertyKey, value: Option<Expression>, is_static: bool, computed: bool },
    StaticBlock { body: List<Statement> },
}

#[derive(Debug, Clone, Copy, PartialEq, Eq, Structural)]
pub enum MethodKind {
    Constructor,
    Method,
    Getter,
    Setter,
}

/// A binding or assignment pattern with its source span.
#[derive(Debug)]
pub struct Pattern {
    pub kind: PatternKind,
    pub span: Span,
}

#[derive(Debug)]
pub enum PatternKind {
    Identifier(Identifier),
    Array { elements: List<Option<Pattern>> },
    Object { properties: List<ObjectPatternMember> },
    Rest { argument: Box<Pattern> },
    Assignment { left: Box<Pattern>, right: Box<Expression> },
}

/// A member of an object pattern.
#[derive(Debug)]
pub enum ObjectPatternMember {
    Property { key: PropertyKey, value: Pattern, computed: bool, shorthand: bool },
    Rest { argument: Pattern },
}

/// A statement with its source span.
#[derive(Debug)]
pub struct Statement {
    pub kind: StatementKind,
    pub span: Span,
}

#[derive(Debug)]
pub enum StatementKind {
    Block { body: List<Statement> },
    Empty,
    Debugger,
    Expression { expression: Expression },
    If { test: Expression, consequent: Box<Statement>, alternate: Option<Box<Statement>> },
    Switch { discriminant: Expression, cases: List<SwitchCase> },
    For {
        init: Option<ForInit>,
        test: Option<Expression>,
        update: Option<Expression>,
        body: Box<Statement>,
    },
    ForIn { left: ForLeft, right: Expression, body: Box<Statement> },
    ForOf { left: ForLeft, right: Expression, body: Box<Statement>, is_await: bool },
    While { test: Expression, body: Box<Statement> },
    DoWhile { body: Box<Statement>, test: Expression },
    Return { argument: Option<Expression> },
    Throw { argument: Expression },
    Try {
        block: List<Statement>,
        handler: Option<CatchClause>,
        finalizer: Option<List<Statement>>,
    },
    Break { label: Option<Identifier> },
    Continue { label: Option<Identifier> },
    Labeled { label: Identifier, body: Box<Statement> },
    VariableDeclaration(VariableDeclaration),
    FunctionDeclaration(Function),
    ClassDeclaration(Class),
}

/// One `case` (with a test) or `default` (without) of a `switch`.
#[derive(Debug)]
pub struct SwitchCase {
    pub test: Option<Expression>,
    pub consequent: List<Statement>,
}

/// The `catch` clause of a `try` statement.
#[derive(Debug)]
pub struct CatchClause {
    pub param: Option<Pattern>,
    pub body: List<Statement>,
}

/// The initialiser of a classic `for` loop.
#[derive(Debug)]
pub enum ForInit {
    Declaration(VariableDeclaration),
    Expression(Expression),
}

/// The left-hand side of a `for-in` / `for-of` loop.
#[derive(Debug)]
pub enum ForLeft {
    Declaration(VariableDeclaration),
    Pattern(Pattern),
}

#[derive(Debug, Clone, Copy, PartialEq, Eq, Structural)]
pub enum VariableKind {
    Var,
    Let,
    Const,
}

/// A `var` / `let` / `const` declaration.
#[derive(Debug)]
pub struct VariableDeclaration {
    pub kind: VariableKind,
    pub declarators: List<VariableDeclarator>,
}

/// One `pattern = init` of a variable declaration.
#[derive(Debug)]
pub struct VariableDeclarator {
    pub id: Pattern,
    pub init: Option<Expression>,
}

/// A module-level item with its source span.
#[derive(Debug)]
pub struct ModuleItem {
    pub kind: ModuleItemKind,
    pub span: Span,
}

#[derive(Debug)]
pub enum ModuleItemKind {
    Statement(Statement),
    Import(ImportDeclaration),
    Export(ExportDeclaration),
}

/// An `import` declaration.
#[derive(Debug)]
pub struct ImportDeclaration {
    pub specifiers: List<ImportSpecifier>,
    pub source: String,
}

#[derive(Debug)]
pub enum ImportSpecifier {
    Named { imported: Identifier, local: Identifier },
    Default { local: Identifier },
    Namespace { local: Identifier },
}

/// An `export` declaration.
#[derive(Debug)]
pub enum ExportDeclaration {
    Named { specifiers: List<ExportSpecifier>, source: Option<String> },
    Default { declaration: ExportDefault },
    Declaration { declaration: Statement },
    All { exported: Option<Identifier>, source: String },
}

/// What `export default` exports.
#[derive(Debug)]
pub enum ExportDefault {
    Function(Function),
    Class(Class),
    Expression(Expression),
}

/// `local as exported` in an `export { ... }` list.
#[derive(Debug)]
pub struct ExportSpecifier {
    pub local: Identifier,
    pub exported: Identifier,
}

/// A whole parsed source text with its span.
#[derive(Debug)]
pub struct Program {
    pub kind: ProgramKind,
    pub span: Span,
}

#[derive(Debug)]
pub enum ProgramKind {
    Script { body: List<Statement> },
    Module { body: List<ModuleItem> },
}

} // verus!

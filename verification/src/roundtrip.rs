//! Parsing gives back what was printed: the tokens of a tree, read again,
//! make a tree that differs from it in positions and identifiers only.

use crate::arrow::{ArrowFunctionBase, ExpressionOrBlock, ExpressionOrBlockView};
use crate::block::{Block, BlockView, Statement};
use crate::expression::{BinaryOperator, Expression, Operand};
use crate::functions::{FunctionBase, FunctionBaseView, FunctionBased, Keyword};
use crate::node::{ASTNode, Parsed};
use crate::parameters::{FunctionParameters, FunctionParametersView, Parameter, ParameterRole};
use crate::span::Span;
use crate::state::IdCounters;
use crate::tokens::{kind_is, Token, TokenKind};
use crate::types::TypeReference;
use vstd::prelude::*;

verus! {

/// Whether the tokens from `at` on are of the kinds `kinds`, one by one.
pub open spec fn spelled(tokens: Seq<Token>, at: int, kinds: Seq<TokenKind>) -> bool {
    &&& 0 <= at
    &&& at + kinds.len() <= tokens.len()
    &&& forall|i: int| 0 <= i < kinds.len() ==> tokens[at + i].kind.same_kind(#[trigger] kinds[i])
}

/// Tokens that spell two runs of kinds, one behind the other, spell each
/// of them.
pub proof fn lemma_spelled_parts(
    tokens: Seq<Token>,
    at: int,
    front: Seq<TokenKind>,
    back: Seq<TokenKind>,
)
    requires
        spelled(tokens, at, front + back),
    ensures
        spelled(tokens, at, front),
        spelled(tokens, at + front.len(), back),
{
    let whole = front + back;
    assert forall|i: int| 0 <= i < front.len() implies tokens[at + i].kind.same_kind(
        #[trigger] front[i],
    ) by {
        assert(whole[i] == front[i]);
    }
    assert forall|i: int| 0 <= i < back.len() implies tokens[at + front.len() + i].kind.same_kind(
        #[trigger] back[i],
    ) by {
        assert(whole[front.len() + i] == back[i]);
    }
}

/// The token at `at` of tokens that spell `kinds` from `from` on.
pub proof fn lemma_spelled_at(tokens: Seq<Token>, from: int, kinds: Seq<TokenKind>, index: int)
    requires
        spelled(tokens, from, kinds),
        0 <= index < kinds.len(),
    ensures
        0 <= from + index < tokens.len(),
        tokens[from + index].kind.same_kind(kinds[index]),
{
}

impl Operand {
    /// The token that an operand is printed as.
    pub open spec fn token_kind(self) -> TokenKind {
        match self {
            Operand::VariableReference(name, _) => TokenKind::Identifier(name),
            Operand::StringLiteral(content, _) => TokenKind::StringLiteral(content),
            Operand::NumberLiteral(digits, _) => TokenKind::NumberLiteral(digits),
        }
    }

    /// Whether two operands differ in their positions only.
    pub open spec fn alike(self, other: Operand) -> bool {
        match (self, other) {
            (Operand::VariableReference(a, _), Operand::VariableReference(b, _)) => a@ == b@,
            (Operand::StringLiteral(a, _), Operand::StringLiteral(b, _)) => a@ == b@,
            (Operand::NumberLiteral(a, _), Operand::NumberLiteral(b, _)) => a@ == b@,
            _ => false,
        }
    }

    /// A token of an operand's kind is read as an operand like it.
    pub proof fn lemma_read_again(self, tokens: Seq<Token>, at: int) -> (parsed: Operand)
        requires
            0 <= at < tokens.len(),
            tokens[at].kind.same_kind(self.token_kind()),
        ensures
            Operand::at(tokens, at) == Ok::<Operand, crate::errors::ParseError>(parsed),
            parsed.alike(self),
    {
        Operand::at(tokens, at)->Ok_0
    }
}

impl BinaryOperator {
    /// The token that an operator is printed as.
    pub open spec fn token_kind(self) -> TokenKind {
        match self {
            BinaryOperator::Add => TokenKind::Add,
            BinaryOperator::Subtract => TokenKind::Subtract,
        }
    }
}

impl Expression {
    /// The tokens that an expression is printed as.
    pub open spec fn token_kinds(self) -> Seq<TokenKind>
        decreases self,
    {
        match self {
            Expression::Operand(operand) => seq![operand.token_kind()],
            Expression::BinaryOperation { lhs, operator, rhs } => lhs.token_kinds() + seq![
                operator.token_kind(),
                rhs.token_kind(),
            ],
        }
    }

    /// Whether two expressions differ in their positions only.
    pub open spec fn alike(self, other: Expression) -> bool
        decreases self,
    {
        match (self, other) {
            (Expression::Operand(a), Expression::Operand(b)) => a.alike(b),
            (
                Expression::BinaryOperation { lhs: a, operator: joins, rhs: c },
                Expression::BinaryOperation { lhs: b, operator: joined, rhs: d },
            ) => a.alike(*b) && joins == joined && c.alike(d),
            _ => false,
        }
    }

    /// An expression is printed as one token at least, and the first is
    /// that of an operand.
    pub proof fn lemma_token_kinds_start(self)
        ensures
            self.token_kinds().len() >= 1,
            self.token_kinds()[0] is Identifier || self.token_kinds()[0] is StringLiteral
                || self.token_kinds()[0] is NumberLiteral,
        decreases self,
    {
        match self {
            Expression::Operand(operand) => {},
            Expression::BinaryOperation { lhs, operator, rhs } => {
                lhs.lemma_token_kinds_start();
            },
        }
    }

    /// Reading the tokens of an expression comes to reading what follows
    /// them as operations on an expression like it.
    pub proof fn lemma_read_operands(self, tokens: Seq<Token>, at: int, ids: IdCounters) -> (parsed:
        Expression)
        requires
            spelled(tokens, at, self.token_kinds()),
        ensures
            parsed.alike(self),
            Expression::parse(tokens, at, ids) == Expression::parse_operations(
                tokens,
                at + self.token_kinds().len(),
                parsed,
                ids,
            ),
        decreases self,
    {
        match self {
            Expression::Operand(operand) => {
                lemma_spelled_at(tokens, at, self.token_kinds(), 0);
                let first = operand.lemma_read_again(tokens, at);
                Expression::Operand(first)
            },
            Expression::BinaryOperation { lhs, operator, rhs } => {
                let behind = seq![operator.token_kind(), rhs.token_kind()];
                lemma_spelled_parts(tokens, at, lhs.token_kinds(), behind);
                let left = lhs.lemma_read_operands(tokens, at, ids);
                let middle = at + lhs.token_kinds().len();
                lemma_spelled_at(tokens, middle, behind, 0);
                lemma_spelled_at(tokens, middle, behind, 1);
                let right = rhs.lemma_read_again(tokens, middle + 1);
                assert(BinaryOperator::at(tokens, middle) == Some(operator));
                Expression::BinaryOperation { lhs: Box::new(left), operator, rhs: right }
            },
        }
    }

    /// The tokens of an expression, with no operator behind them, are read
    /// as an expression like it.
    pub proof fn lemma_read_again(self, tokens: Seq<Token>, at: int, ids: IdCounters) -> (parsed:
        Expression)
        requires
            spelled(tokens, at, self.token_kinds()),
            BinaryOperator::at(tokens, at + self.token_kinds().len()) is None,
        ensures
            parsed.alike(self),
            Expression::parse(tokens, at, ids) == (Parsed::Accepted {
                value: parsed,
                next: at + self.token_kinds().len(),
                ids,
            }),
    {
        self.lemma_read_operands(tokens, at, ids)
    }
}

impl Statement {
    /// The tokens that a statement is printed as.
    pub open spec fn token_kinds(self) -> Seq<TokenKind> {
        match self {
            Statement::Return { value: None, .. } => seq![TokenKind::Return, TokenKind::Semicolon],
            Statement::Return { value: Some(value), .. } => seq![TokenKind::Return]
                + value.token_kinds() + seq![TokenKind::Semicolon],
            Statement::Expression { expression, .. } => expression.token_kinds() + seq![
                TokenKind::Semicolon,
            ],
        }
    }

    /// Whether two statements differ in their positions only.
    pub open spec fn alike(self, other: Statement) -> bool {
        match (self, other) {
            (Statement::Return { value: None, .. }, Statement::Return { value: None, .. }) => true,
            (
                Statement::Return { value: Some(a), .. },
                Statement::Return { value: Some(b), .. },
            ) => a.alike(b),
            (
                Statement::Expression { expression: a, .. },
                Statement::Expression { expression: b, .. },
            ) => a.alike(b),
            _ => false,
        }
    }

    /// A statement is printed as one token at least, and the first is
    /// `return` or that of an operand.
    pub proof fn lemma_token_kinds_start(self)
        ensures
            self.token_kinds().len() >= 1,
            self.token_kinds()[0] is Return || self.token_kinds()[0] is Identifier
                || self.token_kinds()[0] is StringLiteral || self.token_kinds()[0] is NumberLiteral,
    {
        match self {
            Statement::Return { value, .. } => {},
            Statement::Expression { expression, .. } => {
                expression.lemma_token_kinds_start();
            },
        }
    }

    /// The tokens of a statement are read as a statement like it.
    pub proof fn lemma_read_again(self, tokens: Seq<Token>, at: int, ids: IdCounters) -> (parsed:
        Statement)
        requires
            spelled(tokens, at, self.token_kinds()),
        ensures
            parsed.alike(self),
            Statement::parse(tokens, at, ids) == (Parsed::Accepted {
                value: parsed,
                next: at + self.token_kinds().len(),
                ids,
            }),
    {
        let closing = seq![TokenKind::Semicolon];
        match self {
            Statement::Return { value: None, .. } => {
                lemma_spelled_at(tokens, at, self.token_kinds(), 0);
                lemma_spelled_at(tokens, at, self.token_kinds(), 1);
            },
            Statement::Return { value: Some(value), .. } => {
                let opening = seq![TokenKind::Return];
                lemma_spelled_parts(tokens, at, opening + value.token_kinds(), closing);
                lemma_spelled_parts(tokens, at, opening, value.token_kinds());
                lemma_spelled_at(tokens, at, opening, 0);
                value.lemma_token_kinds_start();
                lemma_spelled_at(tokens, at + 1, value.token_kinds(), 0);
                lemma_spelled_at(tokens, at + 1 + value.token_kinds().len(), closing, 0);
                let found = value.lemma_read_again(tokens, at + 1, ids);
            },
            Statement::Expression { expression, .. } => {
                lemma_spelled_parts(tokens, at, expression.token_kinds(), closing);
                expression.lemma_token_kinds_start();
                lemma_spelled_at(tokens, at, expression.token_kinds(), 0);
                lemma_spelled_at(tokens, at + expression.token_kinds().len(), closing, 0);
                let found = expression.lemma_read_again(tokens, at, ids);
            },
        }
        Statement::parse(tokens, at, ids)->value
    }
}

impl Block {
    /// The tokens that statements are printed as, one statement behind
    /// the other.
    pub open spec fn statements_kinds(statements: Seq<Statement>) -> Seq<TokenKind>
        decreases statements.len(),
    {
        if statements.len() == 0 {
            Seq::empty()
        } else {
            statements[0].token_kinds() + Block::statements_kinds(statements.drop_first())
        }
    }

    /// Whether the statements of two runs differ in their positions only.
    pub open spec fn statements_alike(one: Seq<Statement>, other: Seq<Statement>) -> bool {
        &&& one.len() == other.len()
        &&& forall|i: int| 0 <= i < one.len() ==> (#[trigger] one[i]).alike(other[i])
    }

    /// The tokens that a block is printed as.
    pub open spec fn token_kinds(node: BlockView) -> Seq<TokenKind> {
        seq![TokenKind::OpenBrace] + Block::statements_kinds(node.statements) + seq![
            TokenKind::CloseBrace,
        ]
    }

    /// Whether two blocks differ in their positions only.
    pub open spec fn alike(one: BlockView, other: BlockView) -> bool {
        Block::statements_alike(one.statements, other.statements)
    }

    /// The tokens of statements, with the closing brace behind them, are
    /// read as statements like them.
    pub proof fn lemma_read_statements(
        statements: Seq<Statement>,
        tokens: Seq<Token>,
        at: int,
        before: Seq<Statement>,
        ids: IdCounters,
    ) -> (parsed: Seq<Statement>)
        requires
            spelled(tokens, at, Block::statements_kinds(statements) + seq![TokenKind::CloseBrace]),
        ensures
            Block::statements_alike(parsed, statements),
            Block::parse_statements(tokens, at, before, ids) == (Parsed::Accepted {
                value: before + parsed,
                next: at + Block::statements_kinds(statements).len(),
                ids,
            }),
        decreases statements.len(),
    {
        let closing = seq![TokenKind::CloseBrace];
        if statements.len() == 0 {
            lemma_spelled_at(tokens, at, Block::statements_kinds(statements) + closing, 0);
            assert(before + Seq::<Statement>::empty() == before);
            Seq::empty()
        } else {
            let first = statements[0];
            let others = statements.drop_first();
            assert(Block::statements_kinds(statements) + closing == first.token_kinds() + (
            Block::statements_kinds(others) + closing));
            lemma_spelled_parts(
                tokens,
                at,
                first.token_kinds(),
                Block::statements_kinds(others) + closing,
            );
            first.lemma_token_kinds_start();
            lemma_spelled_at(tokens, at, first.token_kinds(), 0);
            let found = first.lemma_read_again(tokens, at, ids);
            let more = Block::lemma_read_statements(
                others,
                tokens,
                at + first.token_kinds().len(),
                before.push(found),
                ids,
            );
            let parsed = seq![found] + more;
            assert(before.push(found) + more == before + parsed);
            assert forall|i: int| 0 <= i < parsed.len() implies (#[trigger] parsed[i]).alike(
                statements[i],
            ) by {
                if i > 0 {
                    assert(parsed[i] == more[i - 1]);
                    assert(statements[i] == others[i - 1]);
                }
            }
            parsed
        }
    }

    /// The tokens of a block are read as a block like it.
    pub proof fn lemma_read_again(node: BlockView, tokens: Seq<Token>, at: int, ids: IdCounters)
        -> (parsed: BlockView)
        requires
            spelled(tokens, at, Block::token_kinds(node)),
        ensures
            Block::alike(parsed, node),
            Block::parse(tokens, at, ids) == (Parsed::Accepted {
                value: parsed,
                next: at + Block::token_kinds(node).len(),
                ids,
            }),
    {
        let opening = seq![TokenKind::OpenBrace];
        let closing = seq![TokenKind::CloseBrace];
        let inside = Block::statements_kinds(node.statements);
        assert(Block::token_kinds(node) == opening + (inside + closing));
        lemma_spelled_parts(tokens, at, opening, inside + closing);
        lemma_spelled_at(tokens, at, opening, 0);
        let found = Block::lemma_read_statements(
            node.statements,
            tokens,
            at + 1,
            Seq::empty(),
            ids,
        );
        assert(Seq::<Statement>::empty() + found == found);
        Block::parse(tokens, at, ids)->value
    }
}

impl TypeReference {
    /// The token that a type is printed as.
    pub open spec fn token_kinds(self) -> Seq<TokenKind> {
        seq![TokenKind::Identifier(self.name)]
    }

    /// Whether two types differ in their positions only.
    pub open spec fn alike(self, other: TypeReference) -> bool {
        self.name@ == other.name@
    }

    /// The tokens that a declared type is printed as, with its colon.
    pub open spec fn annotation_kinds(annotation: Option<TypeReference>) -> Seq<TokenKind> {
        match annotation {
            Some(annotation) => seq![TokenKind::Colon] + annotation.token_kinds(),
            None => Seq::empty(),
        }
    }

    /// Whether two declared types differ in their positions only.
    pub open spec fn annotation_alike(
        one: Option<TypeReference>,
        other: Option<TypeReference>,
    ) -> bool {
        match (one, other) {
            (Some(a), Some(b)) => a.alike(b),
            (None, None) => true,
            _ => false,
        }
    }

    /// The tokens of a declared type are read as one like it; where none
    /// is declared and no colon stands there, none is read.
    pub proof fn lemma_read_annotation(
        annotation: Option<TypeReference>,
        tokens: Seq<Token>,
        at: int,
        ids: IdCounters,
    ) -> (parsed: Option<TypeReference>)
        requires
            spelled(tokens, at, TypeReference::annotation_kinds(annotation)),
            annotation is None ==> !kind_is(tokens, at, TokenKind::Colon),
        ensures
            TypeReference::annotation_alike(parsed, annotation),
            TypeReference::parse_annotation(tokens, at, ids) == (Parsed::Accepted {
                value: parsed,
                next: at + TypeReference::annotation_kinds(annotation).len(),
                ids,
            }),
    {
        match annotation {
            Some(annotation) => {
                lemma_spelled_at(tokens, at, TypeReference::annotation_kinds(Some(annotation)), 0);
                lemma_spelled_at(tokens, at, TypeReference::annotation_kinds(Some(annotation)), 1);
            },
            None => {},
        }
        TypeReference::parse_annotation(tokens, at, ids)->value
    }

    /// The tokens that a list of types is printed as, with a comma
    /// between each two.
    pub open spec fn list_kinds(types: Seq<TypeReference>) -> Seq<TokenKind>
        decreases types.len(),
    {
        if types.len() == 0 {
            Seq::empty()
        } else if types.len() == 1 {
            types[0].token_kinds()
        } else {
            types[0].token_kinds() + seq![TokenKind::Comma] + TypeReference::list_kinds(
                types.drop_first(),
            )
        }
    }

    /// Whether the types of two lists differ in their positions only.
    pub open spec fn list_alike(one: Seq<TypeReference>, other: Seq<TypeReference>) -> bool {
        &&& one.len() == other.len()
        &&& forall|i: int| 0 <= i < one.len() ==> (#[trigger] one[i]).alike(other[i])
    }

    /// The tokens that a list of type parameters is printed as, with its
    /// chevrons.
    pub open spec fn type_parameters_kinds(parameters: Option<Seq<TypeReference>>) -> Seq<TokenKind> {
        match parameters {
            Some(types) => seq![TokenKind::OpenChevron] + TypeReference::list_kinds(types) + seq![
                TokenKind::CloseChevron,
            ],
            None => Seq::empty(),
        }
    }

    /// Whether two lists of type parameters differ in their positions
    /// only.
    pub open spec fn type_parameters_alike(
        one: Option<Seq<TypeReference>>,
        other: Option<Seq<TypeReference>>,
    ) -> bool {
        match (one, other) {
            (Some(a), Some(b)) => TypeReference::list_alike(a, b),
            (None, None) => true,
            _ => false,
        }
    }

    /// The tokens of a list of types, with the closing chevron behind
    /// them, are read as types like them.
    pub proof fn lemma_read_list(
        types: Seq<TypeReference>,
        tokens: Seq<Token>,
        at: int,
        before: Seq<TypeReference>,
        ids: IdCounters,
    ) -> (parsed: Seq<TypeReference>)
        requires
            types.len() > 0,
            spelled(tokens, at, TypeReference::list_kinds(types) + seq![TokenKind::CloseChevron]),
        ensures
            TypeReference::list_alike(parsed, types),
            TypeReference::parse_list(tokens, at, before, ids) == (Parsed::Accepted {
                value: before + parsed,
                next: at + TypeReference::list_kinds(types).len() + 1,
                ids,
            }),
        decreases types.len(),
    {
        let closing = seq![TokenKind::CloseChevron];
        let whole = TypeReference::list_kinds(types) + closing;
        lemma_spelled_at(tokens, at, whole, 0);
        lemma_spelled_at(tokens, at, whole, 1);
        let found = TypeReference { name: tokens[at].kind->Identifier_0, position: tokens[at].span };
        if types.len() == 1 {
            let parsed = seq![found];
            assert(before.push(found) == before + parsed);
            parsed
        } else {
            let others = types.drop_first();
            assert(whole == types[0].token_kinds() + seq![TokenKind::Comma] + (
            TypeReference::list_kinds(others) + closing));
            lemma_spelled_parts(
                tokens,
                at,
                types[0].token_kinds() + seq![TokenKind::Comma],
                TypeReference::list_kinds(others) + closing,
            );
            let more = TypeReference::lemma_read_list(
                others,
                tokens,
                at + 2,
                before.push(found),
                ids,
            );
            let parsed = seq![found] + more;
            assert(before.push(found) + more == before + parsed);
            assert forall|i: int| 0 <= i < parsed.len() implies (#[trigger] parsed[i]).alike(
                types[i],
            ) by {
                if i > 0 {
                    assert(parsed[i] == more[i - 1]);
                    assert(types[i] == others[i - 1]);
                }
            }
            parsed
        }
    }

    /// The tokens of a list of type parameters are read as one like it;
    /// where there is none and no opening chevron stands there, none is
    /// read.
    pub proof fn lemma_read_type_parameters(
        parameters: Option<Seq<TypeReference>>,
        tokens: Seq<Token>,
        at: int,
        ids: IdCounters,
    ) -> (parsed: Option<Seq<TypeReference>>)
        requires
            spelled(tokens, at, TypeReference::type_parameters_kinds(parameters)),
            parameters matches Some(types) ==> types.len() > 0,
            parameters is None ==> !kind_is(tokens, at, TokenKind::OpenChevron),
        ensures
            TypeReference::type_parameters_alike(parsed, parameters),
            TypeReference::parse_type_parameters(tokens, at, ids) == (Parsed::Accepted {
                value: parsed,
                next: at + TypeReference::type_parameters_kinds(parameters).len(),
                ids,
            }),
    {
        match parameters {
            Some(types) => {
                let opening = seq![TokenKind::OpenChevron];
                let closing = seq![TokenKind::CloseChevron];
                assert(TypeReference::type_parameters_kinds(parameters) == opening + (
                TypeReference::list_kinds(types) + closing));
                lemma_spelled_parts(
                    tokens,
                    at,
                    opening,
                    TypeReference::list_kinds(types) + closing,
                );
                lemma_spelled_at(tokens, at, opening, 0);
                let found = TypeReference::lemma_read_list(
                    types,
                    tokens,
                    at + 1,
                    Seq::empty(),
                    ids,
                );
                assert(Seq::<TypeReference>::empty() + found == found);
                Some(found)
            },
            None => None,
        }
    }
}

impl Parameter {
    /// The tokens that a default value is printed as, with its `=`.
    pub open spec fn default_kinds(default: Option<Expression>) -> Seq<TokenKind> {
        match default {
            Some(value) => seq![TokenKind::Assign] + value.token_kinds(),
            None => Seq::empty(),
        }
    }

    /// The token before the name: the marker of a rest parameter.
    pub open spec fn marker_kinds(role: ParameterRole) -> Seq<TokenKind> {
        if role == ParameterRole::Rest {
            seq![TokenKind::Spread]
        } else {
            Seq::empty()
        }
    }

    /// The token behind the name: `?` for an optional parameter that has
    /// no default value.
    pub open spec fn mark_kinds(self, role: ParameterRole) -> Seq<TokenKind> {
        if role == ParameterRole::Optional && self.default is None {
            seq![TokenKind::QuestionMark]
        } else {
            Seq::empty()
        }
    }

    /// The tokens that a parameter is printed as where it stands in its
    /// list as `role`.
    pub open spec fn token_kinds(self, role: ParameterRole) -> Seq<TokenKind> {
        Parameter::marker_kinds(role) + seq![TokenKind::Identifier(self.name.name)]
            + self.mark_kinds(role) + TypeReference::annotation_kinds(self.type_reference)
            + Parameter::default_kinds(self.default)
    }

    /// Whether two default values differ in their positions only.
    pub open spec fn default_alike(one: Option<Expression>, other: Option<Expression>) -> bool {
        match (one, other) {
            (Some(a), Some(b)) => a.alike(b),
            (None, None) => true,
            _ => false,
        }
    }

    /// Whether two parameters differ in their positions only.
    pub open spec fn alike(self, other: Parameter) -> bool {
        &&& self.name.name@ == other.name.name@
        &&& TypeReference::annotation_alike(self.type_reference, other.type_reference)
        &&& Parameter::default_alike(self.default, other.default)
    }

    /// The tokens of an entry, with a comma or the closing parenthesis
    /// behind them, are read as an entry like it. A required parameter
    /// has no default value.
    pub proof fn lemma_read_entry(
        self,
        optional: bool,
        tokens: Seq<Token>,
        at: int,
        ids: IdCounters,
    ) -> (parsed: Parameter)
        requires
            !optional ==> self.default is None,
            spelled(
                tokens,
                at,
                self.token_kinds(
                    if optional {
                        ParameterRole::Optional
                    } else {
                        ParameterRole::Required
                    },
                ),
            ),
            ({
                let behind = at + self.token_kinds(
                    if optional {
                        ParameterRole::Optional
                    } else {
                        ParameterRole::Required
                    },
                ).len();
                kind_is(tokens, behind, TokenKind::Comma) || kind_is(
                    tokens,
                    behind,
                    TokenKind::CloseParentheses,
                )
            }),
        ensures
            parsed.alike(self),
            Parameter::parse_entry(tokens, at, ids) == (Parsed::Accepted {
                value: (parsed, optional),
                next: at + self.token_kinds(
                    if optional {
                        ParameterRole::Optional
                    } else {
                        ParameterRole::Required
                    },
                ).len(),
                ids,
            }),
    {
        let role = if optional {
            ParameterRole::Optional
        } else {
            ParameterRole::Required
        };
        let name = seq![TokenKind::Identifier(self.name.name)];
        let mark = self.mark_kinds(role);
        let annotation = TypeReference::annotation_kinds(self.type_reference);
        let default = Parameter::default_kinds(self.default);
        assert(self.token_kinds(role) == name + mark + annotation + default);
        lemma_spelled_parts(tokens, at, name + mark + annotation, default);
        lemma_spelled_parts(tokens, at, name + mark, annotation);
        lemma_spelled_parts(tokens, at, name, mark);
        lemma_spelled_at(tokens, at, name, 0);
        let behind_mark = at + 1 + mark.len();
        let behind_annotation = behind_mark + annotation.len();
        if mark.len() > 0 {
            lemma_spelled_at(tokens, at + 1, mark, 0);
        }
        if annotation.len() > 0 {
            lemma_spelled_at(tokens, behind_mark, annotation, 0);
        }
        match self.default {
            Some(value) => {
                lemma_spelled_parts(
                    tokens,
                    behind_annotation,
                    seq![TokenKind::Assign],
                    value.token_kinds(),
                );
                lemma_spelled_at(tokens, behind_annotation, default, 0);
                let found = value.lemma_read_again(tokens, behind_annotation + 1, ids);
            },
            None => {},
        }
        let typed = TypeReference::lemma_read_annotation(
            self.type_reference,
            tokens,
            behind_mark,
            ids,
        );
        Parameter::parse_entry(tokens, at, ids)->value.0
    }

    /// The tokens of a rest parameter are read as one like it. A rest
    /// parameter has no default value; no colon stands behind one that
    /// declares no type.
    pub proof fn lemma_read_rest(self, tokens: Seq<Token>, at: int, ids: IdCounters) -> (parsed:
        Parameter)
        requires
            self.default is None,
            spelled(tokens, at, self.token_kinds(ParameterRole::Rest)),
            !kind_is(tokens, at + self.token_kinds(ParameterRole::Rest).len(), TokenKind::Colon),
        ensures
            parsed.alike(self),
            kind_is(tokens, at, TokenKind::Spread),
            Parameter::parse_rest(tokens, at + 1, ids) == (Parsed::Accepted {
                value: parsed,
                next: at + self.token_kinds(ParameterRole::Rest).len(),
                ids,
            }),
    {
        let marker = seq![TokenKind::Spread];
        let name = seq![TokenKind::Identifier(self.name.name)];
        let annotation = TypeReference::annotation_kinds(self.type_reference);
        assert(self.token_kinds(ParameterRole::Rest) == marker + name + annotation);
        lemma_spelled_parts(tokens, at, marker + name, annotation);
        lemma_spelled_parts(tokens, at, marker, name);
        lemma_spelled_at(tokens, at, marker, 0);
        lemma_spelled_at(tokens, at + 1, name, 0);
        let typed = TypeReference::lemma_read_annotation(self.type_reference, tokens, at + 2, ids);
        Parameter::parse_rest(tokens, at + 1, ids)->value
    }
}

impl FunctionParameters {
    /// Whether the parameters of two runs differ in their positions only.
    pub open spec fn entries_alike(one: Seq<Parameter>, other: Seq<Parameter>) -> bool {
        &&& one.len() == other.len()
        &&& forall|i: int| 0 <= i < one.len() ==> (#[trigger] one[i]).alike(other[i])
    }

    /// Whether two rest parameters differ in their positions only.
    pub open spec fn rest_alike(one: Option<Parameter>, other: Option<Parameter>) -> bool {
        match (one, other) {
            (Some(a), Some(b)) => a.alike(b),
            (None, None) => true,
            _ => false,
        }
    }

    /// Whether two parameter lists differ in their positions only.
    pub open spec fn alike(one: FunctionParametersView, other: FunctionParametersView) -> bool {
        &&& FunctionParameters::entries_alike(one.parameters, other.parameters)
        &&& FunctionParameters::entries_alike(one.optional_parameters, other.optional_parameters)
        &&& FunctionParameters::rest_alike(one.rest_parameter, other.rest_parameter)
    }

    /// Whether a list is one that a parse can give: no default value
    /// stands with a required parameter or with the rest parameter.
    pub open spec fn well_formed(node: FunctionParametersView) -> bool {
        &&& forall|i: int|
            0 <= i < node.parameters.len() ==> (#[trigger] node.parameters[i]).default is None
        &&& node.rest_parameter matches Some(rest) ==> rest.default is None
    }

    /// A comma, where an entry is followed by another.
    pub open spec fn comma_kinds(
        parameters: Seq<Parameter>,
        optional_parameters: Seq<Parameter>,
        rest_parameter: Option<Parameter>,
    ) -> Seq<TokenKind> {
        if parameters.len() + optional_parameters.len() > 0 || rest_parameter is Some {
            seq![TokenKind::Comma]
        } else {
            Seq::empty()
        }
    }

    /// The tokens that the entries of a list are printed as, up to and
    /// with the closing parenthesis: the required parameters, the
    /// optional ones, the rest parameter, with a comma between each two.
    pub open spec fn tail_kinds(
        parameters: Seq<Parameter>,
        optional_parameters: Seq<Parameter>,
        rest_parameter: Option<Parameter>,
    ) -> Seq<TokenKind>
        decreases parameters.len() + optional_parameters.len(),
    {
        if parameters.len() > 0 {
            parameters[0].token_kinds(ParameterRole::Required) + FunctionParameters::comma_kinds(
                parameters.drop_first(),
                optional_parameters,
                rest_parameter,
            ) + FunctionParameters::tail_kinds(
                parameters.drop_first(),
                optional_parameters,
                rest_parameter,
            )
        } else if optional_parameters.len() > 0 {
            optional_parameters[0].token_kinds(ParameterRole::Optional)
                + FunctionParameters::comma_kinds(
                parameters,
                optional_parameters.drop_first(),
                rest_parameter,
            ) + FunctionParameters::tail_kinds(
                parameters,
                optional_parameters.drop_first(),
                rest_parameter,
            )
        } else {
            match rest_parameter {
                Some(rest) => rest.token_kinds(ParameterRole::Rest) + seq![
                    TokenKind::CloseParentheses,
                ],
                None => seq![TokenKind::CloseParentheses],
            }
        }
    }

    /// The tokens that a list is printed as, with its parentheses.
    pub open spec fn token_kinds(node: FunctionParametersView) -> Seq<TokenKind> {
        seq![TokenKind::OpenParentheses] + FunctionParameters::tail_kinds(
            node.parameters,
            node.optional_parameters,
            node.rest_parameter,
        )
    }

    /// What stands behind the entries of a list starts with the marker of
    /// the rest parameter, the name of an entry, or the closing
    /// parenthesis.
    pub proof fn lemma_tail_kinds_start(
        parameters: Seq<Parameter>,
        optional_parameters: Seq<Parameter>,
        rest_parameter: Option<Parameter>,
    )
        ensures
            FunctionParameters::tail_kinds(
                parameters,
                optional_parameters,
                rest_parameter,
            ).len() >= 1,
            ({
                let first = FunctionParameters::tail_kinds(
                    parameters,
                    optional_parameters,
                    rest_parameter,
                )[0];
                if parameters.len() + optional_parameters.len() > 0 {
                    first is Identifier
                } else if rest_parameter is Some {
                    first == TokenKind::Spread
                } else {
                    first == TokenKind::CloseParentheses
                }
            }),
    {
    }

    /// Reading a list at an entry comes to reading the entry and going on
    /// behind it: behind a comma with what follows, at the closing
    /// parenthesis otherwise.
    pub proof fn lemma_entries_step(
        tokens: Seq<Token>,
        at: int,
        start: Span,
        before: (Seq<Parameter>, Seq<Parameter>),
        ids: IdCounters,
    )
        requires
            0 <= at < tokens.len(),
            tokens[at].kind is Identifier,
            Parameter::parse_entry(tokens, at, ids) is Accepted,
            !Parameter::parse_entry(tokens, at, ids)->value.1 ==> before.1.len() == 0,
        ensures
            ({
                let found = Parameter::parse_entry(tokens, at, ids)->value.0;
                let optional = Parameter::parse_entry(tokens, at, ids)->value.1;
                let behind = Parameter::parse_entry(tokens, at, ids)->next;
                let after = Parameter::parse_entry(tokens, at, ids)->ids;
                let parameters = if optional {
                    before.0
                } else {
                    before.0.push(found)
                };
                let optional_parameters = if optional {
                    before.1.push(found)
                } else {
                    before.1
                };
                FunctionParameters::parse_entries(tokens, at, start, before.0, before.1, ids)
                    == if kind_is(tokens, behind, TokenKind::Comma) {
                    FunctionParameters::parse_entries(
                        tokens,
                        behind + 1,
                        start,
                        parameters,
                        optional_parameters,
                        after,
                    )
                } else {
                    FunctionParameters::parse_close(
                        tokens,
                        behind,
                        start,
                        parameters,
                        optional_parameters,
                        None,
                        after,
                    )
                }
            }),
    {
    }

    /// Entries stay alike with one more in front of each run.
    pub proof fn lemma_alike_prepend(
        found: Parameter,
        more: Seq<Parameter>,
        entries: Seq<Parameter>,
    )
        requires
            entries.len() > 0,
            found.alike(entries[0]),
            FunctionParameters::entries_alike(more, entries.drop_first()),
        ensures
            FunctionParameters::entries_alike(seq![found] + more, entries),
    {
        let parsed = seq![found] + more;
        assert forall|i: int| 0 <= i < parsed.len() implies (#[trigger] parsed[i]).alike(
            entries[i],
        ) by {
            if i > 0 {
                assert(parsed[i] == more[i - 1]);
                assert(entries[i] == entries.drop_first()[i - 1]);
            }
        }
    }

    /// The tokens of a list whose entries have all been read, with its
    /// rest parameter if it has one, are read as the end of the list.
    pub proof fn lemma_read_end(
        rest_parameter: Option<Parameter>,
        tokens: Seq<Token>,
        at: int,
        start: Span,
        before: (Seq<Parameter>, Seq<Parameter>),
        ids: IdCounters,
    ) -> (parsed: FunctionParametersView)
        requires
            rest_parameter matches Some(rest) ==> rest.default is None,
            spelled(
                tokens,
                at,
                FunctionParameters::tail_kinds(Seq::empty(), Seq::empty(), rest_parameter),
            ),
        ensures
            parsed.parameters == Seq::<Parameter>::empty(),
            parsed.optional_parameters == Seq::<Parameter>::empty(),
            FunctionParameters::rest_alike(parsed.rest_parameter, rest_parameter),
            FunctionParameters::parse_entries(tokens, at, start, before.0, before.1, ids)
                == (Parsed::Accepted {
                value: FunctionParametersView {
                    parameters: before.0,
                    optional_parameters: before.1,
                    rest_parameter: parsed.rest_parameter,
                    position: parsed.position,
                },
                next: at + FunctionParameters::tail_kinds(
                    Seq::empty(),
                    Seq::empty(),
                    rest_parameter,
                ).len(),
                ids,
            }),
    {
        let closing = seq![TokenKind::CloseParentheses];
        match rest_parameter {
            Some(rest) => {
                lemma_spelled_parts(tokens, at, rest.token_kinds(ParameterRole::Rest), closing);
                let behind = at + rest.token_kinds(ParameterRole::Rest).len();
                lemma_spelled_at(tokens, behind, closing, 0);
                let found = rest.lemma_read_rest(tokens, at, ids);
                FunctionParametersView {
                    parameters: Seq::empty(),
                    optional_parameters: Seq::empty(),
                    rest_parameter: Some(found),
                    position: start.spec_merge(tokens[behind].span),
                }
            },
            None => {
                lemma_spelled_at(tokens, at, closing, 0);
                FunctionParametersView {
                    parameters: Seq::empty(),
                    optional_parameters: Seq::empty(),
                    rest_parameter: None,
                    position: start.spec_merge(tokens[at].span),
                }
            },
        }
    }

    /// The tokens of the first entry of what is left of a list are read
    /// as an entry like it, and what stands behind it is a comma exactly
    /// where more of the list follows.
    pub proof fn lemma_read_first(
        node: FunctionParametersView,
        tokens: Seq<Token>,
        at: int,
        ids: IdCounters,
    ) -> (found: Parameter)
        requires
            FunctionParameters::well_formed(node),
            node.parameters.len() + node.optional_parameters.len() > 0,
            spelled(
                tokens,
                at,
                FunctionParameters::tail_kinds(
                    node.parameters,
                    node.optional_parameters,
                    node.rest_parameter,
                ),
            ),
        ensures
            0 <= at < tokens.len(),
            tokens[at].kind is Identifier,
            ({
                let optional = node.parameters.len() == 0;
                let role = if optional {
                    ParameterRole::Optional
                } else {
                    ParameterRole::Required
                };
                let entry = if optional {
                    node.optional_parameters[0]
                } else {
                    node.parameters[0]
                };
                let others = FunctionParameters::behind_first(node);
                let behind = at + entry.token_kinds(role).len();
                let more = others.parameters.len() + others.optional_parameters.len() > 0
                    || others.rest_parameter is Some;
                &&& found.alike(entry)
                &&& Parameter::parse_entry(tokens, at, ids) == (Parsed::Accepted {
                    value: (found, optional),
                    next: behind,
                    ids,
                })
                &&& kind_is(tokens, behind, TokenKind::Comma) == more
                &&& spelled(
                    tokens,
                    if more {
                        behind + 1
                    } else {
                        behind
                    },
                    FunctionParameters::tail_kinds(
                        others.parameters,
                        others.optional_parameters,
                        others.rest_parameter,
                    ),
                )
                &&& FunctionParameters::tail_kinds(
                    node.parameters,
                    node.optional_parameters,
                    node.rest_parameter,
                ).len() == entry.token_kinds(role).len() + (if more {
                    1int
                } else {
                    0int
                }) + FunctionParameters::tail_kinds(
                    others.parameters,
                    others.optional_parameters,
                    others.rest_parameter,
                ).len()
            }),
    {
        let whole = FunctionParameters::tail_kinds(
            node.parameters,
            node.optional_parameters,
            node.rest_parameter,
        );
        let optional = node.parameters.len() == 0;
        let role = if optional {
            ParameterRole::Optional
        } else {
            ParameterRole::Required
        };
        let entry = if optional {
            node.optional_parameters[0]
        } else {
            node.parameters[0]
        };
        let others = FunctionParameters::behind_first(node);
        let comma = FunctionParameters::comma_kinds(
            others.parameters,
            others.optional_parameters,
            others.rest_parameter,
        );
        let tail = FunctionParameters::tail_kinds(
            others.parameters,
            others.optional_parameters,
            others.rest_parameter,
        );
        assert(whole == entry.token_kinds(role) + comma + tail);
        assert(whole == entry.token_kinds(role) + (comma + tail));
        lemma_spelled_parts(tokens, at, entry.token_kinds(role), comma + tail);
        let behind = at + entry.token_kinds(role).len();
        lemma_spelled_parts(tokens, behind, comma, tail);
        FunctionParameters::lemma_tail_kinds_start(
            others.parameters,
            others.optional_parameters,
            others.rest_parameter,
        );
        lemma_spelled_at(tokens, at, entry.token_kinds(role), 0);
        lemma_spelled_at(tokens, behind + comma.len(), tail, 0);
        if comma.len() > 0 {
            lemma_spelled_at(tokens, behind, comma, 0);
        }
        if !optional {
            assert(node.parameters[0].default is None);
        }
        entry.lemma_read_entry(optional, tokens, at, ids)
    }

    /// What is left of a list behind its first entry.
    pub open spec fn behind_first(node: FunctionParametersView) -> FunctionParametersView {
        FunctionParametersView {
            parameters: if node.parameters.len() == 0 {
                node.parameters
            } else {
                node.parameters.drop_first()
            },
            optional_parameters: if node.parameters.len() == 0 {
                node.optional_parameters.drop_first()
            } else {
                node.optional_parameters
            },
            rest_parameter: node.rest_parameter,
            position: node.position,
        }
    }

    /// What is left of a list that a parse can give is such a list.
    pub proof fn lemma_behind_first_well_formed(node: FunctionParametersView)
        requires
            FunctionParameters::well_formed(node),
            node.parameters.len() + node.optional_parameters.len() > 0,
        ensures
            FunctionParameters::well_formed(FunctionParameters::behind_first(node)),
    {
        let others = FunctionParameters::behind_first(node);
        assert forall|i: int| 0 <= i < others.parameters.len() implies (
        #[trigger] others.parameters[i]).default is None by {
            if node.parameters.len() > 0 {
                assert(others.parameters[i] == node.parameters[i + 1]);
            }
        }
    }

    /// The tokens of the entries of a list are read as entries like them,
    /// behind those that were read before. A required parameter can follow
    /// required ones only.
    pub proof fn lemma_read_entries(
        node: FunctionParametersView,
        tokens: Seq<Token>,
        at: int,
        start: Span,
        before: (Seq<Parameter>, Seq<Parameter>),
        ids: IdCounters,
    ) -> (parsed: FunctionParametersView)
        requires
            FunctionParameters::well_formed(node),
            node.parameters.len() > 0 ==> before.1.len() == 0,
            spelled(
                tokens,
                at,
                FunctionParameters::tail_kinds(
                    node.parameters,
                    node.optional_parameters,
                    node.rest_parameter,
                ),
            ),
        ensures
            FunctionParameters::alike(parsed, node),
            FunctionParameters::parse_entries(tokens, at, start, before.0, before.1, ids)
                == (Parsed::Accepted {
                value: FunctionParametersView {
                    parameters: before.0 + parsed.parameters,
                    optional_parameters: before.1 + parsed.optional_parameters,
                    rest_parameter: parsed.rest_parameter,
                    position: parsed.position,
                },
                next: at + FunctionParameters::tail_kinds(
                    node.parameters,
                    node.optional_parameters,
                    node.rest_parameter,
                ).len(),
                ids,
            }),
        decreases node.parameters.len() + node.optional_parameters.len(),
    {
        if node.parameters.len() + node.optional_parameters.len() > 0 {
            let optional = node.parameters.len() == 0;
            let others = FunctionParameters::behind_first(node);
            let found = FunctionParameters::lemma_read_first(node, tokens, at, ids);
            let behind = Parameter::parse_entry(tokens, at, ids)->next;
            FunctionParameters::lemma_entries_step(tokens, at, start, before, ids);
            FunctionParameters::lemma_behind_first_well_formed(node);
            let grown = (
                if optional {
                    before.0
                } else {
                    before.0.push(found)
                },
                if optional {
                    before.1.push(found)
                } else {
                    before.1
                },
            );
            let more = if kind_is(tokens, behind, TokenKind::Comma) {
                FunctionParameters::lemma_read_entries(others, tokens, behind + 1, start, grown, ids)
            } else {
                let tail = FunctionParameters::tail_kinds(
                    others.parameters,
                    others.optional_parameters,
                    others.rest_parameter,
                );
                FunctionParameters::lemma_tail_kinds_start(
                    others.parameters,
                    others.optional_parameters,
                    others.rest_parameter,
                );
                lemma_spelled_at(tokens, behind, tail, 0);
                assert(others.parameters == Seq::<Parameter>::empty());
                assert(others.optional_parameters == Seq::<Parameter>::empty());
                let end = FunctionParameters::lemma_read_end(
                    others.rest_parameter,
                    tokens,
                    behind,
                    start,
                    grown,
                    ids,
                );
                assert(grown.0 + end.parameters == grown.0);
                assert(grown.1 + end.optional_parameters == grown.1);
                end
            };
            let parsed = FunctionParametersView {
                parameters: if optional {
                    more.parameters
                } else {
                    seq![found] + more.parameters
                },
                optional_parameters: if optional {
                    seq![found] + more.optional_parameters
                } else {
                    more.optional_parameters
                },
                rest_parameter: more.rest_parameter,
                position: more.position,
            };
            assert(grown.0 + more.parameters == before.0 + parsed.parameters);
            assert(grown.1 + more.optional_parameters == before.1 + parsed.optional_parameters);
            if optional {
                FunctionParameters::lemma_alike_prepend(
                    found,
                    more.optional_parameters,
                    node.optional_parameters,
                );
            } else {
                FunctionParameters::lemma_alike_prepend(found, more.parameters, node.parameters);
            }
            parsed
        } else {
            let parsed = FunctionParameters::lemma_read_end(
                node.rest_parameter,
                tokens,
                at,
                start,
                before,
                ids,
            );
            assert(node.parameters == Seq::<Parameter>::empty());
            assert(node.optional_parameters == Seq::<Parameter>::empty());
            assert(before.0 + parsed.parameters == before.0);
            assert(before.1 + parsed.optional_parameters == before.1);
            parsed
        }
    }
}

impl ExpressionOrBlock {
    /// The tokens that a body is printed as.
    pub open spec fn token_kinds(node: ExpressionOrBlockView) -> Seq<TokenKind> {
        match node {
            ExpressionOrBlockView::Expression(expression) => expression.token_kinds(),
            ExpressionOrBlockView::Block(block, _) => Block::token_kinds(block),
        }
    }

    /// Whether two bodies differ in their positions and identifiers only.
    pub open spec fn alike(one: ExpressionOrBlockView, other: ExpressionOrBlockView) -> bool {
        match (one, other) {
            (
                ExpressionOrBlockView::Expression(a),
                ExpressionOrBlockView::Expression(b),
            ) => a.alike(b),
            (ExpressionOrBlockView::Block(a, _), ExpressionOrBlockView::Block(b, _)) => Block::alike(
                a,
                b,
            ),
            _ => false,
        }
    }

    /// The tokens of a body are read as a body like it. No operator may
    /// stand behind a body that is an expression.
    pub proof fn lemma_read_again(
        node: ExpressionOrBlockView,
        tokens: Seq<Token>,
        at: int,
        ids: IdCounters,
    ) -> (parsed: ExpressionOrBlockView)
        requires
            spelled(tokens, at, ExpressionOrBlock::token_kinds(node)),
            node is Expression ==> BinaryOperator::at(
                tokens,
                at + ExpressionOrBlock::token_kinds(node).len(),
            ) is None,
        ensures
            ExpressionOrBlock::alike(parsed, node),
            ExpressionOrBlock::parse(tokens, at, ids) matches Parsed::Accepted { value, next, .. }
                && value == parsed && next == at + ExpressionOrBlock::token_kinds(node).len(),
    {
        match node {
            ExpressionOrBlockView::Expression(expression) => {
                expression.lemma_token_kinds_start();
                lemma_spelled_at(tokens, at, expression.token_kinds(), 0);
                let found = expression.lemma_read_again(tokens, at, ids);
            },
            ExpressionOrBlockView::Block(block, _) => {
                lemma_spelled_at(tokens, at, Block::token_kinds(block), 0);
                let found = Block::lemma_read_again(block, tokens, at, ids);
            },
        }
        ExpressionOrBlock::parse(tokens, at, ids)->value
    }
}

impl ArrowFunctionBase {
    /// The token that the header of an arrow function is printed as.
    pub open spec fn header_kinds(header: Option<Keyword>) -> Seq<TokenKind> {
        if header is Some {
            seq![TokenKind::Async]
        } else {
            Seq::empty()
        }
    }

    /// The tokens that the parameters of an arrow function are printed
    /// as: the bare name, or the list with its parentheses.
    pub open spec fn parameters_kinds(parameters: FunctionParametersView) -> Seq<TokenKind> {
        if ArrowFunctionBase::spec_uses_shorthand(parameters) {
            seq![TokenKind::Identifier(parameters.parameters[0].name.name)]
        } else {
            FunctionParameters::token_kinds(parameters)
        }
    }

    /// The tokens of the parameters of an arrow function are read as
    /// parameters like them.
    pub proof fn lemma_read_parameters(
        parameters: FunctionParametersView,
        tokens: Seq<Token>,
        at: int,
        ids: IdCounters,
    ) -> (parsed: FunctionParametersView)
        requires
            FunctionParameters::well_formed(parameters),
            spelled(tokens, at, ArrowFunctionBase::parameters_kinds(parameters)),
        ensures
            FunctionParameters::alike(parsed, parameters),
            ArrowFunctionBase::parse_parameters(tokens, at, ids) == (Parsed::Accepted {
                value: parsed,
                next: at + ArrowFunctionBase::parameters_kinds(parameters).len(),
                ids,
            }),
    {
        if ArrowFunctionBase::spec_uses_shorthand(parameters) {
            lemma_spelled_at(tokens, at, ArrowFunctionBase::parameters_kinds(parameters), 0);
            let parsed = ArrowFunctionBase::parse_parameters(tokens, at, ids)->value;
            assert(parameters.parameters[0].default is None);
            assert(parsed.parameters[0].alike(parameters.parameters[0]));
            parsed
        } else {
            let opening = seq![TokenKind::OpenParentheses];
            let tail = FunctionParameters::tail_kinds(
                parameters.parameters,
                parameters.optional_parameters,
                parameters.rest_parameter,
            );
            lemma_spelled_parts(tokens, at, opening, tail);
            lemma_spelled_at(tokens, at, opening, 0);
            let found = FunctionParameters::lemma_read_entries(
                parameters,
                tokens,
                at + 1,
                tokens[at].span,
                (Seq::empty(), Seq::empty()),
                ids,
            );
            assert(Seq::<Parameter>::empty() + found.parameters == found.parameters);
            assert(Seq::<Parameter>::empty() + found.optional_parameters
                == found.optional_parameters);
            found
        }
    }
}

impl FunctionBase<ArrowFunctionBase> {
    /// The tokens that an arrow function is printed as.
    pub open spec fn token_kinds(node: FunctionBaseView<ArrowFunctionBase>) -> Seq<TokenKind> {
        ArrowFunctionBase::header_kinds(node.header) + ArrowFunctionBase::parameters_kinds(
            node.parameters,
        ) + TypeReference::annotation_kinds(node.return_type) + TypeReference::type_parameters_kinds(
            node.type_parameters,
        ) + seq![TokenKind::Arrow] + ExpressionOrBlock::token_kinds(node.body)
    }

    /// Whether two arrow functions are structurally equal: they differ in
    /// their positions and identifiers only.
    pub open spec fn alike(
        one: FunctionBaseView<ArrowFunctionBase>,
        other: FunctionBaseView<ArrowFunctionBase>,
    ) -> bool {
        &&& one.header is Some <==> other.header is Some
        &&& FunctionParameters::alike(one.parameters, other.parameters)
        &&& TypeReference::annotation_alike(one.return_type, other.return_type)
        &&& TypeReference::type_parameters_alike(one.type_parameters, other.type_parameters)
        &&& ExpressionOrBlock::alike(one.body, other.body)
    }

    /// Whether an arrow function is one that a parse can give: its
    /// parameter list is, and a list of type parameters holds one type at
    /// least.
    pub open spec fn well_formed(node: FunctionBaseView<ArrowFunctionBase>) -> bool {
        &&& FunctionParameters::well_formed(node.parameters)
        &&& node.type_parameters matches Some(types) ==> types.len() > 0
    }
}

impl TypeReference {
    /// A list of types that is accepted holds one type at least.
    pub proof fn lemma_list_is_not_empty(
        tokens: Seq<Token>,
        at: int,
        before: Seq<TypeReference>,
        ids: IdCounters,
    )
        ensures
            TypeReference::parse_list(tokens, at, before, ids) matches Parsed::Accepted {
                value,
                ..
            } ==> value.len() > before.len(),
        decreases tokens.len() - at,
    {
        match crate::tokens::identifier_at(tokens, at) {
            Ok((name, position)) => {
                if kind_is(tokens, at + 1, TokenKind::Comma) {
                    TypeReference::lemma_list_is_not_empty(
                        tokens,
                        at + 2,
                        before.push(TypeReference { name, position }),
                        ids,
                    );
                }
            },
            Err(error) => {},
        }
    }
}

impl FunctionParameters {
    /// A list that is accepted is well formed, if the required parameters
    /// that were read before `at` have no default value.
    pub proof fn lemma_parse_is_well_formed(
        tokens: Seq<Token>,
        at: int,
        start: Span,
        before: (Seq<Parameter>, Seq<Parameter>),
        ids: IdCounters,
    )
        requires
            forall|i: int| 0 <= i < before.0.len() ==> (#[trigger] before.0[i]).default is None,
        ensures
            FunctionParameters::parse_entries(
                tokens,
                at,
                start,
                before.0,
                before.1,
                ids,
            ) matches Parsed::Accepted { value, .. } ==> FunctionParameters::well_formed(value),
        decreases tokens.len() - at,
    {
        if kind_is(tokens, at, TokenKind::CloseParentheses) {
        } else if kind_is(tokens, at, TokenKind::Spread) {
        } else {
            Parameter::lemma_entry_consumes(tokens, at, ids);
            match Parameter::parse_entry(tokens, at, ids) {
                Parsed::Accepted { value: (parameter, optional), next, ids: after } => {
                    if !optional && before.1.len() > 0 {
                    } else {
                        let grown = (
                            if optional {
                                before.0
                            } else {
                                before.0.push(parameter)
                            },
                            if optional {
                                before.1.push(parameter)
                            } else {
                                before.1
                            },
                        );
                        assert forall|i: int| 0 <= i < grown.0.len() implies (
                        #[trigger] grown.0[i]).default is None by {
                            if i < before.0.len() {
                                assert(grown.0[i] == before.0[i]);
                            }
                        }
                        if kind_is(tokens, next, TokenKind::Comma) {
                            FunctionParameters::lemma_parse_is_well_formed(
                                tokens,
                                next + 1,
                                start,
                                grown,
                                after,
                            );
                        }
                    }
                },
                Parsed::Rejected { .. } => {},
            }
        }
    }
}

} // verus!

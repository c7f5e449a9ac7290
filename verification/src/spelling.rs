//! What is printed is the text of the tokens, one behind the other, and
//! white space: nothing else is added, nothing is left out.

use crate::arrow::{ExpressionOrBlock, ExpressionOrBlockView};
use crate::block::{spec_deeper, Block, BlockView, Statement};
use crate::buffer::{indentation, new_line};
use crate::expression::{BinaryOperator, Expression, Operand};
use crate::node::ASTNode;
use crate::parameters::{FunctionParameters, FunctionParametersView, Parameter, ParameterRole};
use crate::state::ToStringSettings;
use crate::tokens::TokenKind;
use crate::types::{separator, TypeReference};
use vstd::prelude::*;

verus! {

impl TokenKind {
    /// The characters that a token is written with.
    pub open spec fn text(self) -> Seq<char> {
        match self {
            TokenKind::Identifier(name) => name@,
            TokenKind::StringLiteral(content) => "\""@ + content@ + "\""@,
            TokenKind::NumberLiteral(digits) => digits@,
            TokenKind::Async => "async"@,
            TokenKind::Return => "return"@,
            TokenKind::OpenParentheses => "("@,
            TokenKind::CloseParentheses => ")"@,
            TokenKind::OpenBrace => "{"@,
            TokenKind::CloseBrace => "}"@,
            TokenKind::OpenChevron => "<"@,
            TokenKind::CloseChevron => ">"@,
            TokenKind::Comma => ","@,
            TokenKind::Colon => ":"@,
            TokenKind::Semicolon => ";"@,
            TokenKind::QuestionMark => "?"@,
            TokenKind::Assign => "="@,
            TokenKind::Spread => "..."@,
            TokenKind::Arrow => "=>"@,
            TokenKind::Add => "+"@,
            TokenKind::Subtract => "-"@,
            TokenKind::EndOfSource => Seq::empty(),
        }
    }
}

/// The text of tokens, one directly behind the other.
pub open spec fn tokens_text(kinds: Seq<TokenKind>) -> Seq<char>
    decreases kinds.len(),
{
    if kinds.len() == 0 {
        Seq::empty()
    } else {
        tokens_text(kinds.drop_last()) + kinds.last().text()
    }
}

/// Whether a character is white space: a blank, a tab or a line break.
pub open spec fn is_blank(c: char) -> bool {
    c == ' ' || c == '\t' || c == '\n'
}

/// What is kept of a text without its white space.
pub open spec fn inked() -> spec_fn(char) -> bool {
    |c: char| !is_blank(c)
}

/// A text without its white space.
pub open spec fn spaceless(text: Seq<char>) -> Seq<char> {
    text.filter(inked())
}

/// Whether two texts differ in their white space only.
pub open spec fn same_but_for_blanks(one: Seq<char>, other: Seq<char>) -> bool {
    spaceless(one) == spaceless(other)
}

/// Texts that differ in white space only, one behind the other, make
/// texts that differ in white space only.
pub proof fn lemma_same_joined(
    one: Seq<char>,
    other: Seq<char>,
    front: Seq<char>,
    back: Seq<char>,
)
    requires
        same_but_for_blanks(one, front),
        same_but_for_blanks(other, back),
    ensures
        same_but_for_blanks(one + other, front + back),
{
    Seq::filter_distributes_over_add(one, other, inked());
    Seq::filter_distributes_over_add(front, back, inked());
}

/// White space alone is the same as nothing.
pub proof fn lemma_blank_is_nothing(c: char)
    requires
        is_blank(c),
    ensures
        same_but_for_blanks(seq![c], Seq::empty()),
{
    reveal_with_fuel(Seq::filter, 3);
    assert(seq![c].drop_last() == Seq::<char>::empty());
}

/// White space before or behind a text does not change what it is.
pub proof fn lemma_blank_around(text: Seq<char>, c: char)
    requires
        is_blank(c),
    ensures
        same_but_for_blanks(seq![c] + text, text),
        same_but_for_blanks(text + seq![c], text),
        same_but_for_blanks(seq![c] + text + seq![c], text),
{
    lemma_blank_is_nothing(c);
    let blank = seq![c];
    let nothing = Seq::<char>::empty();
    lemma_same_joined(blank, text, nothing, text);
    lemma_same_joined(text, blank, text, nothing);
    lemma_same_joined(blank + text, blank, text, nothing);
    assert(nothing + text == text);
    assert(text + nothing == text);
}

/// Indentation is the same as nothing.
pub proof fn lemma_indentation_is_nothing(depth: nat)
    ensures
        same_but_for_blanks(indentation(depth), Seq::empty()),
    decreases depth,
{
    if depth == 0 {
    } else {
        reveal_strlit("\t");
        lemma_indentation_is_nothing((depth - 1) as nat);
        assert("\t"@ == seq!['\t']);
        lemma_blank_is_nothing('\t');
        lemma_same_joined(
            indentation((depth - 1) as nat),
            "\t"@,
            Seq::empty(),
            Seq::empty(),
        );
        assert(Seq::<char>::empty() + Seq::<char>::empty() == Seq::<char>::empty());
    }
}

/// The text of tokens in two runs is the text of the one run behind the
/// text of the other.
pub proof fn lemma_tokens_text_joined(front: Seq<TokenKind>, back: Seq<TokenKind>)
    ensures
        tokens_text(front + back) == tokens_text(front) + tokens_text(back),
    decreases back.len(),
{
    if back.len() == 0 {
        assert(front + back == front);
        assert(tokens_text(front) + Seq::<char>::empty() == tokens_text(front));
    } else {
        lemma_tokens_text_joined(front, back.drop_last());
        assert((front + back).drop_last() == front + back.drop_last());
        assert((front + back).last() == back.last());
        assert(tokens_text(front) + tokens_text(back.drop_last()) + back.last().text()
            == tokens_text(front) + (tokens_text(back.drop_last()) + back.last().text()));
    }
}

/// The text of one token.
pub proof fn lemma_tokens_text_one(kind: TokenKind)
    ensures
        tokens_text(seq![kind]) == kind.text(),
{
    assert(seq![kind].drop_last() == Seq::<TokenKind>::empty());
    assert(seq![kind].last() == kind);
    assert(Seq::<char>::empty() + kind.text() == kind.text());
    assert(tokens_text(seq![kind].drop_last()) == Seq::<char>::empty());
}

/// The texts that are printed with white space are, but for it, the
/// texts of tokens.
pub proof fn lemma_printed_literals()
    ensures
        same_but_for_blanks(", "@, ","@),
        same_but_for_blanks(": "@, ":"@),
        same_but_for_blanks(" = "@, "="@),
        same_but_for_blanks(" + "@, "+"@),
        same_but_for_blanks(" - "@, "-"@),
        same_but_for_blanks(" => "@, "=>"@),
        same_but_for_blanks("async "@, "async"@),
        same_but_for_blanks("return "@, "return"@),
        same_but_for_blanks("{"@ + new_line(), "{"@),
        same_but_for_blanks(new_line(), Seq::empty()),
        "return;"@ == "return"@ + ";"@,
        "{}"@ == "{"@ + "}"@,
{
    reveal_strlit(", ");
    reveal_strlit(",");
    reveal_strlit(": ");
    reveal_strlit(":");
    reveal_strlit(" = ");
    reveal_strlit("=");
    reveal_strlit(" + ");
    reveal_strlit("+");
    reveal_strlit(" - ");
    reveal_strlit("-");
    reveal_strlit(" => ");
    reveal_strlit("=>");
    reveal_strlit("async ");
    reveal_strlit("async");
    reveal_strlit("return ");
    reveal_strlit("return");
    reveal_strlit("{");
    reveal_strlit("return;");
    reveal_strlit(";");
    reveal_strlit("{}");
    reveal_strlit("}");
    let blank = seq![' '];
    let line = seq!['\n'];
    lemma_blank_around(","@, ' ');
    assert(", "@ == ","@ + blank);
    lemma_blank_around(":"@, ' ');
    assert(": "@ == ":"@ + blank);
    lemma_blank_around("="@, ' ');
    assert(" = "@ == blank + "="@ + blank);
    lemma_blank_around("+"@, ' ');
    assert(" + "@ == blank + "+"@ + blank);
    lemma_blank_around("-"@, ' ');
    assert(" - "@ == blank + "-"@ + blank);
    lemma_blank_around("=>"@, ' ');
    assert(" => "@ == blank + "=>"@ + blank);
    lemma_blank_around("async"@, ' ');
    assert("async "@ == "async"@ + blank);
    lemma_blank_around("return"@, ' ');
    assert("return "@ == "return"@ + blank);
    lemma_blank_around("{"@, '\n');
    lemma_blank_is_nothing('\n');
    assert(new_line() == line);
    assert("return;"@ == "return"@ + ";"@);
    assert("{}"@ == "{"@ + "}"@);
}

/// The text of two tokens.
pub proof fn lemma_tokens_text_two(first: TokenKind, second: TokenKind)
    ensures
        tokens_text(seq![first, second]) == first.text() + second.text(),
{
    lemma_tokens_text_one(first);
    assert(seq![first, second].drop_last() == seq![first]);
    assert(seq![first, second].last() == second);
}

/// Three texts that differ in white space only from three others, one
/// behind the other.
pub proof fn lemma_same_joined_three(
    one: (Seq<char>, Seq<char>, Seq<char>),
    other: (Seq<char>, Seq<char>, Seq<char>),
)
    requires
        same_but_for_blanks(one.0, other.0),
        same_but_for_blanks(one.1, other.1),
        same_but_for_blanks(one.2, other.2),
    ensures
        same_but_for_blanks(one.0 + one.1 + one.2, other.0 + other.1 + other.2),
{
    lemma_same_joined(one.0, one.1, other.0, other.1);
    lemma_same_joined(one.0 + one.1, one.2, other.0 + other.1, other.2);
}

impl Operand {
    /// An operand is printed as the text of its token.
    pub proof fn lemma_spelling(self)
        ensures
            self.text() == self.token_kind().text(),
    {
    }
}

impl BinaryOperator {
    /// An operator is printed as the text of its token and white space.
    pub proof fn lemma_spelling(self, settings: ToStringSettings)
        ensures
            same_but_for_blanks(self.text(settings), self.token_kind().text()),
    {
        lemma_printed_literals();
    }
}

impl Expression {
    /// An expression is printed as the text of its tokens and white
    /// space.
    pub proof fn lemma_spelling(self, settings: ToStringSettings, depth: u8)
        ensures
            same_but_for_blanks(
                Expression::text_of(self, settings, depth),
                tokens_text(self.token_kinds()),
            ),
        decreases self,
    {
        match self {
            Expression::Operand(operand) => {
                lemma_tokens_text_one(operand.token_kind());
            },
            Expression::BinaryOperation { lhs, operator, rhs } => {
                lhs.lemma_spelling(settings, depth);
                operator.lemma_spelling(settings);
                lemma_tokens_text_joined(
                    lhs.token_kinds(),
                    seq![operator.token_kind(), rhs.token_kind()],
                );
                lemma_tokens_text_two(operator.token_kind(), rhs.token_kind());
                lemma_same_joined_three(
                    (Expression::text_of(*lhs, settings, depth), operator.text(settings), rhs.text()),
                    (
                        tokens_text(lhs.token_kinds()),
                        operator.token_kind().text(),
                        rhs.token_kind().text(),
                    ),
                );
                assert(tokens_text(lhs.token_kinds()) + (operator.token_kind().text()
                    + rhs.token_kind().text()) == tokens_text(lhs.token_kinds())
                    + operator.token_kind().text() + rhs.token_kind().text());
            },
        }
    }
}

impl Statement {
    /// A statement is printed as the text of its tokens and white space.
    pub proof fn lemma_spelling(self, settings: ToStringSettings, depth: u8)
        ensures
            same_but_for_blanks(
                Statement::text_of(self, settings, depth),
                tokens_text(self.token_kinds()),
            ),
    {
        lemma_printed_literals();
        match self {
            Statement::Return { value: None, .. } => {
                lemma_tokens_text_two(TokenKind::Return, TokenKind::Semicolon);
            },
            Statement::Return { value: Some(value), .. } => {
                value.lemma_spelling(settings, depth);
                let opening = seq![TokenKind::Return];
                let closing = seq![TokenKind::Semicolon];
                lemma_tokens_text_joined(opening + value.token_kinds(), closing);
                lemma_tokens_text_joined(opening, value.token_kinds());
                lemma_tokens_text_one(TokenKind::Return);
                lemma_tokens_text_one(TokenKind::Semicolon);
                lemma_same_joined_three(
                    ("return "@, Expression::text_of(value, settings, depth), ";"@),
                    ("return"@, tokens_text(value.token_kinds()), ";"@),
                );
            },
            Statement::Expression { expression, .. } => {
                expression.lemma_spelling(settings, depth);
                let closing = seq![TokenKind::Semicolon];
                lemma_tokens_text_joined(expression.token_kinds(), closing);
                lemma_tokens_text_one(TokenKind::Semicolon);
                lemma_same_joined(
                    Expression::text_of(expression, settings, depth),
                    ";"@,
                    tokens_text(expression.token_kinds()),
                    ";"@,
                );
            },
        }
    }
}

impl Block {
    /// The tokens of statements are those of all but the last, and those
    /// of the last.
    pub proof fn lemma_statements_kinds_last(statements: Seq<Statement>)
        requires
            statements.len() > 0,
        ensures
            Block::statements_kinds(statements) == Block::statements_kinds(
                statements.drop_last(),
            ) + statements.last().token_kinds(),
        decreases statements.len(),
    {
        let first = statements[0].token_kinds();
        if statements.len() == 1 {
            assert(statements.drop_first() == Seq::<Statement>::empty());
            assert(statements.drop_last() == Seq::<Statement>::empty());
            assert(first + Seq::<TokenKind>::empty() == first);
            assert(Seq::<TokenKind>::empty() + first == first);
            assert(Block::statements_kinds(Seq::<Statement>::empty()) == Seq::<TokenKind>::empty());
        } else {
            let middle = statements.drop_first().drop_last();
            Block::lemma_statements_kinds_last(statements.drop_first());
            assert(statements.drop_last().drop_first() == middle);
            assert(statements.drop_first().last() == statements.last());
            assert(statements.drop_last()[0] == statements[0]);
            assert(first + (Block::statements_kinds(middle) + statements.last().token_kinds())
                == first + Block::statements_kinds(middle) + statements.last().token_kinds());
        }
    }

    /// The lines of statements are printed as the text of their tokens
    /// and white space.
    pub proof fn lemma_lines_spelling(
        statements: Seq<Statement>,
        settings: ToStringSettings,
        depth: u8,
    )
        ensures
            same_but_for_blanks(
                Block::lines_of(statements, settings, depth),
                tokens_text(Block::statements_kinds(statements)),
            ),
        decreases statements.len(),
    {
        if statements.len() == 0 {
        } else {
            let last = statements.last();
            let inner = spec_deeper(depth);
            Block::lemma_lines_spelling(statements.drop_last(), settings, depth);
            Block::lemma_statements_kinds_last(statements);
            lemma_tokens_text_joined(
                Block::statements_kinds(statements.drop_last()),
                last.token_kinds(),
            );
            last.lemma_spelling(settings, inner);
            if settings.pretty {
                lemma_printed_literals();
                lemma_indentation_is_nothing(inner as nat);
                lemma_same_joined_three(
                    (indentation(inner as nat), Statement::text_of(last, settings, inner), new_line()),
                    (Seq::empty(), tokens_text(last.token_kinds()), Seq::empty()),
                );
                assert(Seq::<char>::empty() + tokens_text(last.token_kinds()) + Seq::<
                    char,
                >::empty() == tokens_text(last.token_kinds()));
            }
            lemma_same_joined(
                Block::lines_of(statements.drop_last(), settings, depth),
                Block::line_of(last, settings, depth),
                tokens_text(Block::statements_kinds(statements.drop_last())),
                tokens_text(last.token_kinds()),
            );
        }
    }

    /// A block is printed as the text of its tokens and white space.
    pub proof fn lemma_spelling(node: BlockView, settings: ToStringSettings, depth: u8)
        ensures
            same_but_for_blanks(
                Block::text_of(node, settings, depth),
                tokens_text(Block::token_kinds(node)),
            ),
    {
        lemma_printed_literals();
        let opening = seq![TokenKind::OpenBrace];
        let closing = seq![TokenKind::CloseBrace];
        let inside = Block::statements_kinds(node.statements);
        lemma_tokens_text_joined(opening + inside, closing);
        lemma_tokens_text_joined(opening, inside);
        lemma_tokens_text_one(TokenKind::OpenBrace);
        lemma_tokens_text_one(TokenKind::CloseBrace);
        if node.statements.len() == 0 {
            assert("{"@ + Seq::<char>::empty() + "}"@ == "{"@ + "}"@);
        } else {
            Block::lemma_lines_spelling(node.statements, settings, depth);
            if settings.pretty {
                lemma_indentation_is_nothing(depth as nat);
                lemma_same_joined(indentation(depth as nat), "}"@, Seq::empty(), "}"@);
                assert(Seq::<char>::empty() + "}"@ == "}"@);
            }
            lemma_same_joined_three(
                (
                    Block::opening(settings),
                    Block::lines_of(node.statements, settings, depth),
                    Block::closing(settings, depth),
                ),
                ("{"@, tokens_text(inside), "}"@),
            );
        }
    }
}

impl TypeReference {
    /// A type is printed as the text of its token.
    pub proof fn lemma_spelling(self, settings: ToStringSettings, depth: u8)
        ensures
            TypeReference::text_of(self, settings, depth) == tokens_text(self.token_kinds()),
    {
        lemma_tokens_text_one(TokenKind::Identifier(self.name));
    }

    /// A declared type is printed as the text of its tokens and white
    /// space.
    pub proof fn lemma_annotation_spelling(
        annotation: Option<TypeReference>,
        settings: ToStringSettings,
        depth: u8,
    )
        ensures
            same_but_for_blanks(
                TypeReference::annotation_text(annotation, settings, depth),
                tokens_text(TypeReference::annotation_kinds(annotation)),
            ),
    {
        match annotation {
            Some(declared) => {
                lemma_printed_literals();
                declared.lemma_spelling(settings, depth);
                lemma_tokens_text_joined(seq![TokenKind::Colon], declared.token_kinds());
                lemma_tokens_text_one(TokenKind::Colon);
                lemma_same_joined(
                    if settings.pretty {
                        ": "@
                    } else {
                        ":"@
                    },
                    TypeReference::text_of(declared, settings, depth),
                    ":"@,
                    tokens_text(declared.token_kinds()),
                );
            },
            None => {},
        }
    }

    /// The tokens of two types or more are those of all but the last, a
    /// comma, and that of the last.
    pub proof fn lemma_list_kinds_last(types: Seq<TypeReference>)
        requires
            types.len() > 1,
        ensures
            TypeReference::list_kinds(types) == TypeReference::list_kinds(types.drop_last())
                + seq![TokenKind::Comma] + types.last().token_kinds(),
        decreases types.len(),
    {
        let first = types[0].token_kinds();
        let comma = seq![TokenKind::Comma];
        let last = types.last().token_kinds();
        let others = types.drop_first();
        assert(types.drop_last()[0] == types[0]);
        assert(others.last() == types.last());
        assert(TypeReference::list_kinds(types) == first + comma + TypeReference::list_kinds(
            others,
        ));
        if types.len() == 2 {
            assert(others[0] == types.last());
            assert(TypeReference::list_kinds(others) == last);
            assert(TypeReference::list_kinds(types.drop_last()) == first);
        } else {
            TypeReference::lemma_list_kinds_last(others);
            let middle = others.drop_last();
            assert(types.drop_last().drop_first() == middle);
            assert(TypeReference::list_kinds(types.drop_last()) == first + comma
                + TypeReference::list_kinds(middle));
            assert(first + comma + (TypeReference::list_kinds(middle) + comma + last) == first
                + comma + TypeReference::list_kinds(middle) + comma + last);
        }
    }

    /// A list of types is printed as the text of its tokens and white
    /// space.
    pub proof fn lemma_list_spelling(
        types: Seq<TypeReference>,
        settings: ToStringSettings,
        depth: u8,
    )
        ensures
            same_but_for_blanks(
                TypeReference::list_text(types, settings, depth),
                tokens_text(TypeReference::list_kinds(types)),
            ),
        decreases types.len(),
    {
        if types.len() == 0 {
        } else if types.len() == 1 {
            types[0].lemma_spelling(settings, depth);
        } else {
            lemma_printed_literals();
            let last = types.last();
            TypeReference::lemma_list_spelling(types.drop_last(), settings, depth);
            TypeReference::lemma_list_kinds_last(types);
            last.lemma_spelling(settings, depth);
            lemma_tokens_text_joined(
                TypeReference::list_kinds(types.drop_last()) + seq![TokenKind::Comma],
                last.token_kinds(),
            );
            lemma_tokens_text_joined(
                TypeReference::list_kinds(types.drop_last()),
                seq![TokenKind::Comma],
            );
            lemma_tokens_text_one(TokenKind::Comma);
            lemma_same_joined_three(
                (
                    TypeReference::list_text(types.drop_last(), settings, depth),
                    separator(settings),
                    TypeReference::text_of(last, settings, depth),
                ),
                (
                    tokens_text(TypeReference::list_kinds(types.drop_last())),
                    ","@,
                    tokens_text(last.token_kinds()),
                ),
            );
        }
    }

    /// A list of type parameters is printed as the text of its tokens and
    /// white space.
    pub proof fn lemma_type_parameters_spelling(
        parameters: Option<Seq<TypeReference>>,
        settings: ToStringSettings,
        depth: u8,
    )
        ensures
            same_but_for_blanks(
                TypeReference::type_parameters_text(parameters, settings, depth),
                tokens_text(TypeReference::type_parameters_kinds(parameters)),
            ),
    {
        match parameters {
            Some(types) => {
                let opening = seq![TokenKind::OpenChevron];
                let closing = seq![TokenKind::CloseChevron];
                let inside = TypeReference::list_kinds(types);
                TypeReference::lemma_list_spelling(types, settings, depth);
                lemma_tokens_text_joined(opening + inside, closing);
                lemma_tokens_text_joined(opening, inside);
                lemma_tokens_text_one(TokenKind::OpenChevron);
                lemma_tokens_text_one(TokenKind::CloseChevron);
                lemma_same_joined_three(
                    ("<"@, TypeReference::list_text(types, settings, depth), ">"@),
                    ("<"@, tokens_text(inside), ">"@),
                );
            },
            None => {},
        }
    }
}

impl Parameter {
    /// A default value is printed as the text of its tokens and white
    /// space.
    pub proof fn lemma_default_spelling(
        default: Option<Expression>,
        settings: ToStringSettings,
        depth: u8,
    )
        ensures
            same_but_for_blanks(
                Parameter::default_text(default, settings, depth),
                tokens_text(Parameter::default_kinds(default)),
            ),
    {
        match default {
            Some(value) => {
                lemma_printed_literals();
                value.lemma_spelling(settings, depth);
                lemma_tokens_text_joined(seq![TokenKind::Assign], value.token_kinds());
                lemma_tokens_text_one(TokenKind::Assign);
                lemma_same_joined(
                    if settings.pretty {
                        " = "@
                    } else {
                        "="@
                    },
                    Expression::text_of(value, settings, depth),
                    "="@,
                    tokens_text(value.token_kinds()),
                );
            },
            None => {},
        }
    }

    /// A parameter is printed as the text of its tokens and white space.
    pub proof fn lemma_spelling(self, role: ParameterRole, settings: ToStringSettings, depth: u8)
        ensures
            same_but_for_blanks(
                self.text(role, settings, depth),
                tokens_text(self.token_kinds(role)),
            ),
    {
        let marker = Parameter::marker_kinds(role);
        let name = seq![TokenKind::Identifier(self.name.name)];
        let mark = self.mark_kinds(role);
        let annotation = TypeReference::annotation_kinds(self.type_reference);
        let default = Parameter::default_kinds(self.default);
        lemma_tokens_text_joined(marker + name + mark + annotation, default);
        lemma_tokens_text_joined(marker + name + mark, annotation);
        lemma_tokens_text_joined(marker + name, mark);
        lemma_tokens_text_joined(marker, name);
        lemma_tokens_text_one(TokenKind::Identifier(self.name.name));
        lemma_tokens_text_one(TokenKind::Spread);
        lemma_tokens_text_one(TokenKind::QuestionMark);
        assert(tokens_text(marker) == Parameter::marker_text(role));
        assert(tokens_text(mark) == self.mark_text(role));
        TypeReference::lemma_annotation_spelling(self.type_reference, settings, depth);
        Parameter::lemma_default_spelling(self.default, settings, depth);
        let named = Parameter::marker_text(role) + self.name.name@ + self.mark_text(role);
        lemma_same_joined_three(
            (
                named,
                TypeReference::annotation_text(self.type_reference, settings, depth),
                Parameter::default_text(self.default, settings, depth),
            ),
            (named, tokens_text(annotation), tokens_text(default)),
        );
    }
}

impl FunctionParameters {
    /// The text of entries is that of the first, and that of the others
    /// behind it.
    pub proof fn lemma_entries_text_first(
        parameters: Seq<Parameter>,
        role: ParameterRole,
        settings: ToStringSettings,
        depth: u8,
        preceded: bool,
    )
        requires
            parameters.len() > 0,
        ensures
            FunctionParameters::entries_text(parameters, role, settings, depth, preceded)
                == FunctionParameters::entry_text(parameters[0], role, settings, depth, preceded)
                + FunctionParameters::entries_text(
                parameters.drop_first(),
                role,
                settings,
                depth,
                true,
            ),
        decreases parameters.len(),
    {
        let first = FunctionParameters::entry_text(parameters[0], role, settings, depth, preceded);
        let nothing = Seq::<char>::empty();
        if parameters.len() == 1 {
            assert(parameters.drop_last() == Seq::<Parameter>::empty());
            assert(parameters.drop_first() == Seq::<Parameter>::empty());
            assert(parameters.last() == parameters[0]);
            assert(FunctionParameters::entries_text(
                Seq::<Parameter>::empty(),
                role,
                settings,
                depth,
                preceded,
            ) == nothing);
            assert(FunctionParameters::entries_text(
                Seq::<Parameter>::empty(),
                role,
                settings,
                depth,
                true,
            ) == nothing);
            assert(nothing + first == first);
            assert(first + nothing == first);
        } else {
            let last = FunctionParameters::entry_text(
                parameters.last(),
                role,
                settings,
                depth,
                true,
            );
            let middle = parameters.drop_first().drop_last();
            FunctionParameters::lemma_entries_text_first(
                parameters.drop_last(),
                role,
                settings,
                depth,
                preceded,
            );
            assert(parameters.drop_last().drop_first() == middle);
            assert(parameters.drop_last()[0] == parameters[0]);
            assert(parameters.drop_first().last() == parameters.last());
            let between = FunctionParameters::entries_text(middle, role, settings, depth, true);
            assert(FunctionParameters::entries_text(
                parameters.drop_first(),
                role,
                settings,
                depth,
                true,
            ) == between + last);
            assert(first + between + last == first + (between + last));
        }
    }

    /// The entries of what is left of a list, with their separators.
    /// `preceded` says whether other entries stand before them.
    pub open spec fn following_text(
        node: FunctionParametersView,
        settings: ToStringSettings,
        depth: u8,
        preceded: bool,
    ) -> Seq<char> {
        FunctionParameters::entries_text(
            node.parameters,
            ParameterRole::Required,
            settings,
            depth,
            preceded,
        ) + FunctionParameters::entries_text(
            node.optional_parameters,
            ParameterRole::Optional,
            settings,
            depth,
            preceded || node.parameters.len() > 0,
        ) + FunctionParameters::rest_text(
            node.rest_parameter,
            settings,
            depth,
            preceded || node.parameters.len() + node.optional_parameters.len() > 0,
        )
    }

    /// The tokens of what is left of a list, up to and with the closing
    /// parenthesis, behind a comma where entries stand before them and
    /// more follow.
    pub open spec fn following_kinds(node: FunctionParametersView, preceded: bool) -> Seq<
        TokenKind,
    > {
        (if preceded {
            FunctionParameters::comma_kinds(
                node.parameters,
                node.optional_parameters,
                node.rest_parameter,
            )
        } else {
            Seq::empty()
        }) + FunctionParameters::tail_kinds(
            node.parameters,
            node.optional_parameters,
            node.rest_parameter,
        )
    }

    /// One entry with its separator is printed as the text of its tokens
    /// and white space.
    pub proof fn lemma_entry_spelling(
        parameter: Parameter,
        role: ParameterRole,
        settings: ToStringSettings,
        depth: u8,
        preceded: bool,
    )
        ensures
            same_but_for_blanks(
                FunctionParameters::entry_text(parameter, role, settings, depth, preceded),
                tokens_text(
                    FunctionParameters::lead_kinds(preceded) + parameter.token_kinds(role),
                ),
            ),
    {
        lemma_printed_literals();
        parameter.lemma_spelling(role, settings, depth);
        let comma = FunctionParameters::lead_kinds(preceded);
        lemma_tokens_text_joined(comma, parameter.token_kinds(role));
        lemma_tokens_text_one(TokenKind::Comma);
        lemma_same_joined(
            if preceded {
                separator(settings)
            } else {
                Seq::empty()
            },
            parameter.text(role, settings, depth),
            tokens_text(comma),
            tokens_text(parameter.token_kinds(role)),
        );
    }

    /// The first entry of what is left of a list, and its role.
    pub open spec fn first_entry(node: FunctionParametersView) -> (Parameter, ParameterRole) {
        if node.parameters.len() == 0 {
            (node.optional_parameters[0], ParameterRole::Optional)
        } else {
            (node.parameters[0], ParameterRole::Required)
        }
    }

    /// A comma, where `preceded` holds.
    pub open spec fn lead_kinds(preceded: bool) -> Seq<TokenKind> {
        if preceded {
            seq![TokenKind::Comma]
        } else {
            Seq::empty()
        }
    }

    /// The text of what is left of a list is that of its first entry,
    /// and that of what is left behind it.
    pub proof fn lemma_following_text_first(
        node: FunctionParametersView,
        settings: ToStringSettings,
        depth: u8,
        preceded: bool,
    )
        requires
            node.parameters.len() + node.optional_parameters.len() > 0,
        ensures
            FunctionParameters::following_text(node, settings, depth, preceded)
                == FunctionParameters::entry_text(
                FunctionParameters::first_entry(node).0,
                FunctionParameters::first_entry(node).1,
                settings,
                depth,
                preceded,
            ) + FunctionParameters::following_text(
                FunctionParameters::behind_first(node),
                settings,
                depth,
                true,
            ),
    {
        let nothing = Seq::<char>::empty();
        let (entry, role) = FunctionParameters::first_entry(node);
        let others = FunctionParameters::behind_first(node);
        let first = FunctionParameters::entry_text(entry, role, settings, depth, preceded);
        let last = FunctionParameters::rest_text(node.rest_parameter, settings, depth, true);
        if node.parameters.len() == 0 {
            let optionals = FunctionParameters::entries_text(
                others.optional_parameters,
                ParameterRole::Optional,
                settings,
                depth,
                true,
            );
            FunctionParameters::lemma_entries_text_first(
                node.optional_parameters,
                role,
                settings,
                depth,
                preceded,
            );
            assert(FunctionParameters::entries_text(
                node.parameters,
                ParameterRole::Required,
                settings,
                depth,
                preceded,
            ) == nothing);
            assert(FunctionParameters::entries_text(
                others.parameters,
                ParameterRole::Required,
                settings,
                depth,
                true,
            ) == nothing);
            assert(nothing + (first + optionals) + last == first + (nothing + optionals + last));
        } else {
            let required = FunctionParameters::entries_text(
                others.parameters,
                ParameterRole::Required,
                settings,
                depth,
                true,
            );
            let optionals = FunctionParameters::entries_text(
                node.optional_parameters,
                ParameterRole::Optional,
                settings,
                depth,
                true,
            );
            FunctionParameters::lemma_entries_text_first(
                node.parameters,
                role,
                settings,
                depth,
                preceded,
            );
            assert((first + required) + optionals + last == first + (required + optionals + last));
        }
    }

    /// The tokens of what is left of a list are those of its first entry,
    /// behind a comma where entries stand before it, and those of what is
    /// left behind it.
    pub proof fn lemma_following_kinds_first(node: FunctionParametersView, preceded: bool)
        requires
            node.parameters.len() + node.optional_parameters.len() > 0,
        ensures
            FunctionParameters::following_kinds(node, preceded) == FunctionParameters::lead_kinds(
                preceded,
            ) + FunctionParameters::first_entry(node).0.token_kinds(
                FunctionParameters::first_entry(node).1,
            ) + FunctionParameters::following_kinds(FunctionParameters::behind_first(node), true),
    {
        let (entry, role) = FunctionParameters::first_entry(node);
        let others = FunctionParameters::behind_first(node);
        let lead = FunctionParameters::lead_kinds(preceded);
        let comma = FunctionParameters::comma_kinds(
            others.parameters,
            others.optional_parameters,
            others.rest_parameter,
        );
        let tail = FunctionParameters::tail_kinds(
            others.parameters,
            others.optional_parameters,
            others.rest_parameter,
        );
        assert(FunctionParameters::tail_kinds(
            node.parameters,
            node.optional_parameters,
            node.rest_parameter,
        ) == entry.token_kinds(role) + comma + tail);
        assert(lead + (entry.token_kinds(role) + comma + tail) == lead + entry.token_kinds(role)
            + (comma + tail));
    }

    /// The end of a list, with its rest parameter if it has one, is
    /// printed as the text of its tokens and white space.
    pub proof fn lemma_end_spelling(
        node: FunctionParametersView,
        settings: ToStringSettings,
        depth: u8,
        preceded: bool,
    )
        requires
            node.parameters.len() + node.optional_parameters.len() == 0,
        ensures
            same_but_for_blanks(
                FunctionParameters::following_text(node, settings, depth, preceded) + ")"@,
                tokens_text(FunctionParameters::following_kinds(node, preceded)),
            ),
    {
        let nothing = Seq::<char>::empty();
        let closing = seq![TokenKind::CloseParentheses];
        lemma_tokens_text_one(TokenKind::CloseParentheses);
        let last = FunctionParameters::rest_text(node.rest_parameter, settings, depth, preceded);
        assert(FunctionParameters::entries_text(
            node.parameters,
            ParameterRole::Required,
            settings,
            depth,
            preceded,
        ) == nothing);
        assert(FunctionParameters::entries_text(
            node.optional_parameters,
            ParameterRole::Optional,
            settings,
            depth,
            preceded,
        ) == nothing);
        assert(nothing + nothing + last == last);
        match node.rest_parameter {
            Some(rest) => {
                let lead = FunctionParameters::lead_kinds(preceded);
                FunctionParameters::lemma_entry_spelling(
                    rest,
                    ParameterRole::Rest,
                    settings,
                    depth,
                    preceded,
                );
                assert(FunctionParameters::following_kinds(node, preceded) == lead + (
                rest.token_kinds(ParameterRole::Rest) + closing));
                assert(lead + (rest.token_kinds(ParameterRole::Rest) + closing) == (lead
                    + rest.token_kinds(ParameterRole::Rest)) + closing);
                lemma_tokens_text_joined(lead + rest.token_kinds(ParameterRole::Rest), closing);
                lemma_same_joined(
                    last,
                    ")"@,
                    tokens_text(lead + rest.token_kinds(ParameterRole::Rest)),
                    ")"@,
                );
            },
            None => {
                assert(FunctionParameters::following_kinds(node, preceded) == closing);
                assert(last + ")"@ == ")"@);
            },
        }
    }

    /// What is left of a list is printed, with the closing parenthesis,
    /// as the text of its tokens and white space.
    pub proof fn lemma_following_spelling(
        node: FunctionParametersView,
        settings: ToStringSettings,
        depth: u8,
        preceded: bool,
    )
        ensures
            same_but_for_blanks(
                FunctionParameters::following_text(node, settings, depth, preceded) + ")"@,
                tokens_text(FunctionParameters::following_kinds(node, preceded)),
            ),
        decreases node.parameters.len() + node.optional_parameters.len(),
    {
        if node.parameters.len() + node.optional_parameters.len() > 0 {
            let (entry, role) = FunctionParameters::first_entry(node);
            let others = FunctionParameters::behind_first(node);
            let first = FunctionParameters::entry_text(entry, role, settings, depth, preceded);
            let rest = FunctionParameters::following_text(others, settings, depth, true);
            let lead = FunctionParameters::lead_kinds(preceded) + entry.token_kinds(role);
            let tail = FunctionParameters::following_kinds(others, true);
            FunctionParameters::lemma_following_text_first(node, settings, depth, preceded);
            FunctionParameters::lemma_following_kinds_first(node, preceded);
            FunctionParameters::lemma_entry_spelling(entry, role, settings, depth, preceded);
            FunctionParameters::lemma_following_spelling(others, settings, depth, true);
            lemma_tokens_text_joined(lead, tail);
            lemma_same_joined(first, rest + ")"@, tokens_text(lead), tokens_text(tail));
            assert(first + rest + ")"@ == first + (rest + ")"@));
        } else {
            FunctionParameters::lemma_end_spelling(node, settings, depth, preceded);
        }
    }

    /// A parameter list is printed as the text of its tokens and white
    /// space.
    pub proof fn lemma_spelling(node: FunctionParametersView, settings: ToStringSettings, depth: u8)
        ensures
            same_but_for_blanks(
                FunctionParameters::text_of(node, settings, depth),
                tokens_text(FunctionParameters::token_kinds(node)),
            ),
    {
        let opening = seq![TokenKind::OpenParentheses];
        let tail = FunctionParameters::tail_kinds(
            node.parameters,
            node.optional_parameters,
            node.rest_parameter,
        );
        FunctionParameters::lemma_following_spelling(node, settings, depth, false);
        assert(FunctionParameters::following_kinds(node, false) == tail);
        assert(FunctionParameters::following_text(node, settings, depth, false)
            == FunctionParameters::list_text(node, settings, depth));
        lemma_tokens_text_joined(opening, tail);
        lemma_tokens_text_one(TokenKind::OpenParentheses);
        let inside = FunctionParameters::list_text(node, settings, depth);
        lemma_same_joined("("@, inside + ")"@, "("@, tokens_text(tail));
        assert("("@ + (inside + ")"@) == "("@ + inside + ")"@);
    }
}

impl ExpressionOrBlock {
    /// A body is printed as the text of its tokens and white space.
    pub proof fn lemma_spelling(node: ExpressionOrBlockView, settings: ToStringSettings, depth: u8)
        ensures
            same_but_for_blanks(
                ExpressionOrBlock::text_of(node, settings, depth),
                tokens_text(ExpressionOrBlock::token_kinds(node)),
            ),
    {
        match node {
            ExpressionOrBlockView::Expression(expression) => {
                expression.lemma_spelling(settings, depth);
            },
            ExpressionOrBlockView::Block(block, _) => {
                Block::lemma_spelling(block, settings, depth);
            },
        }
    }
}

} // verus!

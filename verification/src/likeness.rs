//! Trees that differ in positions and identifiers only are printed as the
//! same text.

use crate::arrow::{ArrowFunctionBase, ExpressionOrBlock, ExpressionOrBlockView};
use crate::block::{Block, BlockView, Statement};
use crate::expression::{Expression, Operand};
use crate::functions::FunctionBased;
use crate::node::ASTNode;
use crate::parameters::{FunctionParameters, FunctionParametersView, Parameter, ParameterRole};
use crate::state::ToStringSettings;
use crate::types::TypeReference;
use vstd::prelude::*;

verus! {

impl Operand {
    /// Operands that are alike have the same text.
    pub proof fn lemma_alike_text(self, other: Operand)
        requires
            self.alike(other),
        ensures
            self.text() == other.text(),
    {
    }
}

impl Expression {
    /// Expressions that are alike have the same text.
    pub proof fn lemma_alike_text(
        self,
        other: Expression,
        settings: ToStringSettings,
        depth: (u8, u8),
    )
        requires
            self.alike(other),
        ensures
            Expression::text_of(self, settings, depth.0) == Expression::text_of(
                other,
                settings,
                depth.1,
            ),
        decreases self,
    {
        match (self, other) {
            (
                Expression::BinaryOperation { lhs: a, operator: joins, rhs: c },
                Expression::BinaryOperation { lhs: b, operator: joined, rhs: d },
            ) => {
                a.lemma_alike_text(*b, settings, depth);
            },
            _ => {},
        }
    }
}

impl Statement {
    /// Statements that are alike have the same text.
    pub proof fn lemma_alike_text(
        self,
        other: Statement,
        settings: ToStringSettings,
        depth: (u8, u8),
    )
        requires
            self.alike(other),
        ensures
            Statement::text_of(self, settings, depth.0) == Statement::text_of(
                other,
                settings,
                depth.1,
            ),
    {
        match (self, other) {
            (
                Statement::Return { value: Some(a), .. },
                Statement::Return { value: Some(b), .. },
            ) => {
                a.lemma_alike_text(b, settings, depth);
            },
            (
                Statement::Expression { expression: a, .. },
                Statement::Expression { expression: b, .. },
            ) => {
                a.lemma_alike_text(b, settings, depth);
            },
            _ => {},
        }
    }
}

impl Block {
    /// Statements that are alike are printed as the same lines.
    pub proof fn lemma_alike_lines(
        one: Seq<Statement>,
        other: Seq<Statement>,
        settings: ToStringSettings,
        depth: u8,
    )
        requires
            Block::statements_alike(one, other),
        ensures
            Block::lines_of(one, settings, depth) == Block::lines_of(other, settings, depth),
        decreases one.len(),
    {
        if one.len() > 0 {
            let inner = crate::block::spec_deeper(depth);
            assert(one.last().alike(other.last()));
            one.last().lemma_alike_text(other.last(), settings, (inner, inner));
            assert forall|i: int| 0 <= i < one.drop_last().len() implies (
            #[trigger] one.drop_last()[i]).alike(other.drop_last()[i]) by {
                assert(one[i].alike(other[i]));
            }
            Block::lemma_alike_lines(one.drop_last(), other.drop_last(), settings, depth);
        }
    }

    /// Blocks that are alike have the same text.
    pub proof fn lemma_alike_text(
        one: BlockView,
        other: BlockView,
        settings: ToStringSettings,
        depth: u8,
    )
        requires
            Block::alike(one, other),
        ensures
            Block::text_of(one, settings, depth) == Block::text_of(other, settings, depth),
    {
        Block::lemma_alike_lines(one.statements, other.statements, settings, depth);
    }
}

impl TypeReference {
    /// Lists of types that are alike have the same text.
    pub proof fn lemma_alike_list_text(
        one: Seq<TypeReference>,
        other: Seq<TypeReference>,
        settings: ToStringSettings,
        depth: u8,
    )
        requires
            TypeReference::list_alike(one, other),
        ensures
            TypeReference::list_text(one, settings, depth) == TypeReference::list_text(
                other,
                settings,
                depth,
            ),
        decreases one.len(),
    {
        if one.len() == 1 {
            assert(one[0].alike(other[0]));
        } else if one.len() > 1 {
            assert(one.last().alike(other.last()));
            assert forall|i: int| 0 <= i < one.drop_last().len() implies (
            #[trigger] one.drop_last()[i]).alike(other.drop_last()[i]) by {
                assert(one[i].alike(other[i]));
            }
            TypeReference::lemma_alike_list_text(
                one.drop_last(),
                other.drop_last(),
                settings,
                depth,
            );
        }
    }

    /// Lists of type parameters that are alike have the same text.
    pub proof fn lemma_alike_type_parameters_text(
        one: Option<Seq<TypeReference>>,
        other: Option<Seq<TypeReference>>,
        settings: ToStringSettings,
        depth: u8,
    )
        requires
            TypeReference::type_parameters_alike(one, other),
        ensures
            TypeReference::type_parameters_text(one, settings, depth)
                == TypeReference::type_parameters_text(other, settings, depth),
    {
        match (one, other) {
            (Some(a), Some(b)) => {
                TypeReference::lemma_alike_list_text(a, b, settings, depth);
            },
            _ => {},
        }
    }
}

impl Parameter {
    /// Parameters that are alike have the same text in the same role.
    pub proof fn lemma_alike_text(
        self,
        other: Parameter,
        role: ParameterRole,
        settings: ToStringSettings,
        depth: u8,
    )
        requires
            self.alike(other),
        ensures
            self.text(role, settings, depth) == other.text(role, settings, depth),
    {
        match (self.default, other.default) {
            (Some(a), Some(b)) => {
                a.lemma_alike_text(b, settings, (depth, depth));
            },
            _ => {},
        }
    }
}

impl FunctionParameters {
    /// Entries that are alike have the same text.
    pub proof fn lemma_alike_entries_text(
        one: Seq<Parameter>,
        other: Seq<Parameter>,
        role: ParameterRole,
        settings: ToStringSettings,
        depth: u8,
        preceded: bool,
    )
        requires
            FunctionParameters::entries_alike(one, other),
        ensures
            FunctionParameters::entries_text(one, role, settings, depth, preceded)
                == FunctionParameters::entries_text(other, role, settings, depth, preceded),
        decreases one.len(),
    {
        if one.len() > 0 {
            assert(one.last().alike(other.last()));
            one.last().lemma_alike_text(other.last(), role, settings, depth);
            assert forall|i: int| 0 <= i < one.drop_last().len() implies (
            #[trigger] one.drop_last()[i]).alike(other.drop_last()[i]) by {
                assert(one[i].alike(other[i]));
            }
            FunctionParameters::lemma_alike_entries_text(
                one.drop_last(),
                other.drop_last(),
                role,
                settings,
                depth,
                preceded,
            );
        }
    }

    /// Parameter lists that are alike have the same text.
    pub proof fn lemma_alike_text(
        one: FunctionParametersView,
        other: FunctionParametersView,
        settings: ToStringSettings,
        depth: u8,
    )
        requires
            FunctionParameters::alike(one, other),
        ensures
            FunctionParameters::text_of(one, settings, depth) == FunctionParameters::text_of(
                other,
                settings,
                depth,
            ),
            ArrowFunctionBase::parameters_text(one, settings, depth)
                == ArrowFunctionBase::parameters_text(other, settings, depth),
    {
        FunctionParameters::lemma_alike_entries_text(
            one.parameters,
            other.parameters,
            ParameterRole::Required,
            settings,
            depth,
            false,
        );
        FunctionParameters::lemma_alike_entries_text(
            one.optional_parameters,
            other.optional_parameters,
            ParameterRole::Optional,
            settings,
            depth,
            one.parameters.len() > 0,
        );
        match (one.rest_parameter, other.rest_parameter) {
            (Some(a), Some(b)) => {
                a.lemma_alike_text(b, ParameterRole::Rest, settings, depth);
            },
            _ => {},
        }
        if one.parameters.len() > 0 {
            assert(one.parameters[0].alike(other.parameters[0]));
        }
    }
}

impl ExpressionOrBlock {
    /// Bodies that are alike have the same text.
    pub proof fn lemma_alike_text(
        one: ExpressionOrBlockView,
        other: ExpressionOrBlockView,
        settings: ToStringSettings,
        depth: u8,
    )
        requires
            ExpressionOrBlock::alike(one, other),
        ensures
            ExpressionOrBlock::text_of(one, settings, depth) == ExpressionOrBlock::text_of(
                other,
                settings,
                depth,
            ),
    {
        match (one, other) {
            (ExpressionOrBlockView::Expression(a), ExpressionOrBlockView::Expression(b)) => {
                a.lemma_alike_text(b, settings, (depth, depth));
            },
            (ExpressionOrBlockView::Block(a, _), ExpressionOrBlockView::Block(b, _)) => {
                Block::lemma_alike_text(a, b, settings, depth);
            },
            _ => {},
        }
    }
}

} // verus!

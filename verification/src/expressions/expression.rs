//! Expression and predicate trees.

use std::sync::Arc;

use vstd::prelude::*;

use super::column::{ColumnName, Path};
use super::scalar::{Scalar, ScalarV};
use crate::error::option_view;
use crate::schema::{DataType, DataTypeV, PrimitiveType, SchemaRef, SchemaV};

verus! {

/// Operators with one operand.
#[derive(Debug, Clone, Copy, PartialEq, Eq, Structural)]
pub enum UnaryExpressionOp {
    /// Renders a struct as a JSON string.
    ToJson,
}

/// Arithmetic operators.
#[derive(Debug, Clone, Copy, PartialEq, Eq, Structural)]
pub enum BinaryExpressionOp {
    Plus,
    Minus,
    Multiply,
    Divide,
}

/// Operators with any number of operands.
#[derive(Debug, Clone, Copy, PartialEq, Eq, Structural)]
pub enum VariadicExpressionOp {
    /// The first operand that is not NULL.
    Coalesce,
}

/// Comparison operators.
#[derive(Debug, Clone, Copy, PartialEq, Eq, Structural)]
pub enum BinaryPredicateOp {
    LessThan,
    GreaterThan,
    Equal,
    /// Null-safe inequality.
    Distinct,
    In,
}

/// Connectives with any number of operands.
#[derive(Debug, Clone, Copy, PartialEq, Eq, Structural)]
pub enum JunctionPredicateOp {
    And,
    Or,
}

/// A shared expression.
pub type ExpressionRef = Arc<Expression>;

/// A shared predicate.
pub type PredicateRef = Arc<Predicate>;

/// An expression over the columns of a row.
#[derive(Debug, PartialEq)]
pub enum Expression {
    Literal(Scalar),
    Column(ColumnName),
    /// A predicate used as a boolean value.
    Predicate(PredicateRef),
    /// A struct built from its fields; with the second part given, NULL where that is not true.
    Struct(Vec<ExpressionRef>, Option<ExpressionRef>),
    /// A struct derived from another by a sparse patch.
    StructPatch(StructPatch),
    Unary(UnaryExpressionOp, ExpressionRef),
    Binary(BinaryExpressionOp, ExpressionRef, ExpressionRef),
    Variadic(VariadicExpressionOp, Vec<ExpressionRef>),
    /// A JSON string parsed into a struct of the given schema.
    ParseJson(ExpressionRef, SchemaRef),
    /// A string map turned into a struct with one field per key.
    MapToStruct(ExpressionRef),
    Cast(ExpressionRef, DataType),
    /// An operation known to the engine only.
    Opaque(String, Vec<ExpressionRef>),
    Unknown(String),
}

/// What happens at one input field of a [`StructPatch`]: the field itself is kept or dropped,
/// and the insertions follow in its place.
#[derive(Debug, PartialEq)]
pub struct FieldPatch {
    pub keep_input: bool,
    pub insertions: Vec<ExpressionRef>,
}

/// A sparse change of a struct.
#[derive(Debug, PartialEq)]
pub struct StructPatch {
    pub input_path: Option<ColumnName>,
    pub prepended_fields: Vec<ExpressionRef>,
    pub field_patches: Vec<(String, FieldPatch)>,
    pub appended_fields: Vec<ExpressionRef>,
}

/// A predicate known to the engine only, with what the engine can say of it in ordinary terms. The
/// implied predicates are over the same columns as the arguments, and are renamed with them; what
/// they say of a file's statistics follows from them as from any other predicate.
#[derive(Debug, PartialEq)]
pub struct OpaquePredicate {
    pub name: String,
    pub exprs: Vec<ExpressionRef>,
    /// What holds of every row that satisfies the predicate.
    pub implied: Option<PredicateRef>,
    /// What holds of every row that satisfies the predicate's negation.
    pub implied_inverted: Option<PredicateRef>,
    /// The predicate's value, where it does not depend on any column.
    pub constant: Option<bool>,
}

/// A predicate over the columns of a row.
#[derive(Debug, PartialEq)]
pub enum Predicate {
    BooleanExpression(ExpressionRef),
    Not(PredicateRef),
    IsNull(ExpressionRef),
    Binary(BinaryPredicateOp, ExpressionRef, ExpressionRef),
    Junction(JunctionPredicateOp, Vec<PredicateRef>),
    Opaque(OpaquePredicate),
    Unknown(String),
}

/// An [`Expression`] as a mathematical value.
#[verifier::ext_equal]
pub enum ExprV {
    Literal(ScalarV),
    Column(Path),
    Predicate(Box<PredV>),
    Struct(Seq<ExprV>, Option<Box<ExprV>>),
    StructPatch(Box<StructPatchV>),
    Unary(UnaryExpressionOp, Box<ExprV>),
    Binary(BinaryExpressionOp, Box<ExprV>, Box<ExprV>),
    Variadic(VariadicExpressionOp, Seq<ExprV>),
    ParseJson(Box<ExprV>, SchemaV),
    MapToStruct(Box<ExprV>),
    Cast(Box<ExprV>, DataTypeV),
    Opaque(Seq<char>, Seq<ExprV>),
    Unknown(Seq<char>),
}

/// A [`FieldPatch`] together with the name of its field.
#[verifier::ext_equal]
pub struct FieldPatchV {
    pub name: Seq<char>,
    pub keep_input: bool,
    pub insertions: Seq<ExprV>,
}

/// A [`StructPatch`] as a mathematical value.
#[verifier::ext_equal]
pub struct StructPatchV {
    pub input_path: Option<Path>,
    pub prepended_fields: Seq<ExprV>,
    pub field_patches: Seq<FieldPatchV>,
    pub appended_fields: Seq<ExprV>,
}

/// An [`OpaquePredicate`] as a mathematical value.
#[verifier::ext_equal]
pub struct OpaqueV {
    pub name: Seq<char>,
    pub exprs: Seq<ExprV>,
    pub implied: Option<Box<PredV>>,
    pub implied_inverted: Option<Box<PredV>>,
    pub constant: Option<bool>,
}

/// A [`Predicate`] as a mathematical value.
#[verifier::ext_equal]
pub enum PredV {
    BooleanExpression(Box<ExprV>),
    Not(Box<PredV>),
    IsNull(Box<ExprV>),
    Binary(BinaryPredicateOp, Box<ExprV>, Box<ExprV>),
    Junction(JunctionPredicateOp, Seq<PredV>),
    Opaque(OpaqueV),
    Unknown(Seq<char>),
}

pub open spec fn exprs_view(exprs: Vec<ExpressionRef>) -> Seq<ExprV>
    decreases exprs,
{
    Seq::new(
        exprs@.len(),
        |i: int|
            if 0 <= i < exprs@.len() {
                expr_view(*exprs@[i])
            } else {
                arbitrary()
            },
    )
}

pub open spec fn expr_view(e: Expression) -> ExprV
    decreases e,
{
    match e {
        Expression::Literal(s) => ExprV::Literal(s@),
        Expression::Column(c) => ExprV::Column(c@),
        Expression::Predicate(p) => ExprV::Predicate(Box::new(pred_view(*p))),
        Expression::Struct(fields, nullability) => ExprV::Struct(
            exprs_view(fields),
            match nullability {
                Some(n) => Some(Box::new(expr_view(*n))),
                None => None,
            },
        ),
        Expression::StructPatch(p) => ExprV::StructPatch(Box::new(patch_view(p))),
        Expression::Unary(op, a) => ExprV::Unary(op, Box::new(expr_view(*a))),
        Expression::Binary(op, a, b) => ExprV::Binary(
            op,
            Box::new(expr_view(*a)),
            Box::new(expr_view(*b)),
        ),
        Expression::Variadic(op, exprs) => ExprV::Variadic(op, exprs_view(exprs)),
        Expression::ParseJson(a, schema) => ExprV::ParseJson(
            Box::new(expr_view(*a)),
            schema@,
        ),
        Expression::MapToStruct(a) => ExprV::MapToStruct(Box::new(expr_view(*a))),
        Expression::Cast(a, t) => ExprV::Cast(Box::new(expr_view(*a)), t@),
        Expression::Opaque(name, exprs) => ExprV::Opaque(name@, exprs_view(exprs)),
        Expression::Unknown(name) => ExprV::Unknown(name@),
    }
}

pub open spec fn patch_view(p: StructPatch) -> StructPatchV
    decreases p,
{
    StructPatchV {
        input_path: option_view(p.input_path),
        prepended_fields: exprs_view(p.prepended_fields),
        field_patches: Seq::new(
            p.field_patches@.len(),
            |i: int|
                if 0 <= i < p.field_patches@.len() {
                    FieldPatchV {
                        name: p.field_patches@[i].0@,
                        keep_input: p.field_patches@[i].1.keep_input,
                        insertions: exprs_view(p.field_patches@[i].1.insertions),
                    }
                } else {
                    arbitrary()
                },
        ),
        appended_fields: exprs_view(p.appended_fields),
    }
}

pub open spec fn preds_view(preds: Vec<PredicateRef>) -> Seq<PredV>
    decreases preds,
{
    Seq::new(
        preds@.len(),
        |i: int|
            if 0 <= i < preds@.len() {
                pred_view(*preds@[i])
            } else {
                arbitrary()
            },
    )
}

pub open spec fn opaque_view(o: OpaquePredicate) -> OpaqueV
    decreases o,
{
    OpaqueV {
        name: o.name@,
        exprs: exprs_view(o.exprs),
        implied: match o.implied {
            Some(p) => Some(Box::new(pred_view(*p))),
            None => None,
        },
        implied_inverted: match o.implied_inverted {
            Some(p) => Some(Box::new(pred_view(*p))),
            None => None,
        },
        constant: o.constant,
    }
}

pub open spec fn pred_view(p: Predicate) -> PredV
    decreases p,
{
    match p {
        Predicate::BooleanExpression(e) => PredV::BooleanExpression(Box::new(expr_view(*e))),
        Predicate::Not(a) => PredV::Not(Box::new(pred_view(*a))),
        Predicate::IsNull(e) => PredV::IsNull(Box::new(expr_view(*e))),
        Predicate::Binary(op, a, b) => PredV::Binary(
            op,
            Box::new(expr_view(*a)),
            Box::new(expr_view(*b)),
        ),
        Predicate::Junction(op, preds) => PredV::Junction(op, preds_view(preds)),
        Predicate::Opaque(o) => PredV::Opaque(opaque_view(o)),
        Predicate::Unknown(name) => PredV::Unknown(name@),
    }
}

impl View for Expression {
    type V = ExprV;

    open spec fn view(&self) -> ExprV {
        expr_view(*self)
    }
}

impl View for StructPatch {
    type V = StructPatchV;

    open spec fn view(&self) -> StructPatchV {
        patch_view(*self)
    }
}

impl View for OpaquePredicate {
    type V = OpaqueV;

    open spec fn view(&self) -> OpaqueV {
        opaque_view(*self)
    }
}

impl View for Predicate {
    type V = PredV;

    open spec fn view(&self) -> PredV {
        pred_view(*self)
    }
}

impl JunctionPredicateOp {
    /// The dual connective.
    pub open spec fn spec_invert(self) -> JunctionPredicateOp {
        match self {
            JunctionPredicateOp::And => JunctionPredicateOp::Or,
            JunctionPredicateOp::Or => JunctionPredicateOp::And,
        }
    }

    /// The dual connective.
    #[verifier::when_used_as_spec(spec_invert)]
    pub fn invert(self) -> (op: JunctionPredicateOp)
        ensures
            op == self.spec_invert(),
    {
        match self {
            JunctionPredicateOp::And => JunctionPredicateOp::Or,
            JunctionPredicateOp::Or => JunctionPredicateOp::And,
        }
    }
}

impl BinaryPredicateOp {
    /// Whether the operator yields NULL as soon as one operand is NULL.
    pub open spec fn spec_is_null_intolerant(self) -> bool {
        self == BinaryPredicateOp::LessThan || self == BinaryPredicateOp::GreaterThan || self
            == BinaryPredicateOp::Equal
    }

    /// Whether the operator yields NULL as soon as one operand is NULL.
    #[verifier::when_used_as_spec(spec_is_null_intolerant)]
    pub fn is_null_intolerant(self) -> (intolerant: bool)
        ensures
            intolerant == self.spec_is_null_intolerant(),
    {
        match self {
            BinaryPredicateOp::LessThan
            | BinaryPredicateOp::GreaterThan
            | BinaryPredicateOp::Equal => true,
            BinaryPredicateOp::Distinct | BinaryPredicateOp::In => false,
        }
    }

    /// The operator that holds with the operands exchanged; `None` when there is none.
    pub open spec fn spec_commute(self) -> Option<BinaryPredicateOp> {
        match self {
            BinaryPredicateOp::LessThan => Some(BinaryPredicateOp::GreaterThan),
            BinaryPredicateOp::GreaterThan => Some(BinaryPredicateOp::LessThan),
            BinaryPredicateOp::Equal => Some(BinaryPredicateOp::Equal),
            BinaryPredicateOp::Distinct => Some(BinaryPredicateOp::Distinct),
            BinaryPredicateOp::In => None,
        }
    }

    /// The operator that holds with the operands exchanged; `None` when there is none.
    #[verifier::when_used_as_spec(spec_commute)]
    pub fn commute(self) -> (op: Option<BinaryPredicateOp>)
        ensures
            op == self.spec_commute(),
    {
        match self {
            BinaryPredicateOp::LessThan => Some(BinaryPredicateOp::GreaterThan),
            BinaryPredicateOp::GreaterThan => Some(BinaryPredicateOp::LessThan),
            BinaryPredicateOp::Equal => Some(BinaryPredicateOp::Equal),
            BinaryPredicateOp::Distinct => Some(BinaryPredicateOp::Distinct),
            BinaryPredicateOp::In => None,
        }
    }
}

// The shapes that the constructors below build, as mathematical values.
impl PredV {
    pub open spec fn column(path: Path) -> PredV {
        PredV::BooleanExpression(Box::new(ExprV::Column(path)))
    }

    pub open spec fn literal(value: bool) -> PredV {
        PredV::BooleanExpression(Box::new(ExprV::Literal(ScalarV::Boolean(value))))
    }

    pub open spec fn null() -> PredV {
        PredV::BooleanExpression(
            Box::new(
                ExprV::Literal(ScalarV::Null(DataTypeV::Primitive(PrimitiveType::Boolean))),
            ),
        )
    }

    pub open spec fn not(p: PredV) -> PredV {
        PredV::Not(Box::new(p))
    }

    pub open spec fn is_null(e: ExprV) -> PredV {
        PredV::IsNull(Box::new(e))
    }

    pub open spec fn is_not_null(e: ExprV) -> PredV {
        PredV::not(PredV::is_null(e))
    }

    pub open spec fn binary(op: BinaryPredicateOp, a: ExprV, b: ExprV) -> PredV {
        PredV::Binary(op, Box::new(a), Box::new(b))
    }

    pub open spec fn or(a: PredV, b: PredV) -> PredV {
        PredV::Junction(JunctionPredicateOp::Or, seq![a, b])
    }

    pub open spec fn and(a: PredV, b: PredV) -> PredV {
        PredV::Junction(JunctionPredicateOp::And, seq![a, b])
    }
}

/// How the views of a predicate's parts make up its view.
pub proof fn lemma_pred_view(p: Predicate)
    ensures
        match p {
            Predicate::BooleanExpression(e) => p@ == PredV::BooleanExpression(Box::new(e@)),
            Predicate::Not(a) => p@ == PredV::Not(Box::new(a@)),
            Predicate::IsNull(e) => p@ == PredV::IsNull(Box::new(e@)),
            Predicate::Binary(op, a, b) => p@ == PredV::Binary(op, Box::new(a@), Box::new(b@)),
            Predicate::Junction(op, preds) => p@ == PredV::Junction(op, preds_view(preds))
                && preds_view(preds).len() == preds@.len() && forall|i: int|
                0 <= i < preds@.len() ==> #[trigger] preds_view(preds)[i] == preds@[i]@,
            Predicate::Opaque(o) => p@ == PredV::Opaque(o@),
            Predicate::Unknown(name) => p@ == PredV::Unknown(name@),
        },
{
    reveal_with_fuel(pred_view, 2);
}

/// Copies a list of shared expressions.
pub fn clone_exprs(exprs: &Vec<ExpressionRef>) -> (copy: Vec<ExpressionRef>)
    ensures
        copy@ == exprs@,
        exprs_view(copy) == exprs_view(*exprs),
{
    let mut copy: Vec<ExpressionRef> = Vec::new();
    for i in 0..exprs.len()
        invariant
            copy@.len() == i,
            forall|j: int| 0 <= j < i ==> #[trigger] copy@[j] == exprs@[j],
    {
        copy.push(exprs[i].clone());
    }
    assert(copy@ =~= exprs@);
    assert(exprs_view(copy) =~= exprs_view(*exprs));
    copy
}

/// Copies a list of shared predicates.
pub fn clone_preds(preds: &Vec<PredicateRef>) -> (copy: Vec<PredicateRef>)
    ensures
        copy@ == preds@,
        preds_view(copy) == preds_view(*preds),
{
    let mut copy: Vec<PredicateRef> = Vec::new();
    for i in 0..preds.len()
        invariant
            copy@.len() == i,
            forall|j: int| 0 <= j < i ==> #[trigger] copy@[j] == preds@[j],
    {
        copy.push(preds[i].clone());
    }
    assert(copy@ =~= preds@);
    assert(preds_view(copy) =~= preds_view(*preds));
    copy
}

/// Copies an optional shared predicate.
pub fn clone_opt_pred(pred: &Option<PredicateRef>) -> (copy: Option<PredicateRef>)
    ensures
        copy == *pred,
{
    match pred {
        Some(p) => Some(p.clone()),
        None => None,
    }
}

impl Clone for Predicate {
    fn clone(&self) -> (copy: Predicate)
        ensures
            copy@ == self@,
    {
        proof {
            reveal_with_fuel(pred_view, 3);
            reveal_with_fuel(expr_view, 3);
        }
        match self {
            Predicate::BooleanExpression(e) => Predicate::BooleanExpression(e.clone()),
            Predicate::Not(p) => Predicate::Not(p.clone()),
            Predicate::IsNull(e) => Predicate::IsNull(e.clone()),
            Predicate::Binary(op, a, b) => Predicate::Binary(*op, a.clone(), b.clone()),
            Predicate::Junction(op, preds) => Predicate::Junction(*op, clone_preds(preds)),
            Predicate::Opaque(o) => {
                let copy = OpaquePredicate {
                    name: o.name.clone(),
                    exprs: clone_exprs(&o.exprs),
                    implied: clone_opt_pred(&o.implied),
                    implied_inverted: clone_opt_pred(&o.implied_inverted),
                    constant: o.constant,
                };
                Predicate::Opaque(copy)
            },
            Predicate::Unknown(name) => Predicate::Unknown(name.clone()),
        }
    }
}

impl Clone for StructPatch {
    fn clone(&self) -> (copy: StructPatch)
        ensures
            copy@ == self@,
    {
        let mut field_patches: Vec<(String, FieldPatch)> = Vec::new();
        for i in 0..self.field_patches.len()
            invariant
                field_patches@.len() == i,
                forall|j: int|
                    0 <= j < i ==> {
                        &&& (#[trigger] field_patches@[j]).0@ == self.field_patches@[j].0@
                        &&& field_patches@[j].1.keep_input == self.field_patches@[j].1.keep_input
                        &&& exprs_view(field_patches@[j].1.insertions) == exprs_view(
                            self.field_patches@[j].1.insertions,
                        )
                    },
        {
            let (name, patch) = &self.field_patches[i];
            let patch = FieldPatch {
                keep_input: patch.keep_input,
                insertions: clone_exprs(&patch.insertions),
            };
            field_patches.push((name.clone(), patch));
        }
        let input_path = match &self.input_path {
            Some(path) => Some(path.clone()),
            None => None,
        };
        let copy = StructPatch {
            input_path,
            prepended_fields: clone_exprs(&self.prepended_fields),
            field_patches,
            appended_fields: clone_exprs(&self.appended_fields),
        };
        assert(copy@.field_patches =~= self@.field_patches);
        copy
    }
}

impl Clone for Expression {
    fn clone(&self) -> (copy: Expression)
        ensures
            copy@ == self@,
    {
        proof {
            reveal_with_fuel(pred_view, 2);
            reveal_with_fuel(expr_view, 2);
        }
        match self {
            Expression::Literal(s) => Expression::Literal(s.clone()),
            Expression::Column(c) => Expression::Column(c.clone()),
            Expression::Predicate(p) => Expression::Predicate(p.clone()),
            Expression::Struct(fields, nullability) => {
                let nullability = match nullability {
                    Some(e) => Some(e.clone()),
                    None => None,
                };
                Expression::Struct(clone_exprs(fields), nullability)
            },
            Expression::StructPatch(p) => Expression::StructPatch(p.clone()),
            Expression::Unary(op, e) => Expression::Unary(*op, e.clone()),
            Expression::Binary(op, a, b) => Expression::Binary(*op, a.clone(), b.clone()),
            Expression::Variadic(op, exprs) => Expression::Variadic(*op, clone_exprs(exprs)),
            Expression::ParseJson(e, schema) => Expression::ParseJson(e.clone(), schema.clone()),
            Expression::MapToStruct(e) => Expression::MapToStruct(e.clone()),
            Expression::Cast(e, t) => Expression::Cast(e.clone(), t.clone()),
            Expression::Opaque(name, exprs) => Expression::Opaque(name.clone(), clone_exprs(exprs)),
            Expression::Unknown(name) => Expression::Unknown(name.clone()),
        }
    }
}

impl Predicate {
    /// A boolean column used as a predicate.
    pub fn column(column: ColumnName) -> (p: Predicate)
        ensures
            p@ == PredV::column(column@),
    {
        proof {
            reveal_with_fuel(pred_view, 3);
            reveal_with_fuel(expr_view, 3);
        }
        Predicate::BooleanExpression(Arc::new(Expression::Column(column)))
    }

    /// TRUE or FALSE.
    pub fn literal(value: bool) -> (p: Predicate)
        ensures
            p@ == PredV::literal(value),
    {
        proof {
            reveal_with_fuel(pred_view, 3);
            reveal_with_fuel(expr_view, 3);
        }
        Predicate::BooleanExpression(Arc::new(Expression::Literal(Scalar::Boolean(value))))
    }

    /// The NULL predicate.
    pub fn null() -> (p: Predicate)
        ensures
            p@ == PredV::null(),
    {
        proof {
            reveal_with_fuel(pred_view, 3);
            reveal_with_fuel(expr_view, 3);
        }
        Predicate::BooleanExpression(
            Arc::new(
                Expression::Literal(Scalar::Null(DataType::Primitive(PrimitiveType::Boolean))),
            ),
        )
    }

    /// Logical negation.
    pub fn not(p: Predicate) -> (r: Predicate)
        ensures
            r@ == PredV::not(p@),
    {
        Predicate::Not(Arc::new(p))
    }

    /// `e IS NULL`.
    pub fn is_null(e: Expression) -> (p: Predicate)
        ensures
            p@ == PredV::is_null(e@),
    {
        Predicate::IsNull(Arc::new(e))
    }

    /// `e IS NOT NULL`.
    pub fn is_not_null(e: Expression) -> (p: Predicate)
        ensures
            p@ == PredV::is_not_null(e@),
    {
        Predicate::not(Predicate::is_null(e))
    }

    /// A comparison.
    pub fn binary(op: BinaryPredicateOp, a: Expression, b: Expression) -> (p: Predicate)
        ensures
            p@ == PredV::binary(op, a@, b@),
    {
        Predicate::Binary(op, Arc::new(a), Arc::new(b))
    }

    /// `a = b`.
    pub fn eq(a: Expression, b: Expression) -> (p: Predicate)
        ensures
            p@ == PredV::binary(BinaryPredicateOp::Equal, a@, b@),
    {
        Predicate::binary(BinaryPredicateOp::Equal, a, b)
    }

    /// `a != b`.
    pub fn ne(a: Expression, b: Expression) -> (p: Predicate)
        ensures
            p@ == PredV::not(PredV::binary(BinaryPredicateOp::Equal, a@, b@)),
    {
        Predicate::not(Predicate::eq(a, b))
    }

    /// `a < b`.
    pub fn lt(a: Expression, b: Expression) -> (p: Predicate)
        ensures
            p@ == PredV::binary(BinaryPredicateOp::LessThan, a@, b@),
    {
        Predicate::binary(BinaryPredicateOp::LessThan, a, b)
    }

    /// `a >= b`.
    pub fn ge(a: Expression, b: Expression) -> (p: Predicate)
        ensures
            p@ == PredV::not(PredV::binary(BinaryPredicateOp::LessThan, a@, b@)),
    {
        Predicate::not(Predicate::lt(a, b))
    }

    /// `a > b`.
    pub fn gt(a: Expression, b: Expression) -> (p: Predicate)
        ensures
            p@ == PredV::binary(BinaryPredicateOp::GreaterThan, a@, b@),
    {
        Predicate::binary(BinaryPredicateOp::GreaterThan, a, b)
    }

    /// `a <= b`.
    pub fn le(a: Expression, b: Expression) -> (p: Predicate)
        ensures
            p@ == PredV::not(PredV::binary(BinaryPredicateOp::GreaterThan, a@, b@)),
    {
        Predicate::not(Predicate::gt(a, b))
    }

    /// `a IS DISTINCT FROM b`.
    pub fn distinct(a: Expression, b: Expression) -> (p: Predicate)
        ensures
            p@ == PredV::binary(BinaryPredicateOp::Distinct, a@, b@),
    {
        Predicate::binary(BinaryPredicateOp::Distinct, a, b)
    }

    /// `a OR b`.
    pub fn or(a: Predicate, b: Predicate) -> (p: Predicate)
        ensures
            p@ == PredV::or(a@, b@),
    {
        let preds: Vec<PredicateRef> = vec![Arc::new(a), Arc::new(b)];
        assert(preds_view(preds) =~= seq![a@, b@]);
        Predicate::Junction(JunctionPredicateOp::Or, preds)
    }

    /// `a AND b`.
    pub fn and(a: Predicate, b: Predicate) -> (p: Predicate)
        ensures
            p@ == PredV::and(a@, b@),
    {
        let preds: Vec<PredicateRef> = vec![Arc::new(a), Arc::new(b)];
        assert(preds_view(preds) =~= seq![a@, b@]);
        Predicate::Junction(JunctionPredicateOp::And, preds)
    }
}

impl ExprV {
    pub open spec fn struct_from(fields: Seq<ExprV>) -> ExprV {
        ExprV::Struct(fields, None)
    }

    pub open spec fn coalesce(exprs: Seq<ExprV>) -> ExprV {
        ExprV::Variadic(VariadicExpressionOp::Coalesce, exprs)
    }

    pub open spec fn from_pred(p: PredV) -> ExprV {
        match p {
            PredV::BooleanExpression(e) => *e,
            _ => ExprV::Predicate(Box::new(p)),
        }
    }
}

impl Expression {
    /// A top-level column.
    pub fn top(name: &str) -> (e: Expression)
        ensures
            e@ == ExprV::Column(seq![name@]),
    {
        Expression::Column(ColumnName::top(name))
    }

    /// A column one level below a top-level column.
    pub fn nested(parent: &str, name: &str) -> (e: Expression)
        ensures
            e@ == ExprV::Column(seq![parent@, name@]),
    {
        Expression::Column(ColumnName::nested(parent, name))
    }

    /// A struct with the given fields.
    pub fn struct_from(fields: Vec<ExpressionRef>) -> (e: Expression)
        ensures
            e@ == ExprV::struct_from(exprs_view(fields)),
    {
        Expression::Struct(fields, None)
    }

    /// The first of two values that is not NULL.
    pub fn coalesce(a: Expression, b: Expression) -> (e: Expression)
        ensures
            e@ == ExprV::coalesce(seq![a@, b@]),
    {
        let exprs: Vec<ExpressionRef> = vec![Arc::new(a), Arc::new(b)];
        assert(exprs_view(exprs) =~= seq![a@, b@]);
        Expression::Variadic(VariadicExpressionOp::Coalesce, exprs)
    }

    /// A predicate as a boolean value.
    pub fn from_pred(p: Predicate) -> (e: ExpressionRef)
        ensures
            e@ == ExprV::from_pred(p@),
    {
        match p {
            Predicate::BooleanExpression(e) => e,
            p => Arc::new(Expression::Predicate(Arc::new(p))),
        }
    }
}

} // verus!

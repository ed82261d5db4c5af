//! The syntax tree that the parser builds, and its mathematical views.

use vstd::prelude::*;

verus! {

/// A literal or a name.
#[derive(Debug, Clone, PartialEq, Eq)]
pub enum Value {
    Integer(i32),
    String(String),
    Boolean(bool),
    Identifier(String),
    Keyword(String),
}

/// An expression.
#[derive(Debug, PartialEq, Eq)]
pub enum Expressions {
    Binary { operand: String, lhs: Box<Expressions>, rhs: Box<Expressions>, line: usize },
    Boolean { operand: String, lhs: Box<Expressions>, rhs: Box<Expressions>, line: usize },
    Bitwise { operand: String, lhs: Box<Expressions>, rhs: Box<Expressions>, line: usize },
    Argument { name: String, datatype: String },
    SubElement { parent: Box<Expressions>, child: Box<Expressions>, line: usize },
    Call { function_name: String, arguments: Vec<Expressions>, line: usize },
    Lambda {
        arguments: Vec<(String, String)>,
        statements: Vec<Statements>,
        ftype: String,
        line: usize,
    },
    Reference { object: Box<Expressions>, line: usize },
    Dereference { object: Box<Expressions>, line: usize },
    Array { values: Vec<Expressions>, len: usize, line: usize },
    Slice { object: Box<Expressions>, index: Box<Expressions>, line: usize },
    Value(Value),
    Nothing,
}

/// A statement.
#[derive(Debug, PartialEq, Eq)]
pub enum Statements {
    AssignStatement { identifier: String, value: Option<Box<Expressions>>, line: usize },
    BinaryAssignStatement {
        identifier: String,
        operand: String,
        value: Option<Box<Expressions>>,
        line: usize,
    },
    /// `name[index] = value` (the code generator takes it; the parser does
    /// not build it).
    SliceAssignStatement {
        identifier: String,
        index: Box<Expressions>,
        value: Box<Expressions>,
        line: usize,
    },
    /// `*name = value` (the code generator takes it; the parser does not
    /// build it).
    DerefAssignStatement { identifier: String, value: Box<Expressions>, line: usize },
    AnnotationStatement {
        identifier: String,
        datatype: String,
        value: Option<Box<Expressions>>,
        line: usize,
    },
    FunctionCallStatement { function_name: String, arguments: Vec<Expressions>, line: usize },
    FunctionDefineStatement {
        function_name: String,
        function_type: String,
        arguments: Vec<(String, String)>,
        block: Vec<Statements>,
        line: usize,
    },
    ReturnStatement { value: Expressions, line: usize },
    ImportStatement { path: Expressions, line: usize },
    IfStatement {
        condition: Expressions,
        then_block: Vec<Statements>,
        else_block: Option<Vec<Statements>>,
        line: usize,
    },
    WhileStatement { condition: Expressions, block: Vec<Statements>, line: usize },
    ForStatement {
        varname: String,
        iterable_object: Expressions,
        block: Vec<Statements>,
        line: usize,
    },
    BreakStatement { line: usize },
    Expression(Expressions),
    Nothing,
    End,
}

/// The content of a `Value`.
pub enum SValue {
    Integer(i32),
    String(Seq<char>),
    Boolean(bool),
    Identifier(Seq<char>),
    Keyword(Seq<char>),
}

/// The content of an `Expressions`.
pub enum SExpr {
    Binary { operand: Seq<char>, lhs: Box<SExpr>, rhs: Box<SExpr>, line: usize },
    Boolean { operand: Seq<char>, lhs: Box<SExpr>, rhs: Box<SExpr>, line: usize },
    Bitwise { operand: Seq<char>, lhs: Box<SExpr>, rhs: Box<SExpr>, line: usize },
    Argument { name: Seq<char>, datatype: Seq<char> },
    SubElement { parent: Box<SExpr>, child: Box<SExpr>, line: usize },
    Call { function_name: Seq<char>, arguments: Seq<SExpr>, line: usize },
    Lambda {
        arguments: Seq<(Seq<char>, Seq<char>)>,
        statements: Seq<SStmt>,
        ftype: Seq<char>,
        line: usize,
    },
    Reference { object: Box<SExpr>, line: usize },
    Dereference { object: Box<SExpr>, line: usize },
    Array { values: Seq<SExpr>, len: usize, line: usize },
    Slice { object: Box<SExpr>, index: Box<SExpr>, line: usize },
    Value(SValue),
    Nothing,
}

/// The content of a `Statements`.
pub enum SStmt {
    AssignStatement { identifier: Seq<char>, value: Option<SExpr>, line: usize },
    BinaryAssignStatement {
        identifier: Seq<char>,
        operand: Seq<char>,
        value: Option<SExpr>,
        line: usize,
    },
    SliceAssignStatement { identifier: Seq<char>, index: SExpr, value: SExpr, line: usize },
    DerefAssignStatement { identifier: Seq<char>, value: SExpr, line: usize },
    AnnotationStatement {
        identifier: Seq<char>,
        datatype: Seq<char>,
        value: Option<SExpr>,
        line: usize,
    },
    FunctionCallStatement { function_name: Seq<char>, arguments: Seq<SExpr>, line: usize },
    FunctionDefineStatement {
        function_name: Seq<char>,
        function_type: Seq<char>,
        arguments: Seq<(Seq<char>, Seq<char>)>,
        block: Seq<SStmt>,
        line: usize,
    },
    ReturnStatement { value: SExpr, line: usize },
    ImportStatement { path: SExpr, line: usize },
    IfStatement {
        condition: SExpr,
        then_block: Seq<SStmt>,
        else_block: Option<Seq<SStmt>>,
        line: usize,
    },
    WhileStatement { condition: SExpr, block: Seq<SStmt>, line: usize },
    ForStatement { varname: Seq<char>, iterable_object: SExpr, block: Seq<SStmt>, line: usize },
    BreakStatement { line: usize },
    Expression(SExpr),
    Nothing,
    End,
}

impl View for Value {
    type V = SValue;

    open spec fn view(&self) -> SValue {
        match self {
            Value::Integer(i) => SValue::Integer(*i),
            Value::String(s) => SValue::String(s@),
            Value::Boolean(b) => SValue::Boolean(*b),
            Value::Identifier(s) => SValue::Identifier(s@),
            Value::Keyword(s) => SValue::Keyword(s@),
        }
    }
}

/// The views of name/type pairs.
pub open spec fn pairs_view(s: Seq<(String, String)>) -> Seq<(Seq<char>, Seq<char>)> {
    s.map_values(|p: (String, String)| (p.0@, p.1@))
}

/// The view of an expression.
pub open spec fn expr_view(e: Expressions) -> SExpr
    decreases e,
{
    match e {
        Expressions::Binary { operand, lhs, rhs, line } => SExpr::Binary {
            operand: operand@,
            lhs: Box::new(expr_view(*lhs)),
            rhs: Box::new(expr_view(*rhs)),
            line,
        },
        Expressions::Boolean { operand, lhs, rhs, line } => SExpr::Boolean {
            operand: operand@,
            lhs: Box::new(expr_view(*lhs)),
            rhs: Box::new(expr_view(*rhs)),
            line,
        },
        Expressions::Bitwise { operand, lhs, rhs, line } => SExpr::Bitwise {
            operand: operand@,
            lhs: Box::new(expr_view(*lhs)),
            rhs: Box::new(expr_view(*rhs)),
            line,
        },
        Expressions::Argument { name, datatype } => SExpr::Argument {
            name: name@,
            datatype: datatype@,
        },
        Expressions::SubElement { parent, child, line } => SExpr::SubElement {
            parent: Box::new(expr_view(*parent)),
            child: Box::new(expr_view(*child)),
            line,
        },
        Expressions::Call { function_name, arguments, line } => SExpr::Call {
            function_name: function_name@,
            arguments: exprs_view(arguments@),
            line,
        },
        Expressions::Lambda { arguments, statements, ftype, line } => SExpr::Lambda {
            arguments: pairs_view(arguments@),
            statements: stmts_view(statements@),
            ftype: ftype@,
            line,
        },
        Expressions::Reference { object, line } => SExpr::Reference {
            object: Box::new(expr_view(*object)),
            line,
        },
        Expressions::Dereference { object, line } => SExpr::Dereference {
            object: Box::new(expr_view(*object)),
            line,
        },
        Expressions::Array { values, len, line } => SExpr::Array {
            values: exprs_view(values@),
            len,
            line,
        },
        Expressions::Slice { object, index, line } => SExpr::Slice {
            object: Box::new(expr_view(*object)),
            index: Box::new(expr_view(*index)),
            line,
        },
        Expressions::Value(v) => SExpr::Value(v@),
        Expressions::Nothing => SExpr::Nothing,
    }
}

/// The views of a sequence of expressions.
pub open spec fn exprs_view(s: Seq<Expressions>) -> Seq<SExpr>
    decreases s,
{
    Seq::new(
        s.len(),
        |i: int|
            if 0 <= i < s.len() {
                expr_view(s[i])
            } else {
                SExpr::Nothing
            },
    )
}

/// The view of an optional boxed expression.
pub open spec fn opt_expr_view(o: Option<Box<Expressions>>) -> Option<SExpr>
    decreases o,
{
    match o {
        Some(b) => Some(expr_view(*b)),
        None => None,
    }
}

/// The view of a statement.
pub open spec fn stmt_view(s: Statements) -> SStmt
    decreases s,
{
    match s {
        Statements::AssignStatement { identifier, value, line } => SStmt::AssignStatement {
            identifier: identifier@,
            value: opt_expr_view(value),
            line,
        },
        Statements::BinaryAssignStatement { identifier, operand, value, line } =>
            SStmt::BinaryAssignStatement {
            identifier: identifier@,
            operand: operand@,
            value: opt_expr_view(value),
            line,
        },
        Statements::SliceAssignStatement { identifier, index, value, line } =>
            SStmt::SliceAssignStatement {
            identifier: identifier@,
            index: expr_view(*index),
            value: expr_view(*value),
            line,
        },
        Statements::DerefAssignStatement { identifier, value, line } =>
            SStmt::DerefAssignStatement {
            identifier: identifier@,
            value: expr_view(*value),
            line,
        },
        Statements::AnnotationStatement { identifier, datatype, value, line } =>
            SStmt::AnnotationStatement {
            identifier: identifier@,
            datatype: datatype@,
            value: opt_expr_view(value),
            line,
        },
        Statements::FunctionCallStatement { function_name, arguments, line } =>
            SStmt::FunctionCallStatement {
            function_name: function_name@,
            arguments: exprs_view(arguments@),
            line,
        },
        Statements::FunctionDefineStatement {
            function_name,
            function_type,
            arguments,
            block,
            line,
        } => SStmt::FunctionDefineStatement {
            function_name: function_name@,
            function_type: function_type@,
            arguments: pairs_view(arguments@),
            block: stmts_view(block@),
            line,
        },
        Statements::ReturnStatement { value, line } => SStmt::ReturnStatement {
            value: expr_view(value),
            line,
        },
        Statements::ImportStatement { path, line } => SStmt::ImportStatement {
            path: expr_view(path),
            line,
        },
        Statements::IfStatement { condition, then_block, else_block, line } =>
            SStmt::IfStatement {
            condition: expr_view(condition),
            then_block: stmts_view(then_block@),
            else_block: match else_block {
                Some(b) => Some(stmts_view(b@)),
                None => None,
            },
            line,
        },
        Statements::WhileStatement { condition, block, line } => SStmt::WhileStatement {
            condition: expr_view(condition),
            block: stmts_view(block@),
            line,
        },
        Statements::ForStatement { varname, iterable_object, block, line } =>
            SStmt::ForStatement {
            varname: varname@,
            iterable_object: expr_view(iterable_object),
            block: stmts_view(block@),
            line,
        },
        Statements::BreakStatement { line } => SStmt::BreakStatement { line },
        Statements::Expression(e) => SStmt::Expression(expr_view(e)),
        Statements::Nothing => SStmt::Nothing,
        Statements::End => SStmt::End,
    }
}

/// The views of a sequence of statements.
pub open spec fn stmts_view(s: Seq<Statements>) -> Seq<SStmt>
    decreases s,
{
    Seq::new(
        s.len(),
        |i: int|
            if 0 <= i < s.len() {
                stmt_view(s[i])
            } else {
                SStmt::Nothing
            },
    )
}

impl Value {
    /// A copy of the value, with the same view.
    pub fn duplicate(&self) -> (r: Self)
        ensures
            r@ == self@,
    {
        match self {
            Value::Integer(i) => Value::Integer(*i),
            Value::String(s) => Value::String(s.clone()),
            Value::Boolean(b) => Value::Boolean(*b),
            Value::Identifier(s) => Value::Identifier(s.clone()),
            Value::Keyword(s) => Value::Keyword(s.clone()),
        }
    }
}

fn duplicate_box(b: &Box<Expressions>) -> (r: Box<Expressions>)
    ensures
        expr_view(*r) == expr_view(**b),
    decreases **b, 1nat,
{
    Box::new((**b).duplicate())
}

fn duplicate_exprs(v: &Vec<Expressions>) -> (r: Vec<Expressions>)
    ensures
        exprs_view(r@) == exprs_view(v@),
    decreases v, 1nat,
{
    let mut out: Vec<Expressions> = Vec::new();
    let mut i: usize = 0;
    while i < v.len()
        invariant
            i <= v.len(),
            out@.len() == i,
            forall|k: int| 0 <= k < i ==> #[trigger] expr_view(out@[k]) == expr_view(v@[k]),
        decreases v.len() - i,
    {
        assert(decreases_to!(v => v@[i as int]));
        let e = v[i].duplicate();
        out.push(e);
        i = i + 1;
    }
    assert forall|k: int| 0 <= k < v@.len() implies #[trigger] exprs_view(out@)[k] == exprs_view(
        v@,
    )[k] by {
        assert(expr_view(out@[k]) == expr_view(v@[k]));
    }
    assert(exprs_view(out@) =~= exprs_view(v@));
    out
}

fn duplicate_stmts(v: &Vec<Statements>) -> (r: Vec<Statements>)
    ensures
        stmts_view(r@) == stmts_view(v@),
    decreases v, 1nat,
{
    let mut out: Vec<Statements> = Vec::new();
    let mut i: usize = 0;
    while i < v.len()
        invariant
            i <= v.len(),
            out@.len() == i,
            forall|k: int| 0 <= k < i ==> #[trigger] stmt_view(out@[k]) == stmt_view(v@[k]),
        decreases v.len() - i,
    {
        assert(decreases_to!(v => v@[i as int]));
        let e = v[i].duplicate();
        out.push(e);
        i = i + 1;
    }
    assert forall|k: int| 0 <= k < v@.len() implies #[trigger] stmts_view(out@)[k] == stmts_view(
        v@,
    )[k] by {
        assert(stmt_view(out@[k]) == stmt_view(v@[k]));
    }
    assert(stmts_view(out@) =~= stmts_view(v@));
    out
}

fn duplicate_pairs(v: &Vec<(String, String)>) -> (r: Vec<(String, String)>)
    ensures
        pairs_view(r@) == pairs_view(v@),
{
    let mut out: Vec<(String, String)> = Vec::new();
    let mut i: usize = 0;
    while i < v.len()
        invariant
            i <= v.len(),
            out@.len() == i,
            forall|k: int| 0 <= k < i ==> #[trigger] out@[k].0@ == v@[k].0@ && out@[k].1@ == v@[k].1@,
        decreases v.len() - i,
    {
        let a = v[i].0.clone();
        let b = v[i].1.clone();
        out.push((a, b));
        i = i + 1;
    }
    assert(pairs_view(out@) =~= pairs_view(v@));
    out
}

impl Expressions {
    /// A copy of the expression, with the same view.
    pub fn duplicate(&self) -> (r: Self)
        ensures
            expr_view(r) == expr_view(*self),
        decreases *self, 0nat,
    {
        match self {
            Expressions::Binary { operand, lhs, rhs, line } => Expressions::Binary {
                operand: operand.clone(),
                lhs: duplicate_box(lhs),
                rhs: duplicate_box(rhs),
                line: *line,
            },
            Expressions::Boolean { operand, lhs, rhs, line } => Expressions::Boolean {
                operand: operand.clone(),
                lhs: duplicate_box(lhs),
                rhs: duplicate_box(rhs),
                line: *line,
            },
            Expressions::Bitwise { operand, lhs, rhs, line } => Expressions::Bitwise {
                operand: operand.clone(),
                lhs: duplicate_box(lhs),
                rhs: duplicate_box(rhs),
                line: *line,
            },
            Expressions::Argument { name, datatype } => Expressions::Argument {
                name: name.clone(),
                datatype: datatype.clone(),
            },
            Expressions::SubElement { parent, child, line } => Expressions::SubElement {
                parent: duplicate_box(parent),
                child: duplicate_box(child),
                line: *line,
            },
            Expressions::Call { function_name, arguments, line } => Expressions::Call {
                function_name: function_name.clone(),
                arguments: duplicate_exprs(arguments),
                line: *line,
            },
            Expressions::Lambda { arguments, statements, ftype, line } => Expressions::Lambda {
                arguments: duplicate_pairs(arguments),
                statements: duplicate_stmts(statements),
                ftype: ftype.clone(),
                line: *line,
            },
            Expressions::Reference { object, line } => Expressions::Reference {
                object: duplicate_box(object),
                line: *line,
            },
            Expressions::Dereference { object, line } => Expressions::Dereference {
                object: duplicate_box(object),
                line: *line,
            },
            Expressions::Array { values, len, line } => Expressions::Array {
                values: duplicate_exprs(values),
                len: *len,
                line: *line,
            },
            Expressions::Slice { object, index, line } => Expressions::Slice {
                object: duplicate_box(object),
                index: duplicate_box(index),
                line: *line,
            },
            Expressions::Value(v) => Expressions::Value(v.duplicate()),
            Expressions::Nothing => Expressions::Nothing,
        }
    }
}

fn duplicate_opt_box(o: &Option<Box<Expressions>>) -> (r: Option<Box<Expressions>>)
    ensures
        opt_expr_view(r) == opt_expr_view(*o),
    decreases *o, 2nat,
{
    match o {
        Some(b) => Some(duplicate_box(b)),
        None => None,
    }
}

impl Statements {
    /// A copy of the statement, with the same view.
    pub fn duplicate(&self) -> (r: Self)
        ensures
            stmt_view(r) == stmt_view(*self),
        decreases *self, 0nat,
    {
        match self {
            Statements::AssignStatement { identifier, value, line } => Statements::AssignStatement {
                identifier: identifier.clone(),
                value: duplicate_opt_box(value),
                line: *line,
            },
            Statements::BinaryAssignStatement { identifier, operand, value, line } =>
                Statements::BinaryAssignStatement {
                identifier: identifier.clone(),
                operand: operand.clone(),
                value: duplicate_opt_box(value),
                line: *line,
            },
            Statements::SliceAssignStatement { identifier, index, value, line } =>
                Statements::SliceAssignStatement {
                identifier: identifier.clone(),
                index: duplicate_box(index),
                value: duplicate_box(value),
                line: *line,
            },
            Statements::DerefAssignStatement { identifier, value, line } =>
                Statements::DerefAssignStatement {
                identifier: identifier.clone(),
                value: duplicate_box(value),
                line: *line,
            },
            Statements::AnnotationStatement { identifier, datatype, value, line } =>
                Statements::AnnotationStatement {
                identifier: identifier.clone(),
                datatype: datatype.clone(),
                value: duplicate_opt_box(value),
                line: *line,
            },
            Statements::FunctionCallStatement { function_name, arguments, line } =>
                Statements::FunctionCallStatement {
                function_name: function_name.clone(),
                arguments: duplicate_exprs(arguments),
                line: *line,
            },
            Statements::FunctionDefineStatement {
                function_name,
                function_type,
                arguments,
                block,
                line,
            } => Statements::FunctionDefineStatement {
                function_name: function_name.clone(),
                function_type: function_type.clone(),
                arguments: duplicate_pairs(arguments),
                block: duplicate_stmts(block),
                line: *line,
            },
            Statements::ReturnStatement { value, line } => Statements::ReturnStatement {
                value: value.duplicate(),
                line: *line,
            },
            Statements::ImportStatement { path, line } => Statements::ImportStatement {
                path: path.duplicate(),
                line: *line,
            },
            Statements::IfStatement { condition, then_block, else_block, line } =>
                Statements::IfStatement {
                condition: condition.duplicate(),
                then_block: duplicate_stmts(then_block),
                else_block: match else_block {
                    Some(b) => Some(duplicate_stmts(b)),
                    None => None,
                },
                line: *line,
            },
            Statements::WhileStatement { condition, block, line } => Statements::WhileStatement {
                condition: condition.duplicate(),
                block: duplicate_stmts(block),
                line: *line,
            },
            Statements::ForStatement { varname, iterable_object, block, line } =>
                Statements::ForStatement {
                varname: varname.clone(),
                iterable_object: iterable_object.duplicate(),
                block: duplicate_stmts(block),
                line: *line,
            },
            Statements::BreakStatement { line } => Statements::BreakStatement { line: *line },
            Statements::Expression(e) => Statements::Expression(e.duplicate()),
            Statements::Nothing => Statements::Nothing,
            Statements::End => Statements::End,
        }
    }
}

impl Clone for Expressions {
    fn clone(&self) -> (r: Self)
        ensures
            expr_view(r) == expr_view(*self),
    {
        self.duplicate()
    }
}

impl Clone for Statements {
    fn clone(&self) -> (r: Self)
        ensures
            stmt_view(r) == stmt_view(*self),
    {
        self.duplicate()
    }
}

} // verus!

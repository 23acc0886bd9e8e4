//! Semantic analysis: the types of expressions, declared variables, calls
//! against the functions' signatures, and coroutine tasks.
//!
//! `check_stmt` states what analysing one statement gives: its type (if it
//! has one) and the analysis state after it.
use vstd::prelude::*;
use crate::common::types::Type;
use crate::error::error_code::ErrorCode;
use crate::error::error_context::ErrorContext;
use crate::parser::node::{
    Block, BlockNode, CoroutineDefinitionNode, FunctionDefinitionNode, ParameterNode, PrivateNode,
    RootNode, Stmt, nodes_view, lemma_nodes_view,
};
use crate::text::{decimal, decimal_string};
use super::coroutine_table::{CoroutineModel, CoroutineTable};
use super::function_table::FunctionInfo;
use super::task_table::CoroutineTask;
use super::function_table::{FunctionModel, FunctionTable, params_view};
use super::task_table::{TaskModel, TaskStatus, TaskTable};
use super::variable_table::{VariableScope, VariableTable, first_type};

verus! {

/// How a node is shown in a message (`format!("{:?}", node)`).
pub uninterp spec fn debug_text(n: Stmt) -> Seq<char>;

/// Trusted: formats the node with its derived `Debug` implementation. The
/// text depends on the node alone and is named `debug_text`; what the text
/// is is not stated.
#[verifier::external_body]
pub(crate) fn node_debug_text(n: &PrivateNode) -> (r: String)
    ensures
        r@ == debug_text(n@),
{
    format!("{:?}", n)
}

/// An error of the analysis: its code and its parameters.
pub struct SemErr {
    pub code: ErrorCode,
    pub params: Seq<(Seq<char>, Seq<char>)>,
}

/// What the analysis of a statement needs of a function: its signature.
pub struct FunSig {
    pub parameters: Seq<(Seq<char>, Type)>,
    pub return_type: Option<Type>,
    pub is_variadic: bool,
}

/// The state of the analysis of a definition: the variables declared so far
/// (in order), the errors reported so far and the tasks.
#[verifier::ext_equal]
pub struct SemState {
    pub locals: Seq<(Seq<char>, Type)>,
    pub errors: Seq<SemErr>,
    pub tasks: spec_fn(Seq<char>) -> Option<TaskModel>,
}

pub open spec fn report(st: SemState, code: ErrorCode, params: Seq<(Seq<char>, Seq<char>)>) -> SemState {
    SemState { errors: st.errors.push(SemErr { code, params }), ..st }
}

/// `SEMANTIC006`: a value of the wrong type (or of none) given to a variable
/// or parameter.
pub open spec fn wrong_type(st: SemState, name: Seq<char>, expected: Type, found: Seq<char>) -> SemState {
    report(
        st,
        ErrorCode::Semantic006,
        seq![("variable_name"@, name), ("variable_type"@, expected.text()), ("value_type"@, found)],
    )
}

/// `SEMANTIC003`: an operand without a type.
pub open spec fn untyped(st: SemState, n: Stmt) -> SemState {
    report(st, ErrorCode::Semantic003, seq![("node"@, debug_text(n))])
}

/// The state after a task named `task_name` of `coroutine_name`, whose body
/// is `block`, is registered.
pub open spec fn spawn(st: SemState, task_name: Seq<char>, coroutine_name: Seq<char>, block: Block) -> SemState {
    SemState {
        tasks: |n: Seq<char>|
            if n == task_name {
                Some(
                    TaskModel {
                        task_name,
                        coroutine_name,
                        status: TaskStatus::Ready,
                        current_position: 0,
                        process: block.statements,
                    },
                )
            } else {
                (st.tasks)(n)
            },
        ..st
    }
}

/// The analysis of a statement: its type, if it has one, and the state after
/// it. `funs` gives the signatures of the functions and `coros` the bodies of
/// the coroutines.
pub open spec fn check_stmt(
    funs: spec_fn(Seq<char>) -> Option<FunSig>,
    coros: spec_fn(Seq<char>) -> Option<Block>,
    s: Stmt,
    st: SemState,
) -> (Option<Type>, SemState)
    decreases s, 1nat,
{
    match s {
        Stmt::Arithmetic { operator, left, right } => match right {
            Some(_) => check_binary(funs, coros, s, st),
            None => {
                let (t, st1) = check_stmt(funs, coros, *left, st);
                match t {
                    Some(t) => (Some(t), st1),
                    None => (None, untyped(st1, *left)),
                }
            },
        },
        Stmt::Logical { operator, left, right } => match right {
            Some(_) => check_binary(funs, coros, s, st),
            None => {
                let (t, st1) = check_stmt(funs, coros, *left, st);
                match t {
                    Some(t) => (Some(t), st1),
                    None => (None, untyped(st1, *left)),
                }
            },
        },
        Stmt::Compare { .. } => check_binary(funs, coros, s, st),
        Stmt::CoroutineInstantiation { task_name, coroutine_name } => match coros(coroutine_name) {
            Some(b) => (None, spawn(st, task_name, coroutine_name, b)),
            None => (
                None,
                report(
                    st,
                    ErrorCode::Semantic004,
                    seq![("statement"@, "コルーチン"@), ("name"@, coroutine_name)],
                ),
            ),
        },
        Stmt::FunctionCall { name, arguments, return_flg } => match funs(name) {
            Some(sig) => if !sig.is_variadic && sig.parameters.len() != arguments.len() {
                (
                    None,
                    report(
                        st,
                        ErrorCode::Semantic008,
                        seq![
                            ("parameter"@, decimal(sig.parameters.len())),
                            ("argument"@, decimal(arguments.len())),
                            ("name"@, name),
                        ],
                    ),
                )
            } else {
                let (ok, st2) = if sig.is_variadic {
                    (true, st)
                } else {
                    check_args(funs, coros, sig.parameters, arguments, st)
                };
                if !ok {
                    (None, st2)
                } else if return_flg {
                    match sig.return_type {
                        Some(t) => (Some(t), st2),
                        None => (
                            None,
                            report(st2, ErrorCode::Semantic005, seq![("function_name"@, name)]),
                        ),
                    }
                } else {
                    (None, st2)
                }
            },
            None => (None, report(st, ErrorCode::Semantic004, seq![("function_name"@, name)])),
        },
        Stmt::IfStatement { condition_node: _, then_block, else_block } => {
            let st1 = check_block(funs, coros, then_block.statements, st);
            match else_block {
                Some(e) => (None, check_block(funs, coros, e.statements, st1)),
                None => (None, st1),
            }
        },
        Stmt::LoopStatement { condition_node: _, block } => (
            None,
            check_block(funs, coros, block.statements, st),
        ),
        Stmt::Literal { value } => (value.type_of(), st),
        Stmt::Variable { name } => match first_type(st.locals, name) {
            Some(t) => (Some(t), st),
            None => (None, report(st, ErrorCode::Semantic007, seq![("variable_name"@, name)])),
        },
        Stmt::VariableAssignment { name, expression } => match first_type(st.locals, name) {
            None => (None, report(st, ErrorCode::Semantic007, seq![("variable_name"@, name)])),
            Some(vt) => {
                let (t, st1) = check_stmt(funs, coros, *expression, st);
                match t {
                    Some(t) => if t == vt {
                        (Some(t), st1)
                    } else {
                        (None, wrong_type(st1, name, vt, t.text()))
                    },
                    None => (None, wrong_type(st1, name, vt, "none"@)),
                }
            },
        },
        Stmt::VariableDeclaration { name, variable_type, initializer, doc: _ } => {
            let st1 = SemState { locals: st.locals.push((name, variable_type)), ..st };
            match initializer {
                None => (None, st1),
                Some(init) => {
                    let (t, st2) = check_stmt(funs, coros, *init, st1);
                    match t {
                        Some(t) => if t == variable_type {
                            (Some(variable_type), st2)
                        } else {
                            (None, wrong_type(st2, name, variable_type, t.text()))
                        },
                        None => (None, wrong_type(st2, name, variable_type, "none"@)),
                    }
                },
            }
        },
        _ => (None, st),
    }
}

/// The operator, left and right operands of a binary operation.
pub open spec fn binary_parts(s: Stmt) -> Option<(Seq<char>, Stmt, Stmt)> {
    match s {
        Stmt::Arithmetic { operator, left, right: Some(r) } => Some((operator.text(), *left, *r)),
        Stmt::Logical { operator, left, right: Some(r) } => Some((operator.text(), *left, *r)),
        Stmt::Compare { operator, left, right } => Some((operator.text(), *left, *right)),
        _ => None,
    }
}

/// The analysis of a binary operation: both operands must have a type, and
/// the same one, which is the type of the operation.
pub open spec fn check_binary(
    funs: spec_fn(Seq<char>) -> Option<FunSig>,
    coros: spec_fn(Seq<char>) -> Option<Block>,
    s: Stmt,
    st: SemState,
) -> (Option<Type>, SemState)
    decreases s, 0nat,
{
    if binary_parts(s) is None {
        (None, st)
    } else {
    let (operator, left, right) = binary_parts(s)->0;
    proof {
        match s {
            Stmt::Arithmetic { operator: _, left: l, right: Some(r) } => {
                assert(decreases_to!(s => *l));
                assert(decreases_to!(s => *r));
            },
            Stmt::Logical { operator: _, left: l, right: Some(r) } => {
                assert(decreases_to!(s => *l));
                assert(decreases_to!(s => *r));
            },
            Stmt::Compare { operator: _, left: l, right: r } => {
                assert(decreases_to!(s => *l));
                assert(decreases_to!(s => *r));
            },
            _ => {},
        }
    }
    let (lt, st1) = check_stmt(funs, coros, left, st);
    match lt {
        None => (None, untyped(st1, left)),
        Some(lt) => {
            let (rt, st2) = check_stmt(funs, coros, right, st1);
            match rt {
                None => (None, untyped(st2, right)),
                Some(rt) => if lt != rt {
                    (
                        None,
                        report(
                            st2,
                            ErrorCode::Semantic002,
                            seq![("left"@, lt.text()), ("operator"@, operator), ("right"@, rt.text())],
                        ),
                    )
                } else {
                    (Some(lt), st2)
                },
            }
        },
    }
    }
}

/// The analysis of the arguments of a call against the parameters, pair by
/// pair, stopping at the first argument of the wrong type (or of none).
pub open spec fn check_args(
    funs: spec_fn(Seq<char>) -> Option<FunSig>,
    coros: spec_fn(Seq<char>) -> Option<Block>,
    params: Seq<(Seq<char>, Type)>,
    args: Seq<Stmt>,
    st: SemState,
) -> (bool, SemState)
    decreases args, 0nat,
{
    if params.len() == 0 || args.len() == 0 {
        (true, st)
    } else {
        let (t, st1) = check_stmt(funs, coros, args[0], st);
        match t {
            Some(t) => if t != params[0].1 {
                (false, wrong_type(st1, params[0].0, params[0].1, t.text()))
            } else {
                check_args(
                    funs,
                    coros,
                    params.subrange(1, params.len() as int),
                    args.subrange(1, args.len() as int),
                    st1,
                )
            },
            None => (false, wrong_type(st1, params[0].0, params[0].1, "None"@)),
        }
    }
}

/// The analysis of the statements of a block, in order.
pub open spec fn check_block(
    funs: spec_fn(Seq<char>) -> Option<FunSig>,
    coros: spec_fn(Seq<char>) -> Option<Block>,
    stmts: Seq<Stmt>,
    st: SemState,
) -> SemState
    decreases stmts, 0nat,
{
    if stmts.len() == 0 {
        st
    } else {
        check_block(
            funs,
            coros,
            stmts.subrange(1, stmts.len() as int),
            check_stmt(funs, coros, stmts[0], st).1,
        )
    }
}

/// `a` is a prefix of `b`.
pub open spec fn starts(b: Seq<SemErr>, a: Seq<SemErr>) -> bool {
    a.len() <= b.len() && b.subrange(0, a.len() as int) == a
}

proof fn lemma_starts_trans(a: Seq<SemErr>, b: Seq<SemErr>, c: Seq<SemErr>)
    requires
        starts(b, a),
        starts(c, b),
    ensures
        starts(c, a),
{
    assert(c.subrange(0, a.len() as int) =~= c.subrange(0, b.len() as int).subrange(0, a.len() as int));
}

proof fn lemma_report_starts(st: SemState, code: ErrorCode, params: Seq<(Seq<char>, Seq<char>)>)
    ensures
        starts(report(st, code, params).errors, st.errors),
{
    assert(report(st, code, params).errors.subrange(0, st.errors.len() as int) =~= st.errors);
}

proof fn lemma_starts_refl(a: Seq<SemErr>)
    ensures
        starts(a, a),
{
    assert(a.subrange(0, a.len() as int) =~= a);
}

/// Analysing a statement only appends errors, and a statement that gets a
/// type gets it without a new error.
pub proof fn law_statement_errors_only_appended(
    funs: spec_fn(Seq<char>) -> Option<FunSig>,
    coros: spec_fn(Seq<char>) -> Option<Block>,
    s: Stmt,
    st: SemState,
)
    ensures
        starts(check_stmt(funs, coros, s, st).1.errors, st.errors),
        check_stmt(funs, coros, s, st).0 is Some ==> check_stmt(funs, coros, s, st).1.errors
            == st.errors,
    decreases s, 1nat,
{
    lemma_starts_refl(st.errors);
    match s {
        Stmt::Arithmetic { operator, left, right } => match right {
            Some(_) => lemma_binary_errors_only_appended(funs, coros, s, st),
            None => {
                law_statement_errors_only_appended(funs, coros, *left, st);
                let st1 = check_stmt(funs, coros, *left, st).1;
                lemma_report_starts(st1, ErrorCode::Semantic003, seq![("node"@, debug_text(*left))]);
                lemma_starts_trans(st.errors, st1.errors, untyped(st1, *left).errors);
            },
        },
        Stmt::Logical { operator, left, right } => match right {
            Some(_) => lemma_binary_errors_only_appended(funs, coros, s, st),
            None => {
                law_statement_errors_only_appended(funs, coros, *left, st);
                let st1 = check_stmt(funs, coros, *left, st).1;
                lemma_report_starts(st1, ErrorCode::Semantic003, seq![("node"@, debug_text(*left))]);
                lemma_starts_trans(st.errors, st1.errors, untyped(st1, *left).errors);
            },
        },
        Stmt::Compare { .. } => lemma_binary_errors_only_appended(funs, coros, s, st),
        Stmt::CoroutineInstantiation { task_name, coroutine_name } => {
            lemma_report_starts(
                st,
                ErrorCode::Semantic004,
                seq![("statement"@, "コルーチン"@), ("name"@, coroutine_name)],
            );
        },
        Stmt::FunctionCall { name, arguments, return_flg } => match funs(name) {
            Some(sig) => {
                lemma_report_starts(
                    st,
                    ErrorCode::Semantic008,
                    seq![
                        ("parameter"@, decimal(sig.parameters.len())),
                        ("argument"@, decimal(arguments.len())),
                        ("name"@, name),
                    ],
                );
                lemma_args_errors_only_appended(funs, coros, sig.parameters, arguments, st);
                let st2 = if sig.is_variadic {
                    st
                } else {
                    check_args(funs, coros, sig.parameters, arguments, st).1
                };
                lemma_report_starts(st2, ErrorCode::Semantic005, seq![("function_name"@, name)]);
                lemma_starts_trans(
                    st.errors,
                    st2.errors,
                    report(st2, ErrorCode::Semantic005, seq![("function_name"@, name)]).errors,
                );
            },
            None => lemma_report_starts(st, ErrorCode::Semantic004, seq![("function_name"@, name)]),
        },
        Stmt::IfStatement { condition_node: _, then_block, else_block } => {
            lemma_block_errors_only_appended(funs, coros, then_block.statements, st);
            let st1 = check_block(funs, coros, then_block.statements, st);
            match else_block {
                Some(e) => {
                    lemma_block_errors_only_appended(funs, coros, e.statements, st1);
                    lemma_starts_trans(
                        st.errors,
                        st1.errors,
                        check_block(funs, coros, e.statements, st1).errors,
                    );
                },
                None => {},
            }
        },
        Stmt::LoopStatement { condition_node: _, block } => {
            lemma_block_errors_only_appended(funs, coros, block.statements, st);
        },
        Stmt::Variable { name } => {
            lemma_report_starts(st, ErrorCode::Semantic007, seq![("variable_name"@, name)]);
        },
        Stmt::VariableAssignment { name, expression } => {
            lemma_report_starts(st, ErrorCode::Semantic007, seq![("variable_name"@, name)]);
            match first_type(st.locals, name) {
                None => {},
                Some(vt) => {
                    law_statement_errors_only_appended(funs, coros, *expression, st);
                    let (t, st1) = check_stmt(funs, coros, *expression, st);
                    let found = match t {
                        Some(t) => t.text(),
                        None => "none"@,
                    };
                    let w = wrong_type(st1, name, vt, found);
                    lemma_report_starts(
                        st1,
                        ErrorCode::Semantic006,
                        seq![("variable_name"@, name), ("variable_type"@, vt.text()), ("value_type"@, found)],
                    );
                    lemma_starts_trans(st.errors, st1.errors, w.errors);
                },
            }
        },
        Stmt::VariableDeclaration { name, variable_type, initializer, doc: _ } => {
            let st1 = SemState { locals: st.locals.push((name, variable_type)), ..st };
            match initializer {
                None => {},
                Some(init) => {
                    law_statement_errors_only_appended(funs, coros, *init, st1);
                    let (t, st2) = check_stmt(funs, coros, *init, st1);
                    let found = match t {
                        Some(t) => t.text(),
                        None => "none"@,
                    };
                    let w = wrong_type(st2, name, variable_type, found);
                    lemma_report_starts(
                        st2,
                        ErrorCode::Semantic006,
                        seq![
                            ("variable_name"@, name),
                            ("variable_type"@, variable_type.text()),
                            ("value_type"@, found),
                        ],
                    );
                    lemma_starts_trans(st.errors, st2.errors, w.errors);
                },
            }
        },
        _ => {},
    }
}

/// The two operands of a binary operation must have the same type: with
/// types `lt` and `rt` that differ, the operation gets no type and
/// `SEMANTIC002` naming both types and the operator is added after the
/// operands' own errors; an operation gets a type only when both operands
/// have that type.
pub proof fn law_binary_operands_share_type(
    funs: spec_fn(Seq<char>) -> Option<FunSig>,
    coros: spec_fn(Seq<char>) -> Option<Block>,
    s: Stmt,
    st: SemState,
)
    requires
        binary_parts(s) is Some,
    ensures
        ({
            let (operator, l, r) = binary_parts(s)->0;
            let (lt, st1) = check_stmt(funs, coros, l, st);
            let (rt, st2) = check_stmt(funs, coros, r, st1);
            let result = check_stmt(funs, coros, s, st);
            &&& lt is Some && rt is Some && lt != rt ==> result == (
                None::<Type>,
                SemState {
                    errors: st2.errors.push(
                        SemErr {
                            code: ErrorCode::Semantic002,
                            params: seq![
                                ("left"@, lt->0.text()),
                                ("operator"@, operator),
                                ("right"@, rt->0.text()),
                            ],
                        },
                    ),
                    ..st2
                },
            )
            &&& result.0 matches Some(t) ==> lt == Some(t) && rt == Some(t)
        }),
{
    assert(check_stmt(funs, coros, s, st) == check_binary(funs, coros, s, st));
}

/// A declared variable is known from its declaration on: the declaration
/// adds it to the variables, its initial value must have the declared type
/// (else `SEMANTIC006` and no type), and a variable declared with no earlier
/// variable of that name reads with the declared type.
pub proof fn law_declaration_types(
    funs: spec_fn(Seq<char>) -> Option<FunSig>,
    coros: spec_fn(Seq<char>) -> Option<Block>,
    name: Seq<char>,
    variable_type: Type,
    init: Stmt,
    doc: Option<Seq<char>>,
    st: SemState,
)
    ensures
        ({
            let s = Stmt::VariableDeclaration { name, variable_type, initializer: Some(Box::new(init)), doc };
            let st1 = SemState { locals: st.locals.push((name, variable_type)), ..st };
            let (t, st2) = check_stmt(funs, coros, init, st1);
            let result = check_stmt(funs, coros, s, st);
            &&& t == Some(variable_type) ==> result == (Some(variable_type), st2)
            &&& t is Some && t != Some(variable_type) ==> result == (
                None::<Type>,
                SemState {
                    errors: st2.errors.push(
                        SemErr {
                            code: ErrorCode::Semantic006,
                            params: seq![
                                ("variable_name"@, name),
                                ("variable_type"@, variable_type.text()),
                                ("value_type"@, t->0.text()),
                            ],
                        },
                    ),
                    ..st2
                },
            )
            &&& result.0 is Some ==> result.0 == Some(variable_type)
        }),
        first_type(st.locals, name) is None ==> check_stmt(
            funs,
            coros,
            Stmt::Variable { name },
            SemState { locals: st.locals.push((name, variable_type)), ..st },
        ) == (Some(variable_type), SemState { locals: st.locals.push((name, variable_type)), ..st }),
        first_type(st.locals, name) is None ==> check_stmt(funs, coros, Stmt::Variable { name }, st).0 is None,
{
    if first_type(st.locals, name) is None {
        lemma_first_type_push(st.locals, name, variable_type);
    }
}

proof fn lemma_first_type_push(entries: Seq<(Seq<char>, Type)>, name: Seq<char>, t: Type)
    requires
        first_type(entries, name) is None,
    ensures
        first_type(entries.push((name, t)), name) == Some(t),
    decreases entries.len(),
{
    if entries.len() > 0 {
        assert(entries.push((name, t)).subrange(1, entries.len() as int + 1) =~= entries.subrange(1, entries.len() as int).push(
            (name, t),
        ));
        lemma_first_type_push(entries.subrange(1, entries.len() as int), name, t);
    }
}

proof fn lemma_binary_errors_only_appended(
    funs: spec_fn(Seq<char>) -> Option<FunSig>,
    coros: spec_fn(Seq<char>) -> Option<Block>,
    s: Stmt,
    st: SemState,
)
    ensures
        starts(check_binary(funs, coros, s, st).1.errors, st.errors),
        check_binary(funs, coros, s, st).0 is Some ==> check_binary(funs, coros, s, st).1.errors
            == st.errors,
    decreases s, 0nat,
{
    lemma_starts_refl(st.errors);
    if binary_parts(s) is Some {
        let (operator, left, right) = binary_parts(s)->0;
        match s {
            Stmt::Arithmetic { operator: _, left: l, right: Some(r) } => {
                assert(decreases_to!(s => *l));
                assert(decreases_to!(s => *r));
            },
            Stmt::Logical { operator: _, left: l, right: Some(r) } => {
                assert(decreases_to!(s => *l));
                assert(decreases_to!(s => *r));
            },
            Stmt::Compare { operator: _, left: l, right: r } => {
                assert(decreases_to!(s => *l));
                assert(decreases_to!(s => *r));
            },
            _ => {},
        }
        law_statement_errors_only_appended(funs, coros, left, st);
        let (lt, st1) = check_stmt(funs, coros, left, st);
        lemma_report_starts(st1, ErrorCode::Semantic003, seq![("node"@, debug_text(left))]);
        lemma_starts_trans(st.errors, st1.errors, untyped(st1, left).errors);
        law_statement_errors_only_appended(funs, coros, right, st1);
        let (rt, st2) = check_stmt(funs, coros, right, st1);
        lemma_starts_trans(st.errors, st1.errors, st2.errors);
        lemma_report_starts(st2, ErrorCode::Semantic003, seq![("node"@, debug_text(right))]);
        lemma_starts_trans(st.errors, st2.errors, untyped(st2, right).errors);
        if lt is Some && rt is Some {
            let p = seq![
                ("left"@, lt->0.text()),
                ("operator"@, operator),
                ("right"@, rt->0.text()),
            ];
            lemma_report_starts(st2, ErrorCode::Semantic002, p);
            lemma_starts_trans(st.errors, st2.errors, report(st2, ErrorCode::Semantic002, p).errors);
        }
    }
}

proof fn lemma_args_errors_only_appended(
    funs: spec_fn(Seq<char>) -> Option<FunSig>,
    coros: spec_fn(Seq<char>) -> Option<Block>,
    params: Seq<(Seq<char>, Type)>,
    args: Seq<Stmt>,
    st: SemState,
)
    ensures
        starts(check_args(funs, coros, params, args, st).1.errors, st.errors),
        check_args(funs, coros, params, args, st).0 ==> check_args(funs, coros, params, args, st).1.errors
            == st.errors,
    decreases args, 0nat,
{
    lemma_starts_refl(st.errors);
    if params.len() != 0 && args.len() != 0 {
        law_statement_errors_only_appended(funs, coros, args[0], st);
        let (t, st1) = check_stmt(funs, coros, args[0], st);
        let found = match t {
            Some(t) => t.text(),
            None => "None"@,
        };
        lemma_report_starts(
            st1,
            ErrorCode::Semantic006,
            seq![("variable_name"@, params[0].0), ("variable_type"@, params[0].1.text()), ("value_type"@, found)],
        );
        lemma_starts_trans(st.errors, st1.errors, wrong_type(st1, params[0].0, params[0].1, found).errors);
        let rest_p = params.subrange(1, params.len() as int);
        let rest_a = args.subrange(1, args.len() as int);
        lemma_args_errors_only_appended(funs, coros, rest_p, rest_a, st1);
        lemma_starts_trans(st.errors, st1.errors, check_args(funs, coros, rest_p, rest_a, st1).1.errors);
    }
}

proof fn lemma_block_errors_only_appended(
    funs: spec_fn(Seq<char>) -> Option<FunSig>,
    coros: spec_fn(Seq<char>) -> Option<Block>,
    stmts: Seq<Stmt>,
    st: SemState,
)
    ensures
        starts(check_block(funs, coros, stmts, st).errors, st.errors),
    decreases stmts, 0nat,
{
    lemma_starts_refl(st.errors);
    if stmts.len() != 0 {
        law_statement_errors_only_appended(funs, coros, stmts[0], st);
        let st1 = check_stmt(funs, coros, stmts[0], st).1;
        let rest = stmts.subrange(1, stmts.len() as int);
        lemma_block_errors_only_appended(funs, coros, rest, st1);
        lemma_starts_trans(st.errors, st1.errors, check_block(funs, coros, rest, st1).errors);
    }
}

} // verus!

verus! {

/// The signature that the function definitions register for `n`: that of
/// the last definition of that name, or, where there is none, the built-in
/// `print`'s.
pub open spec fn registered_sig(defs: Seq<FunctionDefinitionNode>, n: Seq<char>) -> Option<FunSig>
    decreases defs.len(),
{
    if defs.len() == 0 {
        if n == "print"@ {
            Some(FunSig { parameters: seq![], return_type: None, is_variadic: true })
        } else {
            None
        }
    } else if defs.last().name@ == n {
        Some(
            FunSig {
                parameters: params_view(defs.last().parameters@),
                return_type: defs.last().return_type,
                is_variadic: false,
            },
        )
    } else {
        registered_sig(defs.drop_last(), n)
    }
}

/// The body that the coroutine definitions register for `n`: that of the
/// last definition of that name.
pub open spec fn registered_body(defs: Seq<CoroutineDefinitionNode>, n: Seq<char>) -> Option<Block>
    decreases defs.len(),
{
    if defs.len() == 0 {
        None
    } else if defs.last().name@ == n {
        Some(defs.last().block@)
    } else {
        registered_body(defs.drop_last(), n)
    }
}

/// The entry a function definition registers, before its body is analysed.
pub open spec fn fun_entry(f: FunctionDefinitionNode) -> FunctionModel {
    FunctionModel {
        name: f.name@,
        doc: match f.doc {
            Some(d) => d@,
            None => ""@,
        },
        parameters: params_view(f.parameters@),
        return_type: f.return_type,
        locals: seq![],
        locals_parent: None,
        is_variadic: false,
        process: f.block@,
    }
}

/// The entry that the function definitions register for `n`: that of the
/// last definition of that name, or, where there is none, the built-in
/// `print`'s.
pub open spec fn registered_fun(defs: Seq<FunctionDefinitionNode>, n: Seq<char>) -> Option<FunctionModel>
    decreases defs.len(),
{
    if defs.len() == 0 {
        if n == "print"@ {
            Some(super::function_table::print_model())
        } else {
            None
        }
    } else if defs.last().name@ == n {
        Some(fun_entry(defs.last()))
    } else {
        registered_fun(defs.drop_last(), n)
    }
}

/// The entry a coroutine definition registers, before its body is analysed.
pub open spec fn coro_entry(c: CoroutineDefinitionNode) -> CoroutineModel {
    CoroutineModel {
        name: c.name@,
        doc: match c.doc {
            Some(d) => d@,
            None => ""@,
        },
        locals: seq![],
        locals_parent: None,
        process: c.block@,
    }
}

/// The entry that the coroutine definitions register for `n`: that of the
/// last definition of that name.
pub open spec fn registered_coro(defs: Seq<CoroutineDefinitionNode>, n: Seq<char>) -> Option<CoroutineModel>
    decreases defs.len(),
{
    if defs.len() == 0 {
        None
    } else if defs.last().name@ == n {
        Some(coro_entry(defs.last()))
    } else {
        registered_coro(defs.drop_last(), n)
    }
}

/// A function entry without what the analysis of bodies fills in (its
/// variables).
pub open spec fn fun_shape(m: Option<FunctionModel>) -> Option<FunctionModel> {
    match m {
        Some(m) => Some(FunctionModel { locals: seq![], ..m }),
        None => None,
    }
}

/// A coroutine entry without what the analysis of bodies fills in.
pub open spec fn coro_shape(m: Option<CoroutineModel>) -> Option<CoroutineModel> {
    match m {
        Some(m) => Some(CoroutineModel { locals: seq![], ..m }),
        None => None,
    }
}

/// The variables the analysis of a program gives each definition, by name.
pub open spec fn spec_locals(ast: RootNode) -> Map<Seq<char>, Seq<(Seq<char>, Type)>> {
    check_defs(
        |n: Seq<char>| registered_sig(ast.functions@, n),
        |n: Seq<char>| registered_body(ast.coroutines@, n),
        definitions(ast),
        initial_state(),
        Map::empty(),
    ).1
}

/// The entries the definitions register have no variables yet.
proof fn lemma_fun_shape(defs: Seq<FunctionDefinitionNode>, n: Seq<char>)
    ensures
        fun_shape(registered_fun(defs, n)) == registered_fun(defs, n),
    decreases defs.len(),
{
    if defs.len() > 0 && defs.last().name@ != n {
        lemma_fun_shape(defs.drop_last(), n);
    }
}

/// The entries the coroutine definitions register have no variables yet.
proof fn lemma_coro_shape(defs: Seq<CoroutineDefinitionNode>, n: Seq<char>)
    ensures
        coro_shape(registered_coro(defs, n)) == registered_coro(defs, n),
    decreases defs.len(),
{
    if defs.len() > 0 && defs.last().name@ != n {
        lemma_coro_shape(defs.drop_last(), n);
    }
}

/// The definitions in the order they are analysed: the functions, then the
/// coroutines; each as its name and body.
pub open spec fn definitions(ast: RootNode) -> Seq<(Seq<char>, Block)> {
    ast.functions@.map_values(|f: FunctionDefinitionNode| (f.name@, f.block@)) + ast.coroutines@.map_values(
        |c: CoroutineDefinitionNode| (c.name@, c.block@),
    )
}

/// The variables that the definitions of `n` analysed so far declared.
pub open spec fn scope_of(scopes: Map<Seq<char>, Seq<(Seq<char>, Type)>>, n: Seq<char>) -> Seq<(Seq<char>, Type)> {
    if scopes.contains_key(n) {
        scopes[n]
    } else {
        seq![]
    }
}

/// The analysis of definitions in order. Each body is analysed with the
/// variables that earlier definitions of the same name declared; errors and
/// tasks carry over from one definition to the next.
pub open spec fn check_defs(
    funs: spec_fn(Seq<char>) -> Option<FunSig>,
    coros: spec_fn(Seq<char>) -> Option<Block>,
    defs: Seq<(Seq<char>, Block)>,
    st: SemState,
    scopes: Map<Seq<char>, Seq<(Seq<char>, Type)>>,
) -> (SemState, Map<Seq<char>, Seq<(Seq<char>, Type)>>)
    decreases defs.len(),
{
    if defs.len() == 0 {
        (st, scopes)
    } else {
        let (name, block) = defs[0];
        let st1 = check_block(funs, coros, block.statements, SemState { locals: scope_of(scopes, name), ..st });
        check_defs(funs, coros, defs.subrange(1, defs.len() as int), st1, scopes.insert(name, st1.locals))
    }
}

/// The state before any definition is analysed.
pub open spec fn initial_state() -> SemState {
    SemState { locals: seq![], errors: seq![], tasks: |n: Seq<char>| None }
}

/// The outcome of analysing a program: the state after its last definition.
pub open spec fn spec_semantic(ast: RootNode) -> SemState {
    check_defs(
        |n: Seq<char>| registered_sig(ast.functions@, n),
        |n: Seq<char>| registered_body(ast.coroutines@, n),
        definitions(ast),
        initial_state(),
        Map::empty(),
    ).0
}

/// Every defined function has a registered signature.
proof fn lemma_registered_sig(defs: Seq<FunctionDefinitionNode>, x: int)
    requires
        0 <= x < defs.len(),
    ensures
        registered_sig(defs, defs[x].name@) is Some,
    decreases defs.len(),
{
    if defs.last().name@ != defs[x].name@ {
        lemma_registered_sig(defs.drop_last(), x);
    }
}

/// Every defined coroutine has a registered body.
proof fn lemma_registered_body(defs: Seq<CoroutineDefinitionNode>, x: int)
    requires
        0 <= x < defs.len(),
    ensures
        registered_body(defs, defs[x].name@) is Some,
    decreases defs.len(),
{
    if defs.last().name@ != defs[x].name@ {
        lemma_registered_body(defs.drop_last(), x);
    }
}

/// The model of a reported error.
pub open spec fn err_view(e: ErrorContext) -> SemErr {
    SemErr { code: e.error_code, params: e.params_view() }
}

/// The models of a list of reported errors.
pub open spec fn errs_view(v: Seq<ErrorContext>) -> Seq<SemErr> {
    v.map_values(|e: ErrorContext| err_view(e))
}

/// The signature of a function's entry.
pub open spec fn sig_of(m: Option<FunctionModel>) -> Option<FunSig> {
    match m {
        Some(m) => Some(
            FunSig { parameters: m.parameters, return_type: m.return_type, is_variadic: m.is_variadic },
        ),
        None => None,
    }
}

/// The body of a coroutine's entry.
pub open spec fn body_of(m: Option<CoroutineModel>) -> Option<Block> {
    match m {
        Some(m) => Some(m.process),
        None => None,
    }
}

pub struct Semantic {
    pub function_table: FunctionTable,
    pub variable_table: VariableTable,
    pub coroutine_table: CoroutineTable,
    pub task_table: TaskTable,
    pub errors: Vec<ErrorContext>,
    analysis_name: String,
    locals: VariableScope,
}

impl Semantic {
    /// The entries of the function table, in order.
    pub closed spec fn function_entries(&self) -> Seq<FunctionInfo> {
        self.function_table.table@
    }

    /// The tasks, in order.
    pub closed spec fn task_entries(&self) -> Seq<CoroutineTask> {
        self.task_table.table@
    }

    /// The coroutine table.
    pub closed spec fn coroutines(&self) -> CoroutineTable {
        self.coroutine_table
    }

    /// The entries of the function table, in order.
    pub fn function_infos(&self) -> (r: &Vec<FunctionInfo>)
        ensures
            r@ == self.function_entries(),
    {
        &self.function_table.table
    }

    /// The tasks, in order.
    pub fn tasks(&self) -> (r: &Vec<CoroutineTask>)
        ensures
            r@ == self.task_entries(),
    {
        &self.task_table.table
    }

    /// The coroutine table.
    pub fn coroutine_table(&self) -> (r: &CoroutineTable)
        ensures
            *r == self.coroutines(),
    {
        &self.coroutine_table
    }

    /// The entry of the function `n`.
    pub closed spec fn function_entry(&self, n: Seq<char>) -> Option<FunctionModel> {
        self.function_table.lookup(n)
    }

    /// The tables of functions and tasks that a run of the program uses.
    pub fn into_tables(self) -> (r: (FunctionTable, TaskTable))
        requires
            self.inv(),
        ensures
            forall|n: Seq<char>| #[trigger] r.0.lookup(n) == self.function_entry(n),
            forall|n: Seq<char>| #[trigger] r.1.lookup(n) == self.task(n),
            r.0.wf(),
            r.1.wf(),
    {
        (self.function_table, self.task_table)
    }

    /// The errors the analysis recorded.
    pub closed spec fn recorded_errors(&self) -> Seq<ErrorContext> {
        self.errors@
    }

    /// The entry of the function `n`, without the variables its body
    /// declares.
    pub closed spec fn function_shape(&self, n: Seq<char>) -> Option<FunctionModel> {
        fun_shape(self.function_table.lookup(n))
    }

    /// The entry of the coroutine `n`, without the variables its body
    /// declares.
    pub closed spec fn coroutine_shape(&self, n: Seq<char>) -> Option<CoroutineModel> {
        coro_shape(self.coroutine_table.lookup(n))
    }

    /// The variables the tables hold for the definition `n`.
    pub closed spec fn definition_locals(&self, n: Seq<char>) -> Seq<(Seq<char>, Type)> {
        self.table_locals(n)
    }

    /// The variables the coroutine table holds for `n`.
    pub closed spec fn coroutine_locals(&self, n: Seq<char>) -> Seq<(Seq<char>, Type)> {
        match self.coroutine_table.lookup(n) {
            Some(m) => m.locals,
            None => seq![],
        }
    }

    /// The tables are well formed, and no scope of variables has a parent.
    pub closed spec fn inv(&self) -> bool {
        &&& self.function_table.wf()
        &&& self.coroutine_table.wf()
        &&& self.task_table.wf()
        &&& self.locals.parent() is None
        &&& forall|n: Seq<char>| #[trigger] self.function_table.lookup(n) matches Some(m)
            ==> m.locals_parent is None
        &&& forall|n: Seq<char>| #[trigger] self.coroutine_table.lookup(n) matches Some(m)
            ==> m.locals_parent is None
    }

    /// The signatures of the registered functions.
    pub closed spec fn funs(&self) -> spec_fn(Seq<char>) -> Option<FunSig> {
        |n: Seq<char>| sig_of(self.function_table.lookup(n))
    }

    /// The bodies of the registered coroutines.
    pub closed spec fn coros(&self) -> spec_fn(Seq<char>) -> Option<Block> {
        |n: Seq<char>| body_of(self.coroutine_table.lookup(n))
    }

    /// The task registered under `n`, if any.
    pub closed spec fn task(&self, n: Seq<char>) -> Option<TaskModel> {
        self.task_table.lookup(n)
    }

    /// The state of the analysis of the current definition.
    pub closed spec fn state(&self) -> SemState {
        SemState {
            locals: self.locals.entries(),
            errors: errs_view(self.errors@),
            tasks: |n: Seq<char>| self.task_table.lookup(n),
        }
    }

    /// The analysis of one statement (its type, if it has one), as
    /// `check_stmt` states.
    fn semantic_statement(&mut self, statement: &PrivateNode) -> (r: Option<Type>)
        requires
            old(self).inv(),
        ensures
            final(self).inv(),
            final(self).function_table == old(self).function_table,
            final(self).coroutine_table == old(self).coroutine_table,
            r == check_stmt(old(self).funs(), old(self).coros(), statement@, old(self).state()).0,
            final(self).state() == check_stmt(old(self).funs(), old(self).coros(), statement@, old(self).state()).1,
        decreases statement, 1nat,
    {
        match statement {
            PrivateNode::Arithmetic { operator: _, left: _, right } => match right {
                Some(_) => self.semantic_binary(statement),
                None => self.semantic_unary(statement),
            },
            PrivateNode::Logical { operator: _, left: _, right } => match right {
                Some(_) => self.semantic_binary(statement),
                None => self.semantic_unary(statement),
            },
            PrivateNode::Compare { .. } => self.semantic_binary(statement),
            PrivateNode::CoroutineInstantiation { .. } => self.semantic_instantiation(statement),
            PrivateNode::CoroutineResume { task_name } => {
                let _ = self.task_table.get_task(task_name.as_str());
                None
            },
            PrivateNode::FunctionCall { .. } => self.semantic_call(statement),
            PrivateNode::IfStatement { .. } | PrivateNode::LoopStatement { .. } => self.semantic_control(statement),
            PrivateNode::Literal { value } => match value {
                crate::common::types::LiteralValue::Bool(_) => Some(Type::Bool),
                crate::common::types::LiteralValue::Float(_) => Some(Type::Float),
                crate::common::types::LiteralValue::Int(_) => Some(Type::Int),
                crate::common::types::LiteralValue::String(_) => Some(Type::String),
                crate::common::types::LiteralValue::Null => None,
            },
            PrivateNode::Variable { name } => {
                match self.locals.get_type(name.as_str()) {
                    Some(variable_type) => Some(variable_type),
                    None => {
                        let params = vec![("variable_name", name.as_str())];
                        assert(crate::error::error_context::str_pairs_view(params@) =~= seq![
                            ("variable_name"@, name@),
                        ]);
                        self.report(ErrorCode::Semantic007, params);
                        None
                    },
                }
            },
            PrivateNode::VariableAssignment { .. } => self.semantic_assignment(statement),
            PrivateNode::VariableDeclaration { .. } => self.semantic_declaration(statement),
            _ => None,
        }
    }

    /// An arithmetic or logical operation with one operand.
    fn semantic_unary(&mut self, statement: &PrivateNode) -> (r: Option<Type>)
        requires
            old(self).inv(),
            statement@ matches Stmt::Arithmetic { right: None, .. } || statement@ matches Stmt::Logical { right: None, .. },
        ensures
            final(self).inv(),
            final(self).function_table == old(self).function_table,
            final(self).coroutine_table == old(self).coroutine_table,
            r == check_stmt(old(self).funs(), old(self).coros(), statement@, old(self).state()).0,
            final(self).state() == check_stmt(old(self).funs(), old(self).coros(), statement@, old(self).state()).1,
        decreases statement, 0nat,
    {
        let left = match statement {
            PrivateNode::Arithmetic { operator: _, left, right: None } => left,
            PrivateNode::Logical { operator: _, left, right: None } => left,
            _ => {
                return None;
            },
        };
        let t = self.semantic_statement(left);
        match t {
            Some(t) => Some(t),
            None => {
                self.report_untyped(left);
                None
            },
        }
    }

    /// `coro task = coroutine();`: registers the task.
    fn semantic_instantiation(&mut self, statement: &PrivateNode) -> (r: Option<Type>)
        requires
            old(self).inv(),
            statement@ is CoroutineInstantiation,
        ensures
            final(self).inv(),
            final(self).function_table == old(self).function_table,
            final(self).coroutine_table == old(self).coroutine_table,
            r == check_stmt(old(self).funs(), old(self).coros(), statement@, old(self).state()).0,
            final(self).state() == check_stmt(old(self).funs(), old(self).coros(), statement@, old(self).state()).1,
        decreases statement, 0nat,
    {
        let ghost st = self.state();
        let (task_name, coroutine_name) = match statement {
            PrivateNode::CoroutineInstantiation { task_name, coroutine_name } => (task_name, coroutine_name),
            _ => {
                return None;
            },
        };
        match self.coroutine_table.get_function_info(coroutine_name.as_str()) {
            Some(coroutine_info) => {
                self.task_table.add_task(
                    task_name.as_str(),
                    coroutine_name.as_str(),
                    &coroutine_info.process,
                );
                assert(self.state() =~= spawn(st, task_name@, coroutine_name@, coroutine_info.process@));
            },
            None => {
                let params = vec![("statement", "コルーチン"), ("name", coroutine_name.as_str())];
                assert(crate::error::error_context::str_pairs_view(params@) =~= seq![
                    ("statement"@, "コルーチン"@),
                    ("name"@, coroutine_name@),
                ]);
                self.report(ErrorCode::Semantic004, params);
            },
        }
        None
    }

    /// A call: the function must exist and its arguments must match its parameters.
    fn semantic_call(&mut self, statement: &PrivateNode) -> (r: Option<Type>)
        requires
            old(self).inv(),
            statement@ is FunctionCall,
        ensures
            final(self).inv(),
            final(self).function_table == old(self).function_table,
            final(self).coroutine_table == old(self).coroutine_table,
            r == check_stmt(old(self).funs(), old(self).coros(), statement@, old(self).state()).0,
            final(self).state() == check_stmt(old(self).funs(), old(self).coros(), statement@, old(self).state()).1,
        decreases statement, 0nat,
    {
        let (name, arguments, return_flg) = match statement {
            PrivateNode::FunctionCall { name, arguments, return_flg } => (name, arguments, return_flg),
            _ => {
                return None;
            },
        };
        proof {
            lemma_nodes_view(arguments@);
        }
        match self.function_table.get_function_info(name.as_str()) {
            Some(function_info) => {
                if !function_info.is_variadic && function_info.parameters.len() != arguments.len() {
                    let parameter_count = decimal_string(function_info.parameters.len() as u64);
                    let argument_count = decimal_string(arguments.len() as u64);
                    let params = vec![
                        ("parameter", parameter_count.as_str()),
                        ("argument", argument_count.as_str()),
                        ("name", name.as_str()),
                    ];
                    assert(crate::error::error_context::str_pairs_view(params@) =~= seq![
                        ("parameter"@, decimal(params_view(function_info.parameters@).len())),
                        ("argument"@, decimal(nodes_view(arguments@).len())),
                        ("name"@, name@),
                    ]);
                    self.report(ErrorCode::Semantic008, params);
                    return None;
                }
                if !function_info.is_variadic {
                    let ok = self.semantic_args(&function_info.parameters, arguments);
                    if !ok {
                        return None;
                    }
                }
                if *return_flg {
                    match function_info.return_type {
                        Some(return_type) => return Some(return_type),
                        None => {
                            let params = vec![("function_name", name.as_str())];
                            assert(crate::error::error_context::str_pairs_view(params@) =~= seq![
                                ("function_name"@, name@),
                            ]);
                            self.report(ErrorCode::Semantic005, params);
                            return None;
                        },
                    }
                }
            },
            None => {
                let params = vec![("function_name", name.as_str())];
                assert(crate::error::error_context::str_pairs_view(params@) =~= seq![
                    ("function_name"@, name@),
                ]);
                self.report(ErrorCode::Semantic004, params);
            },
        }
        None
    }

    /// An `if` or a `while`: its blocks are analysed in turn.
    fn semantic_control(&mut self, statement: &PrivateNode) -> (r: Option<Type>)
        requires
            old(self).inv(),
            statement@ is IfStatement || statement@ is LoopStatement,
        ensures
            final(self).inv(),
            final(self).function_table == old(self).function_table,
            final(self).coroutine_table == old(self).coroutine_table,
            r == check_stmt(old(self).funs(), old(self).coros(), statement@, old(self).state()).0,
            final(self).state() == check_stmt(old(self).funs(), old(self).coros(), statement@, old(self).state()).1,
        decreases statement, 0nat,
    {
        match statement {
            PrivateNode::IfStatement { condition_node: _, then_block, else_block } => {
                self.semantic_block(then_block);
                match else_block {
                    Some(else_block) => {
                        self.semantic_block(else_block);
                    },
                    None => {},
                }
            },
            PrivateNode::LoopStatement { condition_node: _, block } => {
                self.semantic_block(block);
            },
            _ => {},
        }
        None
    }

    /// `name = expression;`: the variable must exist and take the expression's type.
    fn semantic_assignment(&mut self, statement: &PrivateNode) -> (r: Option<Type>)
        requires
            old(self).inv(),
            statement@ is VariableAssignment,
        ensures
            final(self).inv(),
            final(self).function_table == old(self).function_table,
            final(self).coroutine_table == old(self).coroutine_table,
            r == check_stmt(old(self).funs(), old(self).coros(), statement@, old(self).state()).0,
            final(self).state() == check_stmt(old(self).funs(), old(self).coros(), statement@, old(self).state()).1,
        decreases statement, 0nat,
    {
        let (name, expression) = match statement {
            PrivateNode::VariableAssignment { name, expression } => (name, expression),
            _ => {
                return None;
            },
        };
        let variable_type = match self.locals.get_type(name.as_str()) {
            Some(variable_type) => variable_type,
            None => {
                let params = vec![("variable_name", name.as_str())];
                assert(crate::error::error_context::str_pairs_view(params@) =~= seq![
                    ("variable_name"@, name@),
                ]);
                self.report(ErrorCode::Semantic007, params);
                return None;
            },
        };
        match self.semantic_statement(expression) {
            Some(value_type) => {
                if value_type == variable_type {
                    Some(value_type)
                } else {
                    let found = value_type.to_string();
                    self.report_wrong_type(name.as_str(), variable_type, found.as_str());
                    None
                }
            },
            None => {
                self.report_wrong_type(name.as_str(), variable_type, "none");
                None
            },
        }
    }

    /// `let name: type = initializer;`: declares the variable; the initializer must have its type.
    fn semantic_declaration(&mut self, statement: &PrivateNode) -> (r: Option<Type>)
        requires
            old(self).inv(),
            statement@ is VariableDeclaration,
        ensures
            final(self).inv(),
            final(self).function_table == old(self).function_table,
            final(self).coroutine_table == old(self).coroutine_table,
            r == check_stmt(old(self).funs(), old(self).coros(), statement@, old(self).state()).0,
            final(self).state() == check_stmt(old(self).funs(), old(self).coros(), statement@, old(self).state()).1,
        decreases statement, 0nat,
    {
        let (name, variable_type, initializer) = match statement {
            PrivateNode::VariableDeclaration { name, variable_type, initializer, doc: _ } => (name, variable_type, initializer),
            _ => {
                return None;
            },
        };
        self.locals.variable_declare(name.as_str(), variable_type);
        match initializer {
            Some(node) => {
                match self.semantic_statement(node) {
                    Some(value_type) => {
                        if value_type == *variable_type {
                            Some(*variable_type)
                        } else {
                            let found = value_type.to_string();
                            self.report_wrong_type(name.as_str(), *variable_type, found.as_str());
                            None
                        }
                    },
                    None => {
                        self.report_wrong_type(name.as_str(), *variable_type, "none");
                        None
                    },
                }
            },
            None => None,
        }
    }

    /// The analysis of a binary operation, as `check_binary` states.
    fn semantic_binary(&mut self, statement: &PrivateNode) -> (r: Option<Type>)
        requires
            old(self).inv(),
            binary_parts(statement@) is Some,
        ensures
            final(self).inv(),
            final(self).function_table == old(self).function_table,
            final(self).coroutine_table == old(self).coroutine_table,
            r == check_binary(old(self).funs(), old(self).coros(), statement@, old(self).state()).0,
            final(self).state() == check_binary(old(self).funs(), old(self).coros(), statement@, old(self).state()).1,
        decreases statement, 0nat,
    {
        let (operator, left, right) = match statement {
            PrivateNode::Arithmetic { operator, left, right: Some(right) } => (operator.to_string(), left, right),
            PrivateNode::Logical { operator, left, right: Some(right) } => (operator.to_string(), left, right),
            PrivateNode::Compare { operator, left, right } => (operator.to_string(), left, right),
            _ => {
                return None;
            },
        };
        let left_type = match self.semantic_statement(left) {
            Some(left_type) => left_type,
            None => {
                self.report_untyped(left);
                return None;
            },
        };
        let right_type = match self.semantic_statement(right) {
            Some(right_type) => right_type,
            None => {
                self.report_untyped(right);
                return None;
            },
        };
        if left_type != right_type {
            let left_text = left_type.to_string();
            let right_text = right_type.to_string();
            let params = vec![
                ("left", left_text.as_str()),
                ("operator", operator.as_str()),
                ("right", right_text.as_str()),
            ];
            assert(crate::error::error_context::str_pairs_view(params@) =~= seq![
                ("left"@, left_type.text()),
                ("operator"@, operator@),
                ("right"@, right_type.text()),
            ]);
            self.report(ErrorCode::Semantic002, params);
            return None;
        }
        Some(left_type)
    }

    /// The analysis of the arguments of a call, as `check_args` states.
    fn semantic_args(&mut self, params: &Vec<ParameterNode>, arguments: &Vec<PrivateNode>) -> (r: bool)
        requires
            old(self).inv(),
        ensures
            final(self).inv(),
            final(self).function_table == old(self).function_table,
            final(self).coroutine_table == old(self).coroutine_table,
            r == check_args(old(self).funs(), old(self).coros(), params_view(params@), nodes_view(arguments@), old(self).state()).0,
            final(self).state() == check_args(old(self).funs(), old(self).coros(), params_view(params@), nodes_view(arguments@), old(self).state()).1,
        decreases arguments, 0nat,
    {
        let ghost f = self.funs();
        let ghost c = self.coros();
        let ghost whole = check_args(f, c, params_view(params@), nodes_view(arguments@), self.state());
        let ghost pv = params_view(params@);
        let ghost av = nodes_view(arguments@);
        proof {
            lemma_nodes_view(arguments@);
            assert(pv.subrange(0, pv.len() as int) =~= pv);
            assert(av.subrange(0, av.len() as int) =~= av);
        }
        let mut i: usize = 0;
        while i < params.len() && i < arguments.len()
            invariant
                self.inv(),
                self.function_table == old(self).function_table,
                self.coroutine_table == old(self).coroutine_table,
                f == old(self).funs(),
                c == old(self).coros(),
                pv == params_view(params@),
                av == nodes_view(arguments@),
                av.len() == arguments@.len(),
                forall|j: int| 0 <= j < arguments@.len() ==> #[trigger] av[j] == arguments@[j]@,
                i <= params.len(),
                i <= arguments.len(),
                whole == check_args(f, c, pv.subrange(i as int, pv.len() as int), av.subrange(i as int, av.len() as int), self.state()),
                whole == check_args(old(self).funs(), old(self).coros(), params_view(params@), nodes_view(arguments@), old(self).state()),
            decreases arguments.len() - i,
        {
            proof {
                assert(decreases_to!(arguments => arguments[i as int]));
            }
            let ghost st = self.state();
            let ghost ps = pv.subrange(i as int, pv.len() as int);
            let ghost as_ = av.subrange(i as int, av.len() as int);
            assert(ps[0] == (params@[i as int].name@, params@[i as int].variable_type));
            assert(as_[0] == arguments@[i as int]@);
            assert(self.funs() =~= f);
            assert(self.coros() =~= c);
            let t = self.semantic_statement(&arguments[i]);
            let ghost st1 = self.state();
            assert(ps.len() > 0 && as_.len() > 0);
            assert(check_stmt(f, c, as_[0], st) == (t, st1));
            match t {
                Some(t) => {
                    if t != params[i].variable_type {
                        let found = t.to_string();
                        self.report_wrong_type(params[i].name.as_str(), params[i].variable_type, found.as_str());
                        assert(whole == check_args(f, c, ps, as_, st));
                        assert(self.state() == wrong_type(st1, ps[0].0, ps[0].1, t.text()));
                        return false;
                    }
                },
                None => {
                    self.report_wrong_type(params[i].name.as_str(), params[i].variable_type, "None");
                    return false;
                },
            }
            assert(ps.subrange(1, ps.len() as int) =~= pv.subrange(i + 1, pv.len() as int));
            assert(as_.subrange(1, as_.len() as int) =~= av.subrange(i + 1, av.len() as int));
            i = i + 1;
        }
        true
    }

    /// The analysis of the statements of a block, as `check_block` states.
    fn semantic_block(&mut self, block: &BlockNode)
        requires
            old(self).inv(),
        ensures
            final(self).inv(),
            final(self).function_table == old(self).function_table,
            final(self).coroutine_table == old(self).coroutine_table,
            final(self).state() == check_block(old(self).funs(), old(self).coros(), block@.statements, old(self).state()),
        decreases block, 0nat,
    {
        let ghost f = self.funs();
        let ghost c = self.coros();
        let ghost sv = block@.statements;
        let ghost whole = check_block(f, c, sv, self.state());
        proof {
            lemma_nodes_view(block.statements@);
            assert(sv.subrange(0, sv.len() as int) =~= sv);
        }
        let mut i: usize = 0;
        while i < block.statements.len()
            invariant
                self.inv(),
                self.function_table == old(self).function_table,
                self.coroutine_table == old(self).coroutine_table,
                f == old(self).funs(),
                c == old(self).coros(),
                sv == block@.statements,
                sv.len() == block.statements@.len(),
                forall|j: int| 0 <= j < block.statements@.len() ==> #[trigger] sv[j] == block.statements@[j]@,
                i <= block.statements.len(),
                whole == check_block(f, c, sv.subrange(i as int, sv.len() as int), self.state()),
            decreases block.statements.len() - i,
        {
            proof {
                assert(decreases_to!(block => block.statements));
                assert(decreases_to!(block.statements => block.statements[i as int]));
            }
            let ghost rest = sv.subrange(i as int, sv.len() as int);
            assert(rest[0] == block.statements@[i as int]@);
            let _ = self.semantic_statement(&block.statements[i]);
            assert(self.funs() =~= f);
            assert(self.coros() =~= c);
            assert(rest.subrange(1, rest.len() as int) =~= sv.subrange(i + 1, sv.len() as int));
            i = i + 1;
        }
        assert(sv.subrange(i as int, sv.len() as int) =~= Seq::<Stmt>::empty());
    }

    /// The variables the tables hold for the definition named `n`: those of
    /// the function of that name, else of the coroutine of that name.
    pub closed spec fn table_locals(&self, n: Seq<char>) -> Seq<(Seq<char>, Type)> {
        match self.function_table.lookup(n) {
            Some(m) => m.locals,
            None => match self.coroutine_table.lookup(n) {
                Some(m) => m.locals,
                None => seq![],
            },
        }
    }

    fn new() -> (r: Self)
        ensures
            r.inv(),
            r.errors@.len() == 0,
            forall|n: Seq<char>| r.task_table.lookup(n) is None,
            forall|n: Seq<char>| #[trigger] r.function_table.lookup(n) == (if n == "print"@ {
                Some(super::function_table::print_model())
            } else {
                None
            }),
            forall|n: Seq<char>| r.coroutine_table.lookup(n) is None,
    {
        Self {
            function_table: FunctionTable::new(),
            variable_table: VariableTable::new(),
            coroutine_table: CoroutineTable::new(),
            task_table: TaskTable::new(),
            errors: Vec::new(),
            analysis_name: String::new(),
            locals: VariableScope::new(None),
        }
    }

    /// A copy of the variables the tables hold for the definition `name`.
    fn load_locals(&self, name: &str) -> (r: VariableScope)
        requires
            self.inv(),
        ensures
            r.entries() == self.table_locals(name@),
            r.parent() is None,
    {
        match self.function_table.get_function_info(name) {
            Some(info) => info.local_variables,
            None => match self.coroutine_table.get_function_info(name) {
                Some(info) => info.local_variables,
                None => VariableScope::new(None),
            },
        }
    }

    /// Stores the variables of the definition `name` in its entry.
    fn store_locals(&mut self, name: &str, locals: VariableScope)
        requires
            old(self).inv(),
            locals.parent() is None,
        ensures
            final(self).inv(),
            final(self).funs() == old(self).funs(),
            final(self).coros() == old(self).coros(),
            final(self).task_table == old(self).task_table,
            final(self).errors == old(self).errors,
            (old(self).function_table.lookup(name@) is Some || old(self).coroutine_table.lookup(name@) is Some)
                ==> final(self).table_locals(name@) == locals.entries(),
            forall|n: Seq<char>| n != name@ ==> final(self).table_locals(n) == old(self).table_locals(n),
            forall|n: Seq<char>| n != name@ ==> final(self).coroutine_table.lookup(n) == old(self).coroutine_table.lookup(n),
            old(self).function_table.lookup(name@) is Some ==> final(self).coroutine_table == old(self).coroutine_table,
            forall|n: Seq<char>| (final(self).function_table.lookup(n) is Some) == (old(self).function_table.lookup(n) is Some),
            forall|n: Seq<char>| (final(self).coroutine_table.lookup(n) is Some) == (old(self).coroutine_table.lookup(n) is Some),
            forall|n: Seq<char>| #[trigger] fun_shape(final(self).function_table.lookup(n)) == fun_shape(old(self).function_table.lookup(n)),
            forall|n: Seq<char>| #[trigger] coro_shape(final(self).coroutine_table.lookup(n)) == coro_shape(old(self).coroutine_table.lookup(n)),
    {
        let ghost f = self.funs();
        let ghost c = self.coros();
        let ghost before = *self;
        match self.function_table.get_function_info(name) {
            Some(_) => {
                self.function_table.set_local_variables(name, locals);
            },
            None => {
                self.coroutine_table.set_local_variables(name, locals);
            },
        }
        assert forall|n: Seq<char>| #[trigger] fun_shape(self.function_table.lookup(n)) == fun_shape(before.function_table.lookup(n)) by {}
        assert forall|n: Seq<char>| #[trigger] coro_shape(self.coroutine_table.lookup(n)) == coro_shape(before.coroutine_table.lookup(n)) by {}
        assert(self.funs() =~= f);
        assert(self.coros() =~= c);
    }

    /// 意味解析処理: registers the definitions, then analyses them in order.
    fn semantic(&mut self, ast: &RootNode)
        requires
            old(self).inv(),
            old(self).errors@.len() == 0,
            forall|n: Seq<char>| old(self).task_table.lookup(n) is None,
            forall|n: Seq<char>| #[trigger] old(self).function_table.lookup(n) == (if n == "print"@ {
                Some(super::function_table::print_model())
            } else {
                None
            }),
            forall|n: Seq<char>| old(self).coroutine_table.lookup(n) is None,
        ensures
            final(self).inv(),
            final(self).funs() == (|n: Seq<char>| registered_sig(ast.functions@, n)),
            final(self).coros() == (|n: Seq<char>| registered_body(ast.coroutines@, n)),
            errs_view(final(self).errors@) == spec_semantic(*ast).errors,
            forall|n: Seq<char>| final(self).task_table.lookup(n) == (spec_semantic(*ast).tasks)(n),
            forall|n: Seq<char>| #[trigger] fun_shape(final(self).function_table.lookup(n)) == registered_fun(ast.functions@, n),
            forall|n: Seq<char>| #[trigger] coro_shape(final(self).coroutine_table.lookup(n)) == registered_coro(ast.coroutines@, n),
            forall|n: Seq<char>| #[trigger] final(self).table_locals(n) == scope_of(spec_locals(*ast), n),
            forall|n: Seq<char>| #[trigger] final(self).coroutine_table.lookup(n) is Some && final(self).function_table.lookup(n) is Some
                    ==> final(self).coroutine_table.lookup(n)->0.locals == Seq::<(Seq<char>, Type)>::empty(),
    {
        let ghost fdefs = ast.functions@;
        let ghost cdefs = ast.coroutines@;
        // 関数の登録
        let mut i: usize = 0;
        while i < ast.functions.len()
            invariant
                self.inv(),
                fdefs == ast.functions@,
                i <= ast.functions.len(),
                self.errors@.len() == 0,
                forall|n: Seq<char>| self.task_table.lookup(n) is None,
                forall|n: Seq<char>| self.coroutine_table.lookup(n) is None,
                forall|n: Seq<char>| #[trigger] sig_of(self.function_table.lookup(n)) == registered_sig(fdefs.take(i as int), n),
                forall|n: Seq<char>| #[trigger] self.function_table.lookup(n) == registered_fun(fdefs.take(i as int), n),
                forall|n: Seq<char>| #[trigger] self.function_table.lookup(n) matches Some(m) ==> m.locals == Seq::<(Seq<char>, Type)>::empty(),
            decreases ast.functions.len() - i,
        {
            let f = &ast.functions[i];
            let doc = match &f.doc {
                Some(d) => Some(d.as_str()),
                None => None,
            };
            self.function_table.function_definition(
                f.name.as_str(),
                doc,
                &f.parameters,
                &f.return_type,
                false,
                &f.block,
            );
            i = i + 1;
            assert(fdefs.take(i as int).drop_last() =~= fdefs.take((i - 1) as int));
            assert(fdefs.take(i as int).last() == fdefs[i - 1]);
        }
        assert(fdefs.take(fdefs.len() as int) =~= fdefs);
        // コルーチンの登録
        let mut j: usize = 0;
        while j < ast.coroutines.len()
            invariant
                self.inv(),
                fdefs == ast.functions@,
                cdefs == ast.coroutines@,
                j <= ast.coroutines.len(),
                self.errors@.len() == 0,
                forall|n: Seq<char>| self.task_table.lookup(n) is None,
                forall|n: Seq<char>| #[trigger] sig_of(self.function_table.lookup(n)) == registered_sig(fdefs, n),
                forall|n: Seq<char>| #[trigger] self.function_table.lookup(n) matches Some(m) ==> m.locals == Seq::<(Seq<char>, Type)>::empty(),
                forall|n: Seq<char>| #[trigger] body_of(self.coroutine_table.lookup(n)) == registered_body(cdefs.take(j as int), n),
                forall|n: Seq<char>| #[trigger] self.function_table.lookup(n) == registered_fun(fdefs, n),
                forall|n: Seq<char>| #[trigger] self.coroutine_table.lookup(n) == registered_coro(cdefs.take(j as int), n),
                forall|n: Seq<char>| #[trigger] self.coroutine_table.lookup(n) matches Some(m) ==> m.locals == Seq::<(Seq<char>, Type)>::empty(),
            decreases ast.coroutines.len() - j,
        {
            let c = &ast.coroutines[j];
            let doc = match &c.doc {
                Some(d) => Some(d.as_str()),
                None => None,
            };
            self.coroutine_table.coroutine_definition(c.name.as_str(), doc, &c.block);
            j = j + 1;
            assert(cdefs.take(j as int).drop_last() =~= cdefs.take((j - 1) as int));
            assert(cdefs.take(j as int).last() == cdefs[j - 1]);
        }
        assert(cdefs.take(cdefs.len() as int) =~= cdefs);
        proof {
            assert forall|n: Seq<char>| #[trigger] fun_shape(self.function_table.lookup(n)) == registered_fun(fdefs, n) by {
                lemma_fun_shape(fdefs, n);
            }
            assert forall|n: Seq<char>| #[trigger] coro_shape(self.coroutine_table.lookup(n)) == registered_coro(cdefs, n) by {
                lemma_coro_shape(cdefs, n);
            }
        }
        let ghost funs = |n: Seq<char>| registered_sig(fdefs, n);
        let ghost coros = |n: Seq<char>| registered_body(cdefs, n);
        assert(self.funs() =~= funs);
        assert(self.coros() =~= coros);
        let ghost defs = definitions(*ast);
        let ghost whole = check_defs(funs, coros, defs, initial_state(), Map::empty());
        let ghost mut g_st = initial_state();
        let ghost mut g_scopes: Map<Seq<char>, Seq<(Seq<char>, Type)>> = Map::empty();
        proof {
            assert(defs.subrange(0, defs.len() as int) =~= defs);
            assert(errs_view(self.errors@) =~= g_st.errors);
        }
        // 関数の意味解析
        let mut k: usize = 0;
        while k < ast.functions.len()
            invariant
                self.inv(),
                fdefs == ast.functions@,
                cdefs == ast.coroutines@,
                defs == definitions(*ast),
                defs.len() == fdefs.len() + cdefs.len(),
                forall|x: int| 0 <= x < fdefs.len() ==> #[trigger] defs[x] == (fdefs[x].name@, fdefs[x].block@),
                k <= ast.functions.len(),
                self.funs() == funs,
                self.coros() == coros,
                funs == (|n: Seq<char>| registered_sig(fdefs, n)),
                coros == (|n: Seq<char>| registered_body(cdefs, n)),
                errs_view(self.errors@) == g_st.errors,
                forall|n: Seq<char>| self.task_table.lookup(n) == (g_st.tasks)(n),
                forall|n: Seq<char>| #[trigger] fun_shape(self.function_table.lookup(n)) == registered_fun(fdefs, n),
                forall|n: Seq<char>| #[trigger] coro_shape(self.coroutine_table.lookup(n)) == registered_coro(cdefs, n),
                forall|n: Seq<char>| #[trigger] self.table_locals(n) == scope_of(g_scopes, n),
                forall|n: Seq<char>| #[trigger] self.coroutine_table.lookup(n) is Some && self.function_table.lookup(n) is Some
                    ==> self.coroutine_table.lookup(n)->0.locals == Seq::<(Seq<char>, Type)>::empty(),
                forall|n: Seq<char>| g_scopes.contains_key(n) ==> (self.function_table.lookup(n) is Some || self.coroutine_table.lookup(n) is Some),
                whole == check_defs(funs, coros, defs.subrange(k as int, defs.len() as int), g_st, g_scopes),
            decreases ast.functions.len() - k,
        {
            let f = &ast.functions[k];
            let ghost head = *self;
            let loaded = self.load_locals(f.name.as_str());
            assert(self.table_locals(f.name@) == scope_of(g_scopes, f.name@));
            self.analysis_name = crate::text::owned(f.name.as_str());
            self.locals = loaded;
            let ghost start = SemState { locals: scope_of(g_scopes, f.name@), ..g_st };
            assert(self.locals.entries() == scope_of(g_scopes, f.name@));
            assert(self.state().errors == start.errors);
            assert(self.state().tasks =~= start.tasks);
            assert(self.state() =~= start);
            self.semantic_block(&f.block);
            let ghost st1 = self.state();
            let locals = self.locals.copy();
            proof {
                lemma_registered_sig(fdefs, k as int);
                assert(self.funs()(f.name@) == funs(f.name@));
                assert(sig_of(self.function_table.lookup(f.name@)) == registered_sig(fdefs, f.name@));
            }
            let ghost pre = *self;
            self.store_locals(f.name.as_str(), locals);
            proof {
                let rest = defs.subrange(k as int, defs.len() as int);
                assert(rest[0] == defs[k as int]);
                assert(rest.subrange(1, rest.len() as int) =~= defs.subrange(k + 1, defs.len() as int));
                let old_scopes = g_scopes;
                g_scopes = g_scopes.insert(f.name@, st1.locals);
                g_st = st1;
                assert forall|n: Seq<char>| #[trigger] self.table_locals(n) == scope_of(g_scopes, n) by {
                    if n != f.name@ {
                        assert(head.table_locals(n) == scope_of(old_scopes, n));
                        assert(pre.table_locals(n) == head.table_locals(n));
                        assert(scope_of(g_scopes, n) == scope_of(old_scopes, n));
                    }
                }
            }
            k = k + 1;
        }
        // コルーチンの意味解析
        let mut m: usize = 0;
        while m < ast.coroutines.len()
            invariant
                self.inv(),
                fdefs == ast.functions@,
                cdefs == ast.coroutines@,
                defs == definitions(*ast),
                defs.len() == fdefs.len() + cdefs.len(),
                forall|x: int| 0 <= x < cdefs.len() ==> #[trigger] defs[fdefs.len() + x] == (cdefs[x].name@, cdefs[x].block@),
                m <= ast.coroutines.len(),
                self.funs() == funs,
                self.coros() == coros,
                funs == (|n: Seq<char>| registered_sig(fdefs, n)),
                coros == (|n: Seq<char>| registered_body(cdefs, n)),
                errs_view(self.errors@) == g_st.errors,
                forall|n: Seq<char>| self.task_table.lookup(n) == (g_st.tasks)(n),
                forall|n: Seq<char>| #[trigger] fun_shape(self.function_table.lookup(n)) == registered_fun(fdefs, n),
                forall|n: Seq<char>| #[trigger] coro_shape(self.coroutine_table.lookup(n)) == registered_coro(cdefs, n),
                forall|n: Seq<char>| #[trigger] self.table_locals(n) == scope_of(g_scopes, n),
                forall|n: Seq<char>| #[trigger] self.coroutine_table.lookup(n) is Some && self.function_table.lookup(n) is Some
                    ==> self.coroutine_table.lookup(n)->0.locals == Seq::<(Seq<char>, Type)>::empty(),
                forall|n: Seq<char>| g_scopes.contains_key(n) ==> (self.function_table.lookup(n) is Some || self.coroutine_table.lookup(n) is Some),
                whole == check_defs(funs, coros, defs.subrange(fdefs.len() + m, defs.len() as int), g_st, g_scopes),
            decreases ast.coroutines.len() - m,
        {
            let c = &ast.coroutines[m];
            let ghost head = *self;
            let loaded = self.load_locals(c.name.as_str());
            assert(self.table_locals(c.name@) == scope_of(g_scopes, c.name@));
            self.analysis_name = crate::text::owned(c.name.as_str());
            self.locals = loaded;
            let ghost start = SemState { locals: scope_of(g_scopes, c.name@), ..g_st };
            assert(self.locals.entries() == scope_of(g_scopes, c.name@));
            assert(self.state().errors == start.errors);
            assert(self.state().tasks =~= start.tasks);
            assert(self.state() =~= start);
            self.semantic_block(&c.block);
            let ghost st1 = self.state();
            let locals = self.locals.copy();
            proof {
                lemma_registered_body(cdefs, m as int);
                assert(self.coros()(c.name@) == coros(c.name@));
                assert(body_of(self.coroutine_table.lookup(c.name@)) == registered_body(cdefs, c.name@));
            }
            let ghost pre = *self;
            self.store_locals(c.name.as_str(), locals);
            proof {
                let x = fdefs.len() + m;
                let rest = defs.subrange(x, defs.len() as int);
                assert(rest[0] == defs[x]);
                assert(rest.subrange(1, rest.len() as int) =~= defs.subrange(x + 1, defs.len() as int));
                let old_scopes = g_scopes;
                g_scopes = g_scopes.insert(c.name@, st1.locals);
                g_st = st1;
                assert forall|n: Seq<char>| #[trigger] self.table_locals(n) == scope_of(g_scopes, n) by {
                    if n != c.name@ {
                        assert(head.table_locals(n) == scope_of(old_scopes, n));
                        assert(pre.table_locals(n) == head.table_locals(n));
                        assert(scope_of(g_scopes, n) == scope_of(old_scopes, n));
                    }
                }
            }
            m = m + 1;
        }
        proof {
            assert(defs.subrange(defs.len() as int, defs.len() as int) =~= Seq::<(Seq<char>, Block)>::empty());
            assert((|n: Seq<char>| registered_sig(ast.functions@, n)) =~= funs);
            assert((|n: Seq<char>| registered_body(ast.coroutines@, n)) =~= coros);
            assert(whole == (g_st, g_scopes));
            assert(spec_locals(*ast) == whole.1);
        }
    }

    /// Reports an error (without a position).
    fn report(&mut self, code: ErrorCode, params: Vec<(&str, &str)>)
        ensures
            final(self).state() == report(old(self).state(), code, crate::error::error_context::str_pairs_view(params@)),
            final(self).function_table == old(self).function_table,
            final(self).coroutine_table == old(self).coroutine_table,
            final(self).task_table == old(self).task_table,
            final(self).locals == old(self).locals,
    {
        let e = ErrorContext::new(code, 0, 0, params);
        let ghost before = self.errors@;
        self.errors.push(e);
        assert(errs_view(self.errors@) =~= errs_view(before).push(err_view(e)));
    }

    /// `SEMANTIC003` for an operand without a type.
    fn report_untyped(&mut self, node: &PrivateNode)
        ensures
            final(self).state() == untyped(old(self).state(), node@),
            final(self).function_table == old(self).function_table,
            final(self).coroutine_table == old(self).coroutine_table,
            final(self).task_table == old(self).task_table,
            final(self).locals == old(self).locals,
    {
        let text = node_debug_text(node);
        let params = vec![("node", text.as_str())];
        assert(crate::error::error_context::str_pairs_view(params@) =~= seq![("node"@, text@)]);
        self.report(ErrorCode::Semantic003, params);
    }

    /// `SEMANTIC006` for a value of the wrong type (or of none).
    fn report_wrong_type(&mut self, name: &str, expected: Type, found: &str)
        ensures
            final(self).state() == wrong_type(old(self).state(), name@, expected, found@),
            final(self).function_table == old(self).function_table,
            final(self).coroutine_table == old(self).coroutine_table,
            final(self).task_table == old(self).task_table,
            final(self).locals == old(self).locals,
    {
        let expected_text = expected.to_string();
        let params = vec![
            ("variable_name", name),
            ("variable_type", expected_text.as_str()),
            ("value_type", found),
        ];
        assert(crate::error::error_context::str_pairs_view(params@) =~= seq![
            ("variable_name"@, name@),
            ("variable_type"@, expected.text()),
            ("value_type"@, found@),
        ]);
        self.report(ErrorCode::Semantic006, params);
    }
}

} // verus!

verus! {

/// 意味解析: analyses a program. It succeeds exactly when the analysis
/// that `spec_semantic` states reports no error; the result then holds no
/// error, the entries of the functions and coroutines (the last definition
/// of each name, with the variables its analysis declared; a coroutine that
/// shares its name with a function keeps none, as its declarations go to the
/// function) and the tasks; otherwise the errors, in the order they were
/// found.
pub fn semantic(ast: &RootNode) -> (r: Result<Semantic, Vec<ErrorContext>>)
    ensures
        match r {
            Ok(sem) => {
                &&& spec_semantic(*ast).errors.len() == 0
                &&& sem.inv()
                &&& sem.funs() == (|n: Seq<char>| registered_sig(ast.functions@, n))
                &&& sem.coros() == (|n: Seq<char>| registered_body(ast.coroutines@, n))
                &&& forall|n: Seq<char>| sem.task(n) == (spec_semantic(*ast).tasks)(n)
                &&& sem.recorded_errors().len() == 0
                &&& forall|n: Seq<char>| #[trigger] sem.function_shape(n) == registered_fun(ast.functions@, n)
                &&& forall|n: Seq<char>| #[trigger] sem.coroutine_shape(n) == registered_coro(ast.coroutines@, n)
                &&& forall|n: Seq<char>| #[trigger] sem.definition_locals(n) == scope_of(spec_locals(*ast), n)
                &&& forall|n: Seq<char>| #[trigger] sem.coroutine_locals(n) == (if registered_fun(ast.functions@, n) is Some {
                    Seq::<(Seq<char>, Type)>::empty()
                } else {
                    scope_of(spec_locals(*ast), n)
                })
            },
            Err(errors) => {
                &&& spec_semantic(*ast).errors.len() > 0
                &&& errs_view(errors@) == spec_semantic(*ast).errors
            },
        },
{
    let mut semantic = Semantic::new();
    semantic.semantic(ast);
    proof {
        assert forall|n: Seq<char>| #[trigger] semantic.coroutine_locals(n) == (if registered_fun(
            ast.functions@,
            n,
        ) is Some {
            Seq::<(Seq<char>, Type)>::empty()
        } else {
            scope_of(spec_locals(*ast), n)
        }) by {
            assert(fun_shape(semantic.function_table.lookup(n)) == registered_fun(ast.functions@, n));
            assert(semantic.table_locals(n) == scope_of(spec_locals(*ast), n));
        }
    }
    if semantic.errors.len() == 0 {
        Ok(semantic)
    } else {
        Err(semantic.errors)
    }
}

} // verus!

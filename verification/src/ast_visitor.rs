//! A generic depth-first, pre-order traversal over a program.
//!
//! The walker owns no state; a visitor implements whichever hooks it needs
//! and carries its own scratch state.  Each walk function returns a ghost
//! event log and ensures it equals the pre-order event sequence of the
//! walked node (see [`preorder_program`]): the log records, in order, one
//! event per hook invocation with the node value the hook observed.  The
//! hooks themselves carry no contracts — what a visitor does with a node
//! is its own business — so the log is the walker's account of which
//! hooks it fired and in what order.  The library's rewrite passes, whose
//! effect is specified exactly, are implemented as dedicated recursions
//! instead, so their contracts stay precise.

use vstd::prelude::*;

use crate::expression::BlockExpression;
use crate::expression::Expression;
use crate::expression::ExpressionWithBlock;
use crate::expression::ExpressionWithBlockV;
use crate::expression::ExpressionWithoutBlock;
use crate::expression::ExpressionWithoutBlockV;
use crate::item::Item;
use crate::item::ItemV;
use crate::program::Module;
use crate::program::ModuleV;
use crate::program::Program;
use crate::statement::Statement;
use crate::statement::StatementV;
use crate::token::Token;

verus! {

/// One traversal event: which hook fired, with the value of the node it
/// observed.
pub ghost enum VisitEvent {
    Program(Seq<ModuleV>),
    Module(ModuleV),
    Item(ItemV),
    Statement(StatementV),
    WithBlock(ExpressionWithBlockV),
    WithoutBlock(ExpressionWithoutBlockV),
}

/// The values of a sequence of modules.
pub open spec fn view_modules(ms: Seq<Module>) -> Seq<ModuleV> {
    Seq::new(
        ms.len(),
        |i: int|
            if 0 <= i < ms.len() {
                ms[i]@
            } else {
                arbitrary()
            },
    )
}

/// The pre-order events of any expression: a block-free expression's own
/// events, or a block-ended one's.
pub open spec fn preorder_expression(e: Expression) -> Seq<VisitEvent>
    decreases e, 9int, 0int,
{
    match e {
        Expression::WithBlock(x) => preorder_ewb(x),
        Expression::WithoutBlock(x) => preorder_ewob(x),
    }
}

/// The pre-order events of the first `k` expressions of a sequence.
pub open spec fn preorder_expressions_prefix(es: Seq<Expression>, k: int) -> Seq<VisitEvent>
    decreases es, 9int, k,
{
    if k <= 0 || k > es.len() {
        Seq::<VisitEvent>::empty()
    } else {
        preorder_expressions_prefix(es, k - 1) + preorder_expression(es[k - 1])
    }
}

/// The pre-order events of one struct-literal field: its value
/// expression's events (the field name token holds no walkable child).
pub open spec fn preorder_field_value(f: (Token, Expression)) -> Seq<VisitEvent>
    decreases f, 9int, 0int,
{
    preorder_expression(f.1)
}

/// The pre-order events of the first `k` struct-literal field values.
pub open spec fn preorder_field_values_prefix(
    fs: Seq<(Token, Expression)>,
    k: int,
) -> Seq<VisitEvent>
    decreases fs, 9int, k,
{
    if k <= 0 || k > fs.len() {
        Seq::<VisitEvent>::empty()
    } else {
        preorder_field_values_prefix(fs, k - 1) + preorder_field_value(fs[k - 1])
    }
}

/// The pre-order events of a block-ended expression: its own event, then
/// its children's, left to right.
pub open spec fn preorder_ewb(e: ExpressionWithBlock) -> Seq<VisitEvent>
    decreases e, 9int, 0int,
{
    seq![VisitEvent::WithBlock(e@)] + match e {
        ExpressionWithBlock::Block(block) => preorder_block(*block),
        ExpressionWithBlock::If { expr, then, else_branch } => preorder_expression(*expr)
            + preorder_block(*then) + match else_branch {
            Option::Some(eb) => preorder_ewb(*eb),
            Option::None => Seq::<VisitEvent>::empty(),
        },
    }
}

/// The pre-order events of a block: its statements' events in order, then
/// its tail expression's.  A block fires no hook of its own.
pub open spec fn preorder_block(b: BlockExpression) -> Seq<VisitEvent>
    decreases b, 9int, 0int,
{
    preorder_statements_prefix(b.statements@, b.statements@.len() as int) + match b.expr {
        Option::Some(x) => preorder_ewob(x),
        Option::None => Seq::<VisitEvent>::empty(),
    }
}

/// The pre-order events of the first `k` statements of a sequence.
pub open spec fn preorder_statements_prefix(ss: Seq<Statement>, k: int) -> Seq<VisitEvent>
    decreases ss, 9int, k,
{
    if k <= 0 || k > ss.len() {
        Seq::<VisitEvent>::empty()
    } else {
        preorder_statements_prefix(ss, k - 1) + preorder_statement(ss[k - 1])
    }
}

/// The pre-order events of a statement: its own event, then its child
/// expressions', left to right.
pub open spec fn preorder_statement(s: Statement) -> Seq<VisitEvent>
    decreases s, 9int, 0int,
{
    seq![VisitEvent::Statement(s@)] + match s {
        Statement::Print(e) => preorder_expression(e),
        Statement::Expression(e) => preorder_expression(e),
        Statement::Let { expression, .. } => preorder_expression(expression),
        Statement::RunTest { function_name, .. } => preorder_expression(*function_name),
        Statement::AssertEq(left, right) => preorder_expression(left) + preorder_expression(
            right,
        ),
    }
}

/// The pre-order events of a block-free expression: its own event, then
/// its children's, left to right.  Tag attributes and interpolation
/// chunks hold no walkable children.
pub open spec fn preorder_ewob(e: ExpressionWithoutBlock) -> Seq<VisitEvent>
    decreases e, 10int, 0int,
{
    seq![VisitEvent::WithoutBlock(e@)] + match e {
        ExpressionWithoutBlock::Binary { left, right, .. } => preorder_ewob(*left)
            + preorder_ewob(*right),
        ExpressionWithoutBlock::Call { callee, arguments } => preorder_ewob(*callee)
            + preorder_expressions_prefix(arguments@, arguments@.len() as int),
        ExpressionWithoutBlock::Index { callee, index } => preorder_ewob(*callee)
            + preorder_expression(*index),
        ExpressionWithoutBlock::Field { callee, .. } => preorder_ewob(*callee),
        ExpressionWithoutBlock::Lambda { body, .. } => preorder_expression(*body),
        ExpressionWithoutBlock::Grouping(inner) => preorder_ewob(*inner),
        ExpressionWithoutBlock::Unary { right, .. } => preorder_ewob(*right),
        ExpressionWithoutBlock::Assignment { value, .. } => preorder_ewob(*value),
        ExpressionWithoutBlock::Html { inner, .. } => preorder_expressions_prefix(
            inner@,
            inner@.len() as int,
        ),
        ExpressionWithoutBlock::Array { elements } => preorder_expressions_prefix(
            elements@,
            elements@.len() as int,
        ),
        ExpressionWithoutBlock::Tuple { elements } => preorder_expressions_prefix(
            elements@,
            elements@.len() as int,
        ),
        ExpressionWithoutBlock::Struct { fields, .. } => preorder_field_values_prefix(
            fields@,
            fields@.len() as int,
        ),
        ExpressionWithoutBlock::Literal(_) => Seq::<VisitEvent>::empty(),
        ExpressionWithoutBlock::Variable(_) => Seq::<VisitEvent>::empty(),
        ExpressionWithoutBlock::FString { .. } => Seq::<VisitEvent>::empty(),
        ExpressionWithoutBlock::RawJs(_) => Seq::<VisitEvent>::empty(),
        ExpressionWithoutBlock::RawGo(_) => Seq::<VisitEvent>::empty(),
    }
}

/// The pre-order events of an item: its own event, then its body's where
/// it has one.
pub open spec fn preorder_item(it: Item) -> Seq<VisitEvent>
    decreases it, 9int, 0int,
{
    seq![VisitEvent::Item(it@)] + match it {
        Item::Function { body, .. } => preorder_block(body),
        Item::Component { body, .. } => preorder_block(body),
        Item::Struct { .. } => Seq::<VisitEvent>::empty(),
        Item::Import { .. } => Seq::<VisitEvent>::empty(),
        Item::TestRunner => Seq::<VisitEvent>::empty(),
    }
}

/// The pre-order events of the first `k` items of a sequence.
pub open spec fn preorder_items_prefix(items: Seq<Item>, k: int) -> Seq<VisitEvent>
    decreases items, 9int, k,
{
    if k <= 0 || k > items.len() {
        Seq::<VisitEvent>::empty()
    } else {
        preorder_items_prefix(items, k - 1) + preorder_item(items[k - 1])
    }
}

/// The pre-order events of a module: its own event, then its items'.
pub open spec fn preorder_module(m: Module) -> Seq<VisitEvent>
    decreases m, 9int, 0int,
{
    seq![VisitEvent::Module(m@)] + preorder_items_prefix(m.items@, m.items@.len() as int)
}

/// The pre-order events of the first `k` modules of a program.
pub open spec fn preorder_modules_prefix(ms: Seq<Module>, k: int) -> Seq<VisitEvent>
    decreases ms, 9int, k,
{
    if k <= 0 || k > ms.len() {
        Seq::<VisitEvent>::empty()
    } else {
        preorder_modules_prefix(ms, k - 1) + preorder_module(ms[k - 1])
    }
}

/// The pre-order events of a whole program: the program event, then each
/// module's events in order.
pub open spec fn preorder_program(ms: Seq<Module>) -> Seq<VisitEvent>
    decreases ms, 10int, 0int,
{
    seq![VisitEvent::Program(view_modules(ms))] + preorder_modules_prefix(ms, ms.len() as int)
}

/// The hooks a traversal client may implement; each is called before the
/// walker descends into the node's children.
pub trait AstVisitor {
    fn visit_program(&mut self, program: &Program) {
    }

    fn visit_module(&mut self, module: &Module) {
    }

    fn visit_item(&mut self, item: &Item) {
    }

    fn visit_statement(&mut self, statement: &Statement) {
    }

    fn visit_expression_with_block(&mut self, expression: &ExpressionWithBlock) {
    }

    fn visit_expression_without_block(&mut self, expression: &ExpressionWithoutBlock) {
    }
}

/// Walk a whole program in depth-first pre-order, invoking the visitor's
/// hooks at each node.  The returned ghost log lists the fired hooks in
/// order with the node values they observed.
#[verifier::rlimit(100)]
pub fn walk_ast<V: AstVisitor>(program: &Program, visitor: &mut V) -> (events: Ghost<
    Seq<VisitEvent>,
>)
    ensures
        events@ == preorder_program(program@),
{
    visitor.visit_program(program);
    let ghost mut ev: Seq<VisitEvent> = seq![VisitEvent::Program(view_modules(program@))];
    let n = program.len();
    let mut i: usize = 0;
    while i < n
        invariant
            n == program@.len(),
            i <= n,
            ev == seq![VisitEvent::Program(view_modules(program@))] + preorder_modules_prefix(
                program@,
                i as int,
            ),
        decreases n - i,
    {
        let m_ev = walk_module(&program[i], visitor);
        proof {
            ev = ev + m_ev@;
            assert(ev =~= seq![VisitEvent::Program(view_modules(program@))]
                + preorder_modules_prefix(program@, i as int + 1));
        }
        i = i + 1;
    }
    Ghost(ev)
}

/// Walk one module.
#[verifier::rlimit(100)]
fn walk_module<V: AstVisitor>(module: &Module, visitor: &mut V) -> (events: Ghost<
    Seq<VisitEvent>,
>)
    ensures
        events@ == preorder_module(*module),
{
    visitor.visit_module(module);
    let ghost mut ev: Seq<VisitEvent> = seq![VisitEvent::Module(module@)];
    let n = module.items.len();
    let mut i: usize = 0;
    while i < n
        invariant
            n == module.items@.len(),
            i <= n,
            ev == seq![VisitEvent::Module(module@)] + preorder_items_prefix(
                module.items@,
                i as int,
            ),
        decreases n - i,
    {
        let it_ev = walk_item(&module.items[i], visitor);
        proof {
            ev = ev + it_ev@;
            assert(ev =~= seq![VisitEvent::Module(module@)] + preorder_items_prefix(
                module.items@,
                i as int + 1,
            ));
        }
        i = i + 1;
    }
    Ghost(ev)
}

/// Walk one item: its body, where it has one.
#[verifier::rlimit(100)]
fn walk_item<V: AstVisitor>(item: &Item, visitor: &mut V) -> (events: Ghost<Seq<VisitEvent>>)
    ensures
        events@ == preorder_item(*item),
{
    visitor.visit_item(item);
    let ghost mut ev: Seq<VisitEvent> = seq![VisitEvent::Item(item@)];
    match item {
        Item::Function { body, .. } => {
            let b_ev = walk_block(body, visitor);
            proof {
                ev = ev + b_ev@;
            }
        },
        Item::Component { body, .. } => {
            let b_ev = walk_block(body, visitor);
            proof {
                ev = ev + b_ev@;
            }
        },
        Item::Struct { .. } => {},
        Item::Import { .. } => {},
        Item::TestRunner => {},
    }
    proof {
        assert(ev =~= preorder_item(*item));
    }
    Ghost(ev)
}

/// Walk a block: its statements, then its tail expression.
#[verifier::loop_isolation(false)]
#[verifier::rlimit(100)]
fn walk_block<V: AstVisitor>(block: &BlockExpression, visitor: &mut V) -> (events: Ghost<
    Seq<VisitEvent>,
>)
    ensures
        events@ == preorder_block(*block),
    decreases *block, 3int,
{
    let ghost mut ev: Seq<VisitEvent> = Seq::empty();
    let n = block.statements.len();
    let mut i: usize = 0;
    while i < n
        invariant
            n == block.statements@.len(),
            i <= n,
            ev == preorder_statements_prefix(block.statements@, i as int),
        decreases n - i,
    {
        proof {
            assert(decreases_to!(*block => block.statements));
            assert(decreases_to!(block.statements => block.statements@));
            assert(decreases_to!(block.statements@ => block.statements@[i as int]));
        }
        let s_ev = walk_statement(&block.statements[i], visitor);
        proof {
            ev = ev + s_ev@;
            assert(ev =~= preorder_statements_prefix(block.statements@, i as int + 1));
        }
        i = i + 1;
    }
    if let Option::Some(expr) = &block.expr {
        let x_ev = walk_expression_without_block(expr, visitor);
        proof {
            ev = ev + x_ev@;
        }
    }
    proof {
        assert(ev =~= preorder_block(*block));
    }
    Ghost(ev)
}

/// Walk one statement.
#[verifier::rlimit(100)]
fn walk_statement<V: AstVisitor>(statement: &Statement, visitor: &mut V) -> (events: Ghost<
    Seq<VisitEvent>,
>)
    ensures
        events@ == preorder_statement(*statement),
    decreases *statement, 5int,
{
    visitor.visit_statement(statement);
    let ghost mut ev: Seq<VisitEvent> = seq![VisitEvent::Statement(statement@)];
    match statement {
        Statement::Print(expression) => {
            let e_ev = walk_expression(expression, visitor);
            proof {
                ev = ev + e_ev@;
            }
        },
        Statement::Expression(expression) => {
            let e_ev = walk_expression(expression, visitor);
            proof {
                ev = ev + e_ev@;
            }
        },
        Statement::Let { expression, .. } => {
            let e_ev = walk_expression(expression, visitor);
            proof {
                ev = ev + e_ev@;
            }
        },
        Statement::RunTest { function_name, .. } => {
            let e_ev = walk_expression(function_name, visitor);
            proof {
                ev = ev + e_ev@;
            }
        },
        Statement::AssertEq(left, right) => {
            let l_ev = walk_expression(left, visitor);
            proof {
                ev = ev + l_ev@;
            }
            let r_ev = walk_expression(right, visitor);
            proof {
                ev = ev + r_ev@;
            }
        },
    }
    proof {
        assert(ev =~= preorder_statement(*statement));
    }
    Ghost(ev)
}

/// Walk one expression of either kind.
fn walk_expression<V: AstVisitor>(expression: &Expression, visitor: &mut V) -> (events: Ghost<
    Seq<VisitEvent>,
>)
    ensures
        events@ == preorder_expression(*expression),
    decreases *expression, 1int,
{
    match expression {
        Expression::WithBlock(e) => walk_expression_with_block(e, visitor),
        Expression::WithoutBlock(e) => walk_expression_without_block(e, visitor),
    }
}

/// Walk a block-ended expression.
#[verifier::rlimit(100)]
fn walk_expression_with_block<V: AstVisitor>(
    expression: &ExpressionWithBlock,
    visitor: &mut V,
) -> (events: Ghost<Seq<VisitEvent>>)
    ensures
        events@ == preorder_ewb(*expression),
    decreases *expression, 4int,
{
    visitor.visit_expression_with_block(expression);
    let ghost mut ev: Seq<VisitEvent> = seq![VisitEvent::WithBlock(expression@)];
    match expression {
        ExpressionWithBlock::Block(block) => {
            let b_ev = walk_block(block, visitor);
            proof {
                ev = ev + b_ev@;
            }
        },
        ExpressionWithBlock::If { expr, then, else_branch } => {
            let c_ev = walk_expression(expr, visitor);
            proof {
                ev = ev + c_ev@;
            }
            let t_ev = walk_block(then, visitor);
            proof {
                ev = ev + t_ev@;
            }
            if let Option::Some(eb) = else_branch {
                let e_ev = walk_expression_with_block(eb, visitor);
                proof {
                    ev = ev + e_ev@;
                }
            }
        },
    }
    proof {
        assert(ev =~= preorder_ewb(*expression));
    }
    Ghost(ev)
}

/// Walk a block-free expression.  Tag attributes and interpolation chunks
/// hold no walkable children.
#[verifier::loop_isolation(false)]
#[verifier::rlimit(100)]
fn walk_expression_without_block<V: AstVisitor>(
    expression: &ExpressionWithoutBlock,
    visitor: &mut V,
) -> (events: Ghost<Seq<VisitEvent>>)
    ensures
        events@ == preorder_ewob(*expression),
    decreases *expression, 4int,
{
    visitor.visit_expression_without_block(expression);
    let ghost mut ev: Seq<VisitEvent> = seq![VisitEvent::WithoutBlock(expression@)];
    match expression {
        ExpressionWithoutBlock::Binary { left, right, .. } => {
            let l_ev = walk_expression_without_block(left, visitor);
            proof {
                ev = ev + l_ev@;
            }
            let r_ev = walk_expression_without_block(right, visitor);
            proof {
                ev = ev + r_ev@;
            }
        },
        ExpressionWithoutBlock::Call { callee, arguments } => {
            let c_ev = walk_expression_without_block(callee, visitor);
            proof {
                ev = ev + c_ev@;
            }
            let n = arguments.len();
            let mut i: usize = 0;
            while i < n
                invariant
                    n == arguments@.len(),
                    i <= n,
                    ev == seq![VisitEvent::WithoutBlock(expression@)] + c_ev@
                        + preorder_expressions_prefix(arguments@, i as int),
                decreases n - i,
            {
                proof {
                    assert(decreases_to!(*expression => (*expression)->Call_arguments));
                    assert(decreases_to!((*expression)->Call_arguments => (*expression)
                        ->Call_arguments@));
                    assert(decreases_to!((*expression)->Call_arguments@ => (*expression)
                        ->Call_arguments@[i as int]));
                }
                let a_ev = walk_expression(&arguments[i], visitor);
                proof {
                    ev = ev + a_ev@;
                    assert(ev =~= seq![VisitEvent::WithoutBlock(expression@)] + c_ev@
                        + preorder_expressions_prefix(arguments@, i as int + 1));
                }
                i = i + 1;
            }
        },
        ExpressionWithoutBlock::Index { callee, index } => {
            let c_ev = walk_expression_without_block(callee, visitor);
            proof {
                ev = ev + c_ev@;
            }
            let i_ev = walk_expression(index, visitor);
            proof {
                ev = ev + i_ev@;
            }
        },
        ExpressionWithoutBlock::Field { callee, .. } => {
            let c_ev = walk_expression_without_block(callee, visitor);
            proof {
                ev = ev + c_ev@;
            }
        },
        ExpressionWithoutBlock::Lambda { body, .. } => {
            let b_ev = walk_expression(body, visitor);
            proof {
                ev = ev + b_ev@;
            }
        },
        ExpressionWithoutBlock::Grouping(inner) => {
            let i_ev = walk_expression_without_block(inner, visitor);
            proof {
                ev = ev + i_ev@;
            }
        },
        ExpressionWithoutBlock::Unary { right, .. } => {
            let r_ev = walk_expression_without_block(right, visitor);
            proof {
                ev = ev + r_ev@;
            }
        },
        ExpressionWithoutBlock::Assignment { value, .. } => {
            let v_ev = walk_expression_without_block(value, visitor);
            proof {
                ev = ev + v_ev@;
            }
        },
        ExpressionWithoutBlock::Html { inner, .. } => {
            let n = inner.len();
            let mut i: usize = 0;
            while i < n
                invariant
                    n == inner@.len(),
                    i <= n,
                    ev == seq![VisitEvent::WithoutBlock(expression@)]
                        + preorder_expressions_prefix(inner@, i as int),
                decreases n - i,
            {
                proof {
                    assert(decreases_to!(*expression => (*expression)->Html_inner));
                    assert(decreases_to!((*expression)->Html_inner => (*expression)
                        ->Html_inner@));
                    assert(decreases_to!((*expression)->Html_inner@ => (*expression)
                        ->Html_inner@[i as int]));
                }
                let x_ev = walk_expression(&inner[i], visitor);
                proof {
                    ev = ev + x_ev@;
                    assert(ev =~= seq![VisitEvent::WithoutBlock(expression@)]
                        + preorder_expressions_prefix(inner@, i as int + 1));
                }
                i = i + 1;
            }
        },
        ExpressionWithoutBlock::Array { elements } => {
            let n = elements.len();
            let mut i: usize = 0;
            while i < n
                invariant
                    n == elements@.len(),
                    i <= n,
                    ev == seq![VisitEvent::WithoutBlock(expression@)]
                        + preorder_expressions_prefix(elements@, i as int),
                decreases n - i,
            {
                proof {
                    assert(decreases_to!(*expression => (*expression)->Array_elements));
                    assert(decreases_to!((*expression)->Array_elements => (*expression)
                        ->Array_elements@));
                    assert(decreases_to!((*expression)->Array_elements@ => (*expression)
                        ->Array_elements@[i as int]));
                }
                let x_ev = walk_expression(&elements[i], visitor);
                proof {
                    ev = ev + x_ev@;
                    assert(ev =~= seq![VisitEvent::WithoutBlock(expression@)]
                        + preorder_expressions_prefix(elements@, i as int + 1));
                }
                i = i + 1;
            }
        },
        ExpressionWithoutBlock::Tuple { elements } => {
            let n = elements.len();
            let mut i: usize = 0;
            while i < n
                invariant
                    n == elements@.len(),
                    i <= n,
                    ev == seq![VisitEvent::WithoutBlock(expression@)]
                        + preorder_expressions_prefix(elements@, i as int),
                decreases n - i,
            {
                proof {
                    assert(decreases_to!(*expression => (*expression)->Tuple_elements));
                    assert(decreases_to!((*expression)->Tuple_elements => (*expression)
                        ->Tuple_elements@));
                    assert(decreases_to!((*expression)->Tuple_elements@ => (*expression)
                        ->Tuple_elements@[i as int]));
                }
                let x_ev = walk_expression(&elements[i], visitor);
                proof {
                    ev = ev + x_ev@;
                    assert(ev =~= seq![VisitEvent::WithoutBlock(expression@)]
                        + preorder_expressions_prefix(elements@, i as int + 1));
                }
                i = i + 1;
            }
        },
        ExpressionWithoutBlock::Struct { fields, .. } => {
            let n = fields.len();
            let mut i: usize = 0;
            while i < n
                invariant
                    n == fields@.len(),
                    i <= n,
                    ev == seq![VisitEvent::WithoutBlock(expression@)]
                        + preorder_field_values_prefix(fields@, i as int),
                decreases n - i,
            {
                proof {
                    assert(decreases_to!(*expression => (*expression)->Struct_fields));
                    assert(decreases_to!((*expression)->Struct_fields => (*expression)
                        ->Struct_fields@));
                    assert(decreases_to!((*expression)->Struct_fields@ => (*expression)
                        ->Struct_fields@[i as int]));
                    assert(decreases_to!((*expression)->Struct_fields@[i as int] => (*expression)
                        ->Struct_fields@[i as int].1));
                }
                let x_ev = walk_expression(&fields[i].1, visitor);
                proof {
                    ev = ev + x_ev@;
                    assert(preorder_field_value(fields@[i as int]) == preorder_expression(
                        fields@[i as int].1,
                    ));
                    assert(ev =~= seq![VisitEvent::WithoutBlock(expression@)]
                        + preorder_field_values_prefix(fields@, i as int + 1));
                }
                i = i + 1;
            }
        },
        ExpressionWithoutBlock::Literal(_) => {},
        ExpressionWithoutBlock::Variable(_) => {},
        ExpressionWithoutBlock::FString { .. } => {},
        ExpressionWithoutBlock::RawJs(_) => {},
        ExpressionWithoutBlock::RawGo(_) => {},
    }
    proof {
        assert(ev =~= preorder_ewob(*expression));
    }
    Ghost(ev)
}

} // verus!

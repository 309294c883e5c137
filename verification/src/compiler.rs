//! Code generation for the Dark virtual machine. Each expression becomes a
//! run of instructions that leaves its value on the stack; a block becomes a
//! label of its own that is called where the block stands. The generator
//! counts the tokens it has written, so that a conditional jump can name the
//! token it skips to.

use vstd::prelude::*;

use crate::ast::expression::Expression;
use crate::errors::error::{Error, ErrorView};
use crate::errors::error_kind::{ErrorKind, ErrorKindView};
use crate::ast::expression_kind::{BinaryEqualityOperation, BinaryOperation, ExpressionKind, UnaryOperation};
use crate::semantic_analyzer::types::Types;
use crate::text::{int_text, i64_text, nat_digits, push_str, usize_text};

verus! {

/// Whether the generator has code for `e` and everything inside it: literals
/// other than floats, names, the four arithmetic operations, signs,
/// comparisons, bindings, blocks and conditionals.
pub open spec fn compilable(e: Expression) -> bool
    decreases e, 0int,
{
    match e.kind {
        ExpressionKind::Int(_) | ExpressionKind::Boolean(_) | ExpressionKind::String(_) | ExpressionKind::Identifier(_, _) => true,
        ExpressionKind::InfixBinaryExpression(op, left, right) => {
            &&& (op == BinaryOperation::Plus || op == BinaryOperation::Minus || op == BinaryOperation::Multiply
                || op == BinaryOperation::Divide)
            &&& compilable(*left)
            &&& compilable(*right)
        },
        ExpressionKind::UnaryExpression(op, sub) => op != UnaryOperation::Not && compilable(*sub),
        ExpressionKind::BinaryEqualityExpression(_, left, right) => compilable(*left) && compilable(*right),
        ExpressionKind::LetExpression(_, _, value) => match value {
            None => true,
            Some(v) => compilable(*v),
        },
        ExpressionKind::BlockExpression(exprs) => compilable_from(exprs@, 0),
        ExpressionKind::IfExpression(condition, then_branch, else_branch) => {
            &&& compilable(*condition)
            &&& compilable(*then_branch)
            &&& match else_branch {
                None => true,
                Some(other) => compilable(*other),
            }
        },
        _ => false,
    }
}

/// Whether every expression of `es` from index `i` on is compilable.
pub open spec fn compilable_from(es: Seq<Expression>, i: int) -> bool
    decreases es, es.len() - i,
{
    if i < 0 || i >= es.len() {
        true
    } else {
        compilable(es[i]) && compilable_from(es, i + 1)
    }
}

/// The instruction that applies an arithmetic operation.
pub open spec fn instruction(op: BinaryOperation) -> Seq<char> {
    match op {
        BinaryOperation::Plus => "add"@,
        BinaryOperation::Minus => "sub"@,
        BinaryOperation::Multiply => "mul"@,
        _ => "div"@,
    }
}

/// The instruction that applies a comparison.
pub open spec fn comparison_instruction(op: BinaryEqualityOperation) -> Seq<char> {
    match op {
        BinaryEqualityOperation::Equals => "eq"@,
        BinaryEqualityOperation::NotEquals => "neq"@,
        BinaryEqualityOperation::LessThan => "lt"@,
        BinaryEqualityOperation::LessThanEqual => "lte"@,
        BinaryEqualityOperation::GreaterThan => "gt"@,
        BinaryEqualityOperation::GreaterThanEqual => "gte"@,
    }
}

/// The code of `e` and the generator's label and token counters after it,
/// starting from the counters `label` and `tok`.
pub open spec fn compiled(e: Expression, label: int, tok: int) -> (Seq<char>, int, int)
    decreases e, 0int,
{
    match e.kind {
        ExpressionKind::Int(v) => ("push "@ + int_text(v as int), label, tok + 2),
        ExpressionKind::Boolean(b) => (if b { "push true"@ } else { "push false"@ }, label, tok + 2),
        ExpressionKind::String(s) => ("push '"@ + s@ + "'"@, label, tok + 2),
        ExpressionKind::Identifier(name, _) => ("push "@ + name@, label, tok + 2),
        ExpressionKind::InfixBinaryExpression(op, left, right) => {
            let (r, l1, t1) = compiled(*right, label, tok);
            let (l, l2, t2) = compiled(*left, l1, t1);
            (r + "\n"@ + l + "\npush "@ + instruction(op), l2, t2 + 2)
        },
        ExpressionKind::UnaryExpression(op, sub) => if op == UnaryOperation::Negative {
            let (s, l1, t1) = compiled(*sub, label, tok + 4);
            (s + "\n"@ + "push -1\npush mul"@, l1, t1)
        } else {
            let (s, l1, t1) = compiled(*sub, label, tok);
            (s + "\n"@, l1, t1)
        },
        ExpressionKind::BinaryEqualityExpression(op, left, right) => {
            let (r, l1, t1) = compiled(*right, label, tok);
            let (l, l2, t2) = compiled(*left, l1, t1);
            (r + "\n"@ + l + "\npush "@ + comparison_instruction(op) + " pop pop"@, l2, t2 + 4)
        },
        ExpressionKind::LetExpression(name, _, value) => match value {
            Some(v) => {
                let (c, l1, t1) = compiled(*v, label, tok);
                (c + "\nset "@ + name@ + " pop"@, l1, t1 + 3)
            },
            None => ("set "@ + name@ + " void"@, label, tok + 3),
        },
        ExpressionKind::BlockExpression(exprs) => {
            let (body, l1, t1) = compiled_from(exprs@, 0, label + 1, tok + 1);
            let name = nat_digits(label as nat);
            ("@__"@ + name + "__"@ + body + "\nend\ncall __"@ + name + "__"@, l1, t1 + 3)
        },
        ExpressionKind::IfExpression(condition, then_branch, else_branch) => {
            let (c, l1, t1) = compiled(*condition, label, tok);
            let (t, l2, t2) = compiled(*then_branch, l1, t1);
            match else_branch {
                None => (c + "\njmpf "@ + nat_digits((t2 + 2) as nat) + "\n"@ + t, l2, t2),
                Some(other) => {
                    let (o, l3, t3) = compiled(*other, l2, t2);
                    (
                        c + "\njmpf "@ + nat_digits((t2 + 4) as nat) + "\n"@ + t + "\njmp "@ + nat_digits((t3 + 4) as nat)
                            + "\n"@ + o,
                        l3,
                        t3,
                    )
                },
            }
        },
        _ => (Seq::empty(), label, tok),
    }
}

/// The code of the expressions of `es` from index `i` on, each on a line of
/// its own after a line break, and the counters after them.
pub open spec fn compiled_from(es: Seq<Expression>, i: int, label: int, tok: int) -> (Seq<char>, int, int)
    decreases es, es.len() - i,
{
    if i < 0 || i >= es.len() {
        (Seq::empty(), label, tok)
    } else {
        let (c, l1, t1) = compiled(es[i], label, tok);
        let (rest, l2, t2) = compiled_from(es, i + 1, l1, t1);
        ("\n"@ + c + rest, l2, t2)
    }
}

/// The file a whole program becomes: a `main` label holding the code of
/// each expression, and the counters after it.
pub open spec fn compiled_program(ast: Seq<Expression>, label: int, tok: int) -> (Seq<char>, int, int) {
    let (body, l1, t1) = compiled_from(ast, 0, label, tok + 1);
    ("@main"@ + body + "\nend"@, l1, t1 + 1)
}

/// The message of the error a program the generator has no code for gets.
pub open spec fn no_code_message() -> Seq<char> {
    "The Compiler Has No Code For Some Of The Expressions."@
}

/// Whether the generator has code for every expression of `ast` (it has
/// none for the others, and gives up on a program that holds one).
pub fn can_compile(ast: &Vec<Expression>) -> (res: bool)
    ensures
        res == compilable_from(ast@, 0),
{
    all_compilable(ast)
}

fn all_compilable(es: &Vec<Expression>) -> (res: bool)
    ensures
        res == compilable_from(es@, 0),
    decreases *es, 0int,
{
    let mut i: usize = es.len();
    let mut ok = true;
    while i > 0
        invariant
            i <= es@.len(),
            ok == compilable_from(es@, i as int),
        decreases i,
    {
        i = i - 1;
        proof {
            assert(decreases_to!(*es => es@));
            assert(decreases_to!(es@ => es@[i as int]));
        }
        ok = is_compilable(&es[i]) && ok;
    }
    ok
}

fn is_compilable(e: &Expression) -> (res: bool)
    ensures
        res == compilable(*e),
    decreases *e, 1int,
{
    match &e.kind {
        ExpressionKind::Int(_) | ExpressionKind::Boolean(_) | ExpressionKind::String(_) | ExpressionKind::Identifier(_, _) => true,
        ExpressionKind::InfixBinaryExpression(op, left, right) => {
            (*op == BinaryOperation::Plus || *op == BinaryOperation::Minus || *op == BinaryOperation::Multiply
                || *op == BinaryOperation::Divide) && is_compilable(left) && is_compilable(right)
        },
        ExpressionKind::UnaryExpression(op, sub) => *op != UnaryOperation::Not && is_compilable(sub),
        ExpressionKind::BinaryEqualityExpression(_, left, right) => is_compilable(left) && is_compilable(right),
        ExpressionKind::LetExpression(_, _, value) => match value {
            None => true,
            Some(v) => is_compilable(v),
        },
        ExpressionKind::BlockExpression(exprs) => {
            proof {
                assert(decreases_to!(*e => e.kind));
                assert(decreases_to!(e.kind => *exprs));
            }
            all_compilable(exprs)
        },
        ExpressionKind::IfExpression(condition, then_branch, else_branch) => {
            is_compilable(condition) && is_compilable(then_branch) && match else_branch {
                None => true,
                Some(other) => is_compilable(other),
            }
        },
        _ => false,
    }
}

/// The counters never go down while code is generated.
pub proof fn lemma_counters_grow(e: Expression, label: int, tok: int)
    ensures
        compiled(e, label, tok).1 >= label,
        compiled(e, label, tok).2 >= tok,
    decreases e, 0int,
{
    match e.kind {
        ExpressionKind::InfixBinaryExpression(_, left, right) | ExpressionKind::BinaryEqualityExpression(_, left, right) => {
            lemma_counters_grow(*right, label, tok);
            let (_, l1, t1) = compiled(*right, label, tok);
            lemma_counters_grow(*left, l1, t1);
        },
        ExpressionKind::UnaryExpression(op, sub) => {
            lemma_counters_grow(*sub, label, tok + 4);
            lemma_counters_grow(*sub, label, tok);
        },
        ExpressionKind::LetExpression(_, _, value) => {
            if let Some(v) = value {
                lemma_counters_grow(*v, label, tok);
            }
        },
        ExpressionKind::BlockExpression(exprs) => {
            lemma_counters_grow_from(exprs@, 0, label + 1, tok + 1);
        },
        ExpressionKind::IfExpression(condition, then_branch, else_branch) => {
            lemma_counters_grow(*condition, label, tok);
            let (_, l1, t1) = compiled(*condition, label, tok);
            lemma_counters_grow(*then_branch, l1, t1);
            if let Some(other) = else_branch {
                let (_, l2, t2) = compiled(*then_branch, l1, t1);
                lemma_counters_grow(*other, l2, t2);
            }
        },
        _ => {},
    }
}

/// Each arithmetic operation has an instruction of its own: the code of
/// `left op right` is the code of `right`, then that of `left` (each on a
/// line of its own), then `push` and the operation's instruction: `add` for
/// `+`, `sub` for `-`, `mul` for `*` and `div` for `/`.
pub proof fn lemma_arithmetic_instructions(e: Expression, op: BinaryOperation, left: Box<Expression>, right: Box<Expression>, label: int, tok: int)
    requires
        e.kind == ExpressionKind::InfixBinaryExpression(op, left, right),
    ensures
        ({
            let (r, l1, t1) = compiled(*right, label, tok);
            let l = compiled(*left, l1, t1).0;
            let name = if op is Plus {
                "add"@
            } else if op is Minus {
                "sub"@
            } else if op is Multiply {
                "mul"@
            } else {
                "div"@
            };
            compiled(e, label, tok).0 == r + "\n"@ + l + "\npush "@ + name
        }),
{
}

/// Each comparison has an instruction of its own: the code of
/// `left op right` is the code of `right`, then that of `left`, then `push`
/// and the comparison's instruction (`eq` for `=`, `neq` for `!=`, `lt` for
/// `<`, `lte` for `<=`, `gt` for `>`, `gte` for `>=`), which pops both
/// operands.
pub proof fn lemma_comparison_instructions(
    e: Expression,
    op: BinaryEqualityOperation,
    left: Box<Expression>,
    right: Box<Expression>,
    label: int,
    tok: int,
)
    requires
        e.kind == ExpressionKind::BinaryEqualityExpression(op, left, right),
    ensures
        ({
            let (r, l1, t1) = compiled(*right, label, tok);
            let l = compiled(*left, l1, t1).0;
            let name = if op is Equals {
                "eq"@
            } else if op is NotEquals {
                "neq"@
            } else if op is LessThan {
                "lt"@
            } else if op is LessThanEqual {
                "lte"@
            } else if op is GreaterThan {
                "gt"@
            } else {
                "gte"@
            };
            compiled(e, label, tok).0 == r + "\n"@ + l + "\npush "@ + name + " pop pop"@
        }),
{
}

/// A minus sign multiplies its operand's value by -1, and a plus sign adds
/// no code of its own: the code of `-x` is that of `x`, then `push -1` and
/// `push mul`; that of `+x` is that of `x` and a line break.
pub proof fn lemma_sign_code(e: Expression, op: UnaryOperation, operand: Box<Expression>, label: int, tok: int)
    requires
        e.kind == ExpressionKind::UnaryExpression(op, operand),
    ensures
        op == UnaryOperation::Negative ==> compiled(e, label, tok).0 == compiled(*operand, label, tok + 4).0 + "\n"@
            + "push -1\npush mul"@,
        op == UnaryOperation::Positive ==> compiled(e, label, tok).0 == compiled(*operand, label, tok).0 + "\n"@,
{
}

/// A binding of a value sets the name to the value popped off the stack,
/// after the value's code; one without a value sets the name to `void`.
pub proof fn lemma_binding_code(
    e: Expression,
    name: String,
    t: Types,
    value: Option<Box<Expression>>,
    label: int,
    tok: int,
)
    requires
        e.kind == ExpressionKind::LetExpression(name, t, value),
    ensures
        value matches Some(v) ==> compiled(e, label, tok).0 == compiled(*v, label, tok).0 + "\nset "@ + name@ + " pop"@,
        value is None ==> compiled(e, label, tok).0 == "set "@ + name@ + " void"@,
{
}

/// A block becomes a label of its own, numbered by the label counter, holding
/// the code of its expressions in order and called where the block stands;
/// the counter then lies past that number, so no block generated later
/// reuses the label.
pub proof fn lemma_block_code(e: Expression, label: int, tok: int)
    requires
        e.kind is BlockExpression,
    ensures
        ({
            let exprs = e.kind->BlockExpression_0;
            let name = nat_digits(label as nat);
            compiled(e, label, tok).0 == "@__"@ + name + "__"@ + compiled_from(exprs@, 0, label + 1, tok + 1).0
                + "\nend\ncall __"@ + name + "__"@
        }),
        compiled(e, label, tok).1 >= label + 1,
{
    let exprs = e.kind->BlockExpression_0;
    lemma_counters_grow_from(exprs@, 0, label + 1, tok + 1);
}

/// The counters never go down while a run of expressions is generated.
pub proof fn lemma_counters_grow_from(es: Seq<Expression>, i: int, label: int, tok: int)
    ensures
        compiled_from(es, i, label, tok).1 >= label,
        compiled_from(es, i, label, tok).2 >= tok,
    decreases es, es.len() - i,
{
    if 0 <= i < es.len() {
        lemma_counters_grow(es[i], label, tok);
        let (_, l1, t1) = compiled(es[i], label, tok);
        lemma_counters_grow_from(es, i + 1, l1, t1);
    }
}

/// Generates Dark code, numbering the labels of blocks and counting the
/// tokens written so far.
pub struct Compiler {
    label_value: usize,
    token_idx: usize,
}

impl Compiler {
    /// The label counter.
    pub closed spec fn label(&self) -> int {
        self.label_value as int
    }

    /// The token counter.
    pub closed spec fn tokens(&self) -> int {
        self.token_idx as int
    }

    /// A generator whose counters stand at zero.
    pub fn new() -> (res: Compiler)
        ensures
            res.label() == 0,
            res.tokens() == 0,
    {
        Compiler { label_value: 0, token_idx: 0 }
    }

    /// The text of the Dark file for the program `ast`: `@main`, the code of
    /// each expression on lines of its own, and `end`. A program holding an
    /// expression the generator has no code for is refused, with the
    /// counters left as they were.
    pub fn compile(&mut self, ast: &Vec<Expression>) -> (res: Result<String, Error>)
        requires
            compilable_from(ast@, 0) ==> compiled_program(ast@, old(self).label(), old(self).tokens()).1
                <= usize::MAX,
            compilable_from(ast@, 0) ==> compiled_program(ast@, old(self).label(), old(self).tokens()).2 + 4
                <= usize::MAX,
        ensures
            match res {
                Ok(code) => compilable_from(ast@, 0) && (code@, final(self).label(), final(self).tokens())
                    == compiled_program(ast@, old(self).label(), old(self).tokens()),
                Err(e) => !compilable_from(ast@, 0) && e@ == (ErrorView {
                    kind: ErrorKindView::SystemError(no_code_message()),
                    position: None,
                }) && final(self).label() == old(self).label() && final(self).tokens()
                    == old(self).tokens(),
            },
    {
        if !can_compile(ast) {
            return Err(
                Error::message_only(ErrorKind::SystemError("The Compiler Has No Code For Some Of The Expressions.".to_owned())),
            );
        }
        proof {
            lemma_counters_grow_from(ast@, 0, self.label(), self.tokens() + 1);
        }
        let mut contents = String::new();
        push_str(&mut contents, "@main");
        self.token_idx = self.token_idx + 1;
        let body = self.compile_sequence(ast);
        push_str(&mut contents, body.as_str());
        push_str(&mut contents, "\nend");
        self.token_idx = self.token_idx + 1;
        Ok(contents)
    }

    /// The code of each expression of `es`, each after a line break.
    fn compile_sequence(&mut self, es: &Vec<Expression>) -> (res: String)
        requires
            compilable_from(es@, 0),
            compiled_from(es@, 0, old(self).label(), old(self).tokens()).1 <= usize::MAX,
            compiled_from(es@, 0, old(self).label(), old(self).tokens()).2 + 4 <= usize::MAX,
        ensures
            (res@, final(self).label(), final(self).tokens()) == compiled_from(
                es@,
                0,
                old(self).label(),
                old(self).tokens(),
            ),
        decreases *es, 0int,
    {
        let ghost total = compiled_from(es@, 0, self.label(), self.tokens());
        let mut text = String::new();
        let mut i: usize = 0;
        while i < es.len()
            invariant
                i <= es@.len(),
                compilable_from(es@, i as int),
                total.1 <= usize::MAX,
                total.2 + 4 <= usize::MAX,
                total == (
                    text@ + compiled_from(es@, i as int, self.label(), self.tokens()).0,
                    compiled_from(es@, i as int, self.label(), self.tokens()).1,
                    compiled_from(es@, i as int, self.label(), self.tokens()).2,
                ),
            decreases es@.len() - i,
        {
            let ghost before = (self.label(), self.tokens());
            let ghost step = compiled(es@[i as int], before.0, before.1);
            proof {
                lemma_counters_grow_from(es@, i + 1, step.1, step.2);
                assert(decreases_to!(*es => es@));
                assert(decreases_to!(es@ => es@[i as int]));
            }
            let code = self.compile_expression(&es[i]);
            let ghost old_text = text@;
            push_str(&mut text, "\n");
            push_str(&mut text, code.as_str());
            proof {
                let rest = compiled_from(es@, i + 1, step.1, step.2);
                assert(old_text + ("\n"@ + code@ + rest.0) =~= text@ + rest.0);
            }
            i = i + 1;
        }
        text
    }

    /// The code of `e`.
    fn compile_expression(&mut self, e: &Expression) -> (res: String)
        requires
            compilable(*e),
            compiled(*e, old(self).label(), old(self).tokens()).1 <= usize::MAX,
            compiled(*e, old(self).label(), old(self).tokens()).2 + 4 <= usize::MAX,
        ensures
            (res@, final(self).label(), final(self).tokens()) == compiled(*e, old(self).label(), old(self).tokens()),
        decreases *e, 1int,
    {
        let ghost label = self.label();
        let ghost tok = self.tokens();
        proof {
            lemma_counters_grow(*e, label, tok);
        }
        match &e.kind {
            ExpressionKind::Int(value) => {
                self.token_idx = self.token_idx + 2;
                let mut res = String::new();
                push_str(&mut res, "push ");
                let digits = i64_text(*value);
                push_str(&mut res, digits.as_str());
                res
            },
            ExpressionKind::Boolean(value) => {
                self.token_idx = self.token_idx + 2;
                if *value {
                    "push true".to_owned()
                } else {
                    "push false".to_owned()
                }
            },
            ExpressionKind::String(value) => {
                self.token_idx = self.token_idx + 2;
                let mut res = String::new();
                push_str(&mut res, "push '");
                push_str(&mut res, value.as_str());
                push_str(&mut res, "'");
                res
            },
            ExpressionKind::Identifier(name, _) => {
                self.token_idx = self.token_idx + 2;
                let mut res = String::new();
                push_str(&mut res, "push ");
                push_str(&mut res, name.as_str());
                res
            },
            ExpressionKind::InfixBinaryExpression(operation, left, right) => {
                proof {
                    lemma_counters_grow(**right, label, tok);
                    let (_, l1, t1) = compiled(**right, label, tok);
                    lemma_counters_grow(**left, l1, t1);
                }
                let r = self.compile_expression(right);
                let l = self.compile_expression(left);
                let mut res = r;
                push_str(&mut res, "\n");
                push_str(&mut res, l.as_str());
                push_str(&mut res, "\npush ");
                let name = match operation {
                    BinaryOperation::Plus => "add",
                    BinaryOperation::Minus => "sub",
                    BinaryOperation::Multiply => "mul",
                    _ => "div",
                };
                push_str(&mut res, name);
                self.token_idx = self.token_idx + 2;
                res
            },
            ExpressionKind::UnaryExpression(operation, sub) => {
                if *operation == UnaryOperation::Negative {
                    proof {
                        lemma_counters_grow(**sub, label, tok + 4);
                    }
                    self.token_idx = self.token_idx + 4;
                    let mut res = self.compile_expression(sub);
                    push_str(&mut res, "\n");
                    push_str(&mut res, "push -1\npush mul");
                    res
                } else {
                    let mut res = self.compile_expression(sub);
                    push_str(&mut res, "\n");
                    res
                }
            },
            ExpressionKind::BinaryEqualityExpression(operation, left, right) => {
                proof {
                    lemma_counters_grow(**right, label, tok);
                    let (_, l1, t1) = compiled(**right, label, tok);
                    lemma_counters_grow(**left, l1, t1);
                }
                let r = self.compile_expression(right);
                let l = self.compile_expression(left);
                let mut res = r;
                push_str(&mut res, "\n");
                push_str(&mut res, l.as_str());
                push_str(&mut res, "\npush ");
                let name = match operation {
                    BinaryEqualityOperation::Equals => "eq",
                    BinaryEqualityOperation::NotEquals => "neq",
                    BinaryEqualityOperation::LessThan => "lt",
                    BinaryEqualityOperation::LessThanEqual => "lte",
                    BinaryEqualityOperation::GreaterThan => "gt",
                    BinaryEqualityOperation::GreaterThanEqual => "gte",
                };
                push_str(&mut res, name);
                push_str(&mut res, " pop pop");
                self.token_idx = self.token_idx + 4;
                res
            },
            ExpressionKind::LetExpression(name, _, value) => {
                let res = match value {
                    Some(v) => {
                        let mut res = self.compile_expression(v);
                        push_str(&mut res, "\nset ");
                        push_str(&mut res, name.as_str());
                        push_str(&mut res, " pop");
                        res
                    },
                    None => {
                        let mut res = String::new();
                        push_str(&mut res, "set ");
                        push_str(&mut res, name.as_str());
                        push_str(&mut res, " void");
                        res
                    },
                };
                self.token_idx = self.token_idx + 3;
                res
            },
            ExpressionKind::BlockExpression(expressions) => {
                proof {
                    lemma_counters_grow_from(expressions@, 0, label + 1, tok + 1);
                }
                let label_value = self.label_value;
                let name = usize_text(label_value);
                let mut res = String::new();
                push_str(&mut res, "@__");
                push_str(&mut res, name.as_str());
                push_str(&mut res, "__");
                self.label_value = self.label_value + 1;
                self.token_idx = self.token_idx + 1;
                proof {
                    assert(decreases_to!(*e => e.kind));
                    assert(decreases_to!(e.kind => *expressions));
                }
                let body = self.compile_sequence(expressions);
                push_str(&mut res, body.as_str());
                push_str(&mut res, "\nend\ncall __");
                push_str(&mut res, name.as_str());
                push_str(&mut res, "__");
                self.token_idx = self.token_idx + 3;
                res
            },
            ExpressionKind::IfExpression(condition, then_branch, else_branch) => {
                proof {
                    lemma_counters_grow(**condition, label, tok);
                    let (_, l1, t1) = compiled(**condition, label, tok);
                    lemma_counters_grow(**then_branch, l1, t1);
                    if let Some(other) = else_branch {
                        let (_, l2, t2) = compiled(**then_branch, l1, t1);
                        lemma_counters_grow(**other, l2, t2);
                    }
                }
                let c = self.compile_expression(condition);
                let t = self.compile_expression(then_branch);
                match else_branch {
                    None => {
                        let target = usize_text(self.token_idx + 2);
                        let mut res = c;
                        push_str(&mut res, "\njmpf ");
                        push_str(&mut res, target.as_str());
                        push_str(&mut res, "\n");
                        push_str(&mut res, t.as_str());
                        res
                    },
                    Some(other) => {
                        let else_start = usize_text(self.token_idx + 4);
                        let o = self.compile_expression(other);
                        let end = usize_text(self.token_idx + 4);
                        let mut res = c;
                        push_str(&mut res, "\njmpf ");
                        push_str(&mut res, else_start.as_str());
                        push_str(&mut res, "\n");
                        push_str(&mut res, t.as_str());
                        push_str(&mut res, "\njmp ");
                        push_str(&mut res, end.as_str());
                        push_str(&mut res, "\n");
                        push_str(&mut res, o.as_str());
                        res
                    },
                }
            },
            _ => String::new(),
        }
    }
}

} // verus!

use vstd::prelude::*;
use crate::ast::{all_native_free, native_free, Node};
use crate::natives::{native_call, native_post};
use crate::registry::Registry;
use crate::store::{assign, lemma_assign_commutes, lookup, sorted, Store};
use crate::value::{
    do_eq, do_lt, do_math, eq_spec, is_nan_bits, lemma_eq_cross_variant, lemma_eq_reflexive, lt_spec,
    math_spec, values_equal, variant_of, ArithOp, ExecResult, Fault, RelType,
};

verus! {

/// The most iterations one `While` node may run before it faults: a bound
/// that no run reaches, which leaves only the machine's limits.
pub const LOOP_LIMIT: u64 = 0xffff_ffff_ffff_ffff;

/// A variable store as the specification sees it: names with their values,
/// in order.
pub type StoreModel = Seq<(Seq<char>, RelType)>;

/// Evaluates `node` against the store `s`: the outcome and the store after.
///
/// This describes programs without native calls; what a native call does is
/// the registry's contract (`native_call`). An assignment whose right-hand
/// side returns binds the returned value and yields it as a plain value: the
/// return does not unwind past the assignment.
pub open spec fn eval(node: Node, s: StoreModel) -> (ExecResult, StoreModel)
    decreases node, LOOP_LIMIT + 1,
{
    match node {
        Node::IntLiteral(v) => (ExecResult::Value(RelType::Int(v)), s),
        Node::FloatLiteral(v) => (ExecResult::Value(RelType::Float(v)), s),
        Node::BoolLiteral(v) => (ExecResult::Value(RelType::Bool(v)), s),
        Node::StringLiteral(v) => (ExecResult::Value(RelType::Str(v)), s),
        Node::Identifier(name) => match lookup(s, name@) {
            Some(v) => (ExecResult::Value(v), s),
            None => (ExecResult::Fault(Fault::UndefinedIdentifier), s),
        },
        Node::Assign(name, e) => {
            let (r, s1) = eval(*e, s);
            match r {
                ExecResult::Value(v) => (ExecResult::Value(v), assign(s1, name@, v)),
                ExecResult::ReturnBlockInfo(v) => (ExecResult::Value(v), assign(s1, name@, v)),
                ExecResult::Fault(f) => (ExecResult::Fault(f), s1),
            }
        },
        Node::Add(l, r) | Node::Sub(l, r) | Node::Mul(l, r) | Node::Div(l, r) => {
            let (lv, s1) = eval(*l, s);
            let (rv, s2) = eval(*r, s1);
            (math_spec(arith_op_of(node), lv, rv), s2)
        },
        Node::Eq(l, r) => {
            let (lv, s1) = eval(*l, s);
            let (rv, s2) = eval(*r, s1);
            (eq_spec(lv, rv), s2)
        },
        Node::Lt(l, r) => {
            let (lv, s1) = eval(*l, s);
            let (rv, s2) = eval(*r, s1);
            (lt_spec(lv, rv), s2)
        },
        Node::If(c, t, e) => {
            let (cv, s1) = eval(*c, s);
            match cv {
                ExecResult::Value(RelType::Bool(true)) => eval(*t, s1),
                ExecResult::Value(RelType::Bool(false)) => match e {
                    Some(e) => eval(*e, s1),
                    None => (ExecResult::Value(RelType::Void), s1),
                },
                ExecResult::Fault(f) => (ExecResult::Fault(f), s1),
                _ => (ExecResult::Fault(Fault::IfConditionNotBoolean), s1),
            }
        },
        Node::While(_, _) => eval_while(node, s, LOOP_LIMIT as nat),
        Node::Block(nodes) => eval_block(nodes@, s, RelType::Void),
        Node::Return(e) => {
            let (r, s1) = eval(*e, s);
            match r {
                ExecResult::Value(v) => (ExecResult::ReturnBlockInfo(v), s1),
                other => (other, s1),
            }
        },
        Node::NativeCall(_, _, _) => (ExecResult::Fault(Fault::UnknownNativeFunction), s),
    }
}

/// The operator of an arithmetic node.
pub open spec fn arith_op_of(node: Node) -> ArithOp {
    match node {
        Node::Sub(_, _) => ArithOp::Sub,
        Node::Mul(_, _) => ArithOp::Mul,
        Node::Div(_, _) => ArithOp::Div,
        _ => ArithOp::Add,
    }
}

/// A `While` node with at most `k` more iterations allowed.
pub open spec fn eval_while(w: Node, s: StoreModel, k: nat) -> (
    ExecResult,
    StoreModel,
)
    decreases w, k,
{
    match w {
        Node::While(c, b) => {
            let (cv, s1) = eval(*c, s);
            match cv {
                ExecResult::Value(RelType::Bool(true)) => if k == 0 {
                    (ExecResult::Fault(Fault::LoopLimitExceeded), s1)
                } else {
                    let (bv, s2) = eval(*b, s1);
                    match bv {
                        ExecResult::Value(_) => eval_while(w, s2, (k - 1) as nat),
                        other => (other, s2),
                    }
                },
                ExecResult::Value(RelType::Bool(false)) => (ExecResult::Value(RelType::Void), s1),
                ExecResult::Fault(f) => (ExecResult::Fault(f), s1),
                _ => (ExecResult::Fault(Fault::WhileConditionNotBoolean), s1),
            }
        },
        _ => (ExecResult::Value(RelType::Void), s),
    }
}

/// The rest of a block, `last` being the value of the child before.
pub open spec fn eval_block(
    nodes: Seq<Node>,
    s: StoreModel,
    last: RelType,
) -> (ExecResult, StoreModel)
    decreases nodes, 0nat,
{
    if nodes.len() == 0 {
        (ExecResult::Value(last), s)
    } else {
        let (r, s1) = eval(nodes[0], s);
        match r {
            ExecResult::Value(v) => eval_block(nodes.drop_first(), s1, v),
            other => (other, s1),
        }
    }
}


/// An `Eq` node whose operands give values compares them by variant and
/// payload: values of different variants give `false`, never a fault, and a
/// value equals itself (a float NaN aside).
pub proof fn lemma_eq_node(l: Box<Node>, r: Box<Node>, s: StoreModel, a: RelType, b: RelType)
    requires
        eval(*l, s).0 == ExecResult::Value(a),
        eval(*r, eval(*l, s).1).0 == ExecResult::Value(b),
    ensures
        eval(Node::Eq(l, r), s).0 == ExecResult::Value(RelType::Bool(values_equal(a, b))),
        variant_of(a) != variant_of(b) ==> eval(Node::Eq(l, r), s).0 == ExecResult::Value(
            RelType::Bool(false),
        ),
        a == b && !(a is Float && is_nan_bits(a->Float_0)) ==> eval(Node::Eq(l, r), s).0
            == ExecResult::Value(RelType::Bool(true)),
{
    if variant_of(a) != variant_of(b) {
        lemma_eq_cross_variant(a, b);
    }
    if a == b && !(a is Float && is_nan_bits(a->Float_0)) {
        lemma_eq_reflexive(a);
    }
}

/// The same law for any program, native calls included: when the operands
/// give values `a` and `b`, the `Eq` node gives `values_equal(a, b)`, which is
/// `false` across variants; and whatever it gives is the comparison of what
/// its operands gave.
pub proof fn lemma_eq_node_rel(
    l: Box<Node>,
    r: Box<Node>,
    s: StoreModel,
    g: Registry,
    a: RelType,
    s1: StoreModel,
    g1: Registry,
    b: RelType,
    s2: StoreModel,
    g2: Registry,
)
    requires
        eval_rel(*l, s, g, ExecResult::Value(a), s1, g1),
        eval_rel(*r, s1, g1, ExecResult::Value(b), s2, g2),
    ensures
        eval_rel(Node::Eq(l, r), s, g, ExecResult::Value(RelType::Bool(values_equal(a, b))), s2, g2),
        variant_of(a) != variant_of(b) ==> eval_rel(
            Node::Eq(l, r),
            s,
            g,
            ExecResult::Value(RelType::Bool(false)),
            s2,
            g2,
        ),
        forall|res: ExecResult, t2: StoreModel, h2: Registry|
            #[trigger] eval_rel(Node::Eq(l, r), s, g, res, t2, h2) ==> exists|
                o1: ExecResult,
                t1: StoreModel,
                h1: Registry,
                o2: ExecResult,
            |
                #[trigger] step2(o1, t1, h1, o2) && eval_rel(*l, s, g, o1, t1, h1) && eval_rel(
                    *r,
                    t1,
                    h1,
                    o2,
                    t2,
                    h2,
                ) && res == eq_spec(o1, o2),
{
    assert(step2(ExecResult::Value(a), s1, g1, ExecResult::Value(b)));
    if variant_of(a) != variant_of(b) {
        lemma_eq_cross_variant(a, b);
    }
}

/// The store after `n` full iterations of a loop with condition `c` and body
/// `b`, started on `s`.
pub open spec fn iterate(c: Node, b: Node, s: StoreModel, n: nat) -> StoreModel
    decreases n,
{
    if n == 0 {
        s
    } else {
        let p = iterate(c, b, s, (n - 1) as nat);
        eval(b, eval(c, p).1).1
    }
}

/// The first `n` iterations each find the condition true and end their body
/// with a plain value.
pub open spec fn runs_on(c: Node, b: Node, s: StoreModel, n: nat) -> bool {
    forall|j: nat|
        j < n ==> {
            let p = #[trigger] iterate(c, b, s, j);
            eval(c, p).0 == ExecResult::Value(RelType::Bool(true)) && eval(b, eval(c, p).1).0 is Value
        }
}

proof fn lemma_loop_prefix(c: Box<Node>, b: Box<Node>, s: StoreModel, n: nat, k: nat)
    requires
        runs_on(*c, *b, s, n),
        n <= k,
    ensures
        eval_while(Node::While(c, b), s, k) == eval_while(
            Node::While(c, b),
            iterate(*c, *b, s, n),
            (k - n) as nat,
        ),
    decreases n,
{
    if n > 0 {
        let m = (n - 1) as nat;
        assert(runs_on(*c, *b, s, m)) by {
            assert forall|j: nat| j < m implies {
                let p = #[trigger] iterate(*c, *b, s, j);
                eval(*c, p).0 == ExecResult::Value(RelType::Bool(true)) && eval(*b, eval(*c, p).1).0 is Value
            } by {
                assert(j < n);
            }
        }
        lemma_loop_prefix(c, b, s, m, k);
        let p = iterate(*c, *b, s, m);
        assert(m < n);
        assert(eval(*c, p).0 == ExecResult::Value(RelType::Bool(true)));
        assert(eval_while(Node::While(c, b), p, (k - m) as nat) == eval_while(
            Node::While(c, b),
            iterate(*c, *b, s, n),
            (k - n) as nat,
        ));
    }
}

/// A `Return` in any iteration of a loop body ends the whole loop: when the
/// first `n` iterations run through and the next one's body returns `v`, the
/// loop returns `v` unchanged, with the store that body left, and runs no
/// further iteration.
pub proof fn lemma_return_exits_loop_any_iteration(
    c: Box<Node>,
    b: Box<Node>,
    s: StoreModel,
    n: nat,
    v: RelType,
)
    requires
        runs_on(*c, *b, s, n),
        n < LOOP_LIMIT,
        eval(*c, iterate(*c, *b, s, n)).0 == ExecResult::Value(RelType::Bool(true)),
        eval(*b, eval(*c, iterate(*c, *b, s, n)).1).0 == ExecResult::ReturnBlockInfo(v),
    ensures
        eval(Node::While(c, b), s) == (
            ExecResult::ReturnBlockInfo(v),
            eval(*b, eval(*c, iterate(*c, *b, s, n)).1).1,
        ),
{
    let w = Node::While(c, b);
    assert(eval(w, s) == eval_while(w, s, LOOP_LIMIT as nat));
    lemma_loop_prefix(c, b, s, n, LOOP_LIMIT as nat);
}

/// For any program, native calls included: an iteration whose condition
/// holds and whose body returns `v` ends the loop with `v` unchanged.
pub proof fn lemma_loop_return_rel(
    c: Box<Node>,
    b: Box<Node>,
    s: StoreModel,
    g: Registry,
    k: nat,
    s1: StoreModel,
    g1: Registry,
    v: RelType,
    s3: StoreModel,
    g3: Registry,
)
    requires
        k > 0,
        eval_rel(*c, s, g, ExecResult::Value(RelType::Bool(true)), s1, g1),
        eval_rel(*b, s1, g1, ExecResult::ReturnBlockInfo(v), s3, g3),
    ensures
        eval_while_rel(Node::While(c, b), s, g, k, ExecResult::ReturnBlockInfo(v), s3, g3),
{
    assert(step(ExecResult::Value(RelType::Bool(true)), s1, g1));
    assert(step(ExecResult::ReturnBlockInfo(v), s3, g3));
}

/// For any program, native calls included: an iteration whose condition
/// holds and whose body gives a plain value passes on to the next iteration,
/// so whatever the rest of the loop gives, the whole loop gives. With
/// `lemma_loop_return_rel` this carries a `Return` in any iteration out of
/// the loop unchanged.
pub proof fn lemma_loop_step_rel(
    c: Box<Node>,
    b: Box<Node>,
    s: StoreModel,
    g: Registry,
    k: nat,
    s1: StoreModel,
    g1: Registry,
    bv: RelType,
    s3: StoreModel,
    g3: Registry,
    r: ExecResult,
    s2: StoreModel,
    g2: Registry,
)
    requires
        k > 0,
        eval_rel(*c, s, g, ExecResult::Value(RelType::Bool(true)), s1, g1),
        eval_rel(*b, s1, g1, ExecResult::Value(bv), s3, g3),
        eval_while_rel(Node::While(c, b), s3, g3, (k - 1) as nat, r, s2, g2),
    ensures
        eval_while_rel(Node::While(c, b), s, g, k, r, s2, g2),
{
    assert(step(ExecResult::Value(RelType::Bool(true)), s1, g1));
    assert(step(ExecResult::Value(bv), s3, g3));
}

/// A `While` node is its loop relation with the full budget.
pub proof fn lemma_while_is_loop(c: Box<Node>, b: Box<Node>, s: StoreModel, g: Registry, r: ExecResult, s2: StoreModel, g2: Registry)
    ensures
        eval_rel(Node::While(c, b), s, g, r, s2, g2) == eval_while_rel(
            Node::While(c, b),
            s,
            g,
            LOOP_LIMIT as nat,
            r,
            s2,
            g2,
        ),
{
}

/// A literal node.
pub open spec fn is_literal(n: Node) -> bool {
    n is IntLiteral || n is FloatLiteral || n is BoolLiteral || n is StringLiteral
}

/// The value of a literal node.
pub open spec fn literal_value(n: Node) -> RelType {
    match n {
        Node::IntLiteral(v) => RelType::Int(v),
        Node::FloatLiteral(v) => RelType::Float(v),
        Node::BoolLiteral(v) => RelType::Bool(v),
        Node::StringLiteral(v) => RelType::Str(v),
        _ => RelType::Void,
    }
}

/// Two assignments of literals to different names, followed by more of a
/// block, can be swapped: the block gives the same outcome and the same
/// store, so the report never depends on the order of assignment.
pub proof fn lemma_block_assign_order(
    x: String,
    ex: Box<Node>,
    y: String,
    ey: Box<Node>,
    rest: Seq<Node>,
    s: StoreModel,
    last: RelType,
)
    requires
        sorted(s),
        x@ != y@,
        is_literal(*ex),
        is_literal(*ey),
        rest.len() > 0,
    ensures
        eval_block(seq![Node::Assign(x, ex), Node::Assign(y, ey)] + rest, s, last) == eval_block(
            seq![Node::Assign(y, ey), Node::Assign(x, ex)] + rest,
            s,
            last,
        ),
{
    let ax = Node::Assign(x, ex);
    let ay = Node::Assign(y, ey);
    let vx = literal_value(*ex);
    let vy = literal_value(*ey);
    let l = seq![ax, ay] + rest;
    let r = seq![ay, ax] + rest;
    assert(eval(*ex, s) == (ExecResult::Value(vx), s));
    assert(eval(*ey, s) == (ExecResult::Value(vy), s));
    let sx = assign(s, x@, vx);
    let sy = assign(s, y@, vy);
    assert(eval(*ey, sx) == (ExecResult::Value(vy), sx));
    assert(eval(*ex, sy) == (ExecResult::Value(vx), sy));
    lemma_assign_commutes(s, x@, vx, y@, vy);
    let sxy = assign(sx, y@, vy);
    assert(l[0] == ax);
    assert(l.drop_first()[0] == ay);
    assert(l.drop_first().drop_first() =~= rest);
    assert(r[0] == ay);
    assert(r.drop_first()[0] == ax);
    assert(r.drop_first().drop_first() =~= rest);
    assert(eval(ax, s) == (ExecResult::Value(vx), sx));
    assert(eval(ay, s) == (ExecResult::Value(vy), sy));
    assert(eval(ay, sx) == (ExecResult::Value(vy), sxy));
    assert(eval(ax, sy) == (ExecResult::Value(vx), sxy));
    assert(eval_block(l, s, last) == eval_block(l.drop_first(), sx, vx));
    assert(eval_block(l.drop_first(), sx, vx) == eval_block(rest, sxy, vy));
    assert(eval_block(r, s, last) == eval_block(r.drop_first(), sy, vy));
    assert(eval_block(r.drop_first(), sy, vy) == eval_block(rest, sxy, vx));
    assert(eval_block(rest, sxy, vy) == eval_block(rest, sxy, vx));
}

/// A program that opens with two literal assignments to different names
/// runs the same, from an empty store, with the two swapped: same outcome,
/// same store, and so, by `execute`'s contract, the same report.
pub proof fn lemma_program_assign_order(
    p1: Vec<Node>,
    p2: Vec<Node>,
    x: String,
    ex: Box<Node>,
    y: String,
    ey: Box<Node>,
    rest: Seq<Node>,
)
    requires
        x@ != y@,
        is_literal(*ex),
        is_literal(*ey),
        rest.len() > 0,
        p1@ == seq![Node::Assign(x, ex), Node::Assign(y, ey)] + rest,
        p2@ == seq![Node::Assign(y, ey), Node::Assign(x, ex)] + rest,
    ensures
        eval(Node::Block(p1), Seq::empty()) == eval(Node::Block(p2), Seq::empty()),
{
    lemma_block_assign_order(x, ex, y, ey, rest, Seq::empty(), RelType::Void);
}

/// A marker that names an intermediate state of an evaluation: the outcome
/// of a part and the store and registry it left. Quantifiers of the
/// relational model are triggered on it.
pub open spec fn step(o: ExecResult, s: StoreModel, g: Registry) -> bool {
    true
}

/// A marker for the two intermediate results of a binary node.
pub open spec fn step2(o1: ExecResult, s: StoreModel, g: Registry, o2: ExecResult) -> bool {
    true
}

/// A marker for the outcome of evaluating arguments.
pub open spec fn args_step(vals: Result<Seq<RelType>, ExecResult>, g: Registry) -> bool {
    true
}

/// Evaluation as a relation over the store and the registry: `node`, run
/// against store `s` and registry `g`, may give outcome `r` and leave store
/// `s2` and registry `g2`. It is a relation because a native call may read
/// the clock; on a program without native calls it is `eval` with the
/// registry untouched.
pub open spec fn eval_rel(
    node: Node,
    s: StoreModel,
    g: Registry,
    r: ExecResult,
    s2: StoreModel,
    g2: Registry,
) -> bool
    decreases node, LOOP_LIMIT + 1,
{
    match node {
        Node::Assign(name, e) => exists|o: ExecResult, s1: StoreModel|
            #[trigger] step(o, s1, g2) && eval_rel(*e, s, g, o, s1, g2) && match o {
                ExecResult::Value(v) => r == ExecResult::Value(v) && s2 == assign(s1, name@, v),
                ExecResult::ReturnBlockInfo(v) => r == ExecResult::Value(v) && s2 == assign(s1, name@, v),
                ExecResult::Fault(f) => r == ExecResult::Fault(f) && s2 == s1,
            },
        Node::Add(l, rn) | Node::Sub(l, rn) | Node::Mul(l, rn) | Node::Div(l, rn) => exists|
            o1: ExecResult,
            s1: StoreModel,
            g1: Registry,
            o2: ExecResult,
        |
            #[trigger] step2(o1, s1, g1, o2) && eval_rel(*l, s, g, o1, s1, g1) && eval_rel(*rn, s1, g1, o2, s2, g2) && r
                == math_spec(arith_op_of(node), o1, o2),
        Node::Eq(l, rn) => exists|o1: ExecResult, s1: StoreModel, g1: Registry, o2: ExecResult|
            #[trigger] step2(o1, s1, g1, o2) && eval_rel(*l, s, g, o1, s1, g1) && eval_rel(*rn, s1, g1, o2, s2, g2) && r
                == eq_spec(o1, o2),
        Node::Lt(l, rn) => exists|o1: ExecResult, s1: StoreModel, g1: Registry, o2: ExecResult|
            #[trigger] step2(o1, s1, g1, o2) && eval_rel(*l, s, g, o1, s1, g1) && eval_rel(*rn, s1, g1, o2, s2, g2) && r
                == lt_spec(o1, o2),
        Node::If(c, _, _) => exists|o: ExecResult, s1: StoreModel, g1: Registry|
            #[trigger] step(o, s1, g1) && eval_rel(*c, s, g, o, s1, g1) && if_branch_rel(node, o, s1, g1, r, s2, g2),
        Node::While(_, _) => eval_while_rel(node, s, g, LOOP_LIMIT as nat, r, s2, g2),
        Node::Block(nodes) => eval_block_rel(nodes@, s, g, RelType::Void, r, s2, g2),
        Node::Return(e) => exists|o: ExecResult|
            #[trigger] step(o, s2, g2) && eval_rel(*e, s, g, o, s2, g2) && r == match o {
                ExecResult::Value(v) => ExecResult::ReturnBlockInfo(v),
                other => other,
            },
        Node::NativeCall(m, f, args) => exists|
            vals: Result<Seq<RelType>, ExecResult>,
            g1: Registry,
        |
            #[trigger] args_step(vals, g1) && eval_args_rel(args@, s, g, Seq::empty(), vals, s2, g1) && match vals {
                Ok(vs) => native_post(g1, m@, f@, vs, r, g2),
                Err(o) => r == o && g2 == g1,
            },
        _ => (r, s2) == eval(node, s) && g2 == g,
    }
}

/// The relational form of an `If` node once its condition gave `o`, leaving
/// store `s` and registry `g`.
pub open spec fn if_branch_rel(
    node: Node,
    o: ExecResult,
    s: StoreModel,
    g: Registry,
    r: ExecResult,
    s2: StoreModel,
    g2: Registry,
) -> bool
    decreases node, 0nat,
{
    match node {
        Node::If(_, t, e) => match o {
            ExecResult::Value(RelType::Bool(true)) => eval_rel(*t, s, g, r, s2, g2),
            ExecResult::Value(RelType::Bool(false)) => match e {
                Some(e) => eval_rel(*e, s, g, r, s2, g2),
                None => r == ExecResult::Value(RelType::Void) && s2 == s && g2 == g,
            },
            ExecResult::Fault(f) => r == ExecResult::Fault(f) && s2 == s && g2 == g,
            _ => r == ExecResult::Fault(Fault::IfConditionNotBoolean) && s2 == s && g2 == g,
        },
        _ => false,
    }
}

/// The relational form of a `While` node with at most `k` more iterations.
pub open spec fn eval_while_rel(
    w: Node,
    s: StoreModel,
    g: Registry,
    k: nat,
    r: ExecResult,
    s2: StoreModel,
    g2: Registry,
) -> bool
    decreases w, k,
{
    match w {
        Node::While(c, b) => exists|o: ExecResult, s1: StoreModel, g1: Registry|
            #[trigger] step(o, s1, g1) && eval_rel(*c, s, g, o, s1, g1) && match o {
                ExecResult::Value(RelType::Bool(true)) => if k == 0 {
                    r == ExecResult::Fault(Fault::LoopLimitExceeded) && s2 == s1 && g2 == g1
                } else {
                    exists|bo: ExecResult, s3: StoreModel, g3: Registry|
                        #[trigger] step(bo, s3, g3) && eval_rel(*b, s1, g1, bo, s3, g3) && match bo {
                            ExecResult::Value(_) => eval_while_rel(w, s3, g3, (k - 1) as nat, r, s2, g2),
                            other => r == other && s2 == s3 && g2 == g3,
                        }
                },
                ExecResult::Value(RelType::Bool(false)) => r == ExecResult::Value(RelType::Void) && s2
                    == s1 && g2 == g1,
                ExecResult::Fault(f) => r == ExecResult::Fault(f) && s2 == s1 && g2 == g1,
                _ => r == ExecResult::Fault(Fault::WhileConditionNotBoolean) && s2 == s1 && g2 == g1,
            },
        _ => false,
    }
}

/// The relational form of the rest of a block, `last` being the value of the
/// child before.
pub open spec fn eval_block_rel(
    nodes: Seq<Node>,
    s: StoreModel,
    g: Registry,
    last: RelType,
    r: ExecResult,
    s2: StoreModel,
    g2: Registry,
) -> bool
    decreases nodes, 0nat,
{
    if nodes.len() == 0 {
        r == ExecResult::Value(last) && s2 == s && g2 == g
    } else {
        exists|o: ExecResult, s1: StoreModel, g1: Registry|
            #[trigger] step(o, s1, g1) && eval_rel(nodes[0], s, g, o, s1, g1) && match o {
                ExecResult::Value(v) => eval_block_rel(nodes.drop_first(), s1, g1, v, r, s2, g2),
                other => r == other && s2 == s1 && g2 == g1,
            }
    }
}

/// The relational form of evaluating argument nodes in order, collecting
/// their values after `acc`; the first outcome that is not a plain value
/// ends it.
pub open spec fn eval_args_rel(
    nodes: Seq<Node>,
    s: StoreModel,
    g: Registry,
    acc: Seq<RelType>,
    res: Result<Seq<RelType>, ExecResult>,
    s2: StoreModel,
    g2: Registry,
) -> bool
    decreases nodes, 0nat,
{
    if nodes.len() == 0 {
        res == Ok::<Seq<RelType>, ExecResult>(acc) && s2 == s && g2 == g
    } else {
        exists|o: ExecResult, s1: StoreModel, g1: Registry|
            #[trigger] step(o, s1, g1) && eval_rel(nodes[0], s, g, o, s1, g1) && match o {
                ExecResult::Value(v) => eval_args_rel(nodes.drop_first(), s1, g1, acc.push(v), res, s2, g2),
                other => res == Err::<Seq<RelType>, ExecResult>(other) && s2 == s1 && g2 == g1,
            }
    }
}

proof fn lemma_literal_assign_rel(
    x: String,
    ex: Box<Node>,
    s: StoreModel,
    g: Registry,
    o: ExecResult,
    s1: StoreModel,
    g1: Registry,
)
    requires
        is_literal(*ex),
    ensures
        eval_rel(Node::Assign(x, ex), s, g, o, s1, g1) <==> (o == ExecResult::Value(literal_value(*ex))
            && s1 == assign(s, x@, literal_value(*ex)) && g1 == g),
{
    let v = literal_value(*ex);
    assert(eval_rel(*ex, s, g, ExecResult::Value(v), s, g));
    assert(step(ExecResult::Value(v), s, g));
    if eval_rel(Node::Assign(x, ex), s, g, o, s1, g1) {
        let (o2, t1) = choose|o2: ExecResult, t1: StoreModel|
            #[trigger] step(o2, t1, g1) && eval_rel(*ex, s, g, o2, t1, g1) && match o2 {
                ExecResult::Value(w) => o == ExecResult::Value(w) && s1 == assign(t1, x@, w),
                ExecResult::ReturnBlockInfo(w) => o == ExecResult::Value(w) && s1 == assign(t1, x@, w),
                ExecResult::Fault(f) => o == ExecResult::Fault(f) && s1 == t1,
            };
        assert((o2, t1) == eval(*ex, s) && g1 == g);
    }
}

proof fn lemma_block_last_irrelevant(
    nodes: Seq<Node>,
    s: StoreModel,
    g: Registry,
    v1: RelType,
    v2: RelType,
    r: ExecResult,
    s2: StoreModel,
    g2: Registry,
)
    requires
        nodes.len() > 0,
    ensures
        eval_block_rel(nodes, s, g, v1, r, s2, g2) == eval_block_rel(nodes, s, g, v2, r, s2, g2),
{
}

proof fn lemma_two_literal_assigns(
    x: String,
    ex: Box<Node>,
    y: String,
    ey: Box<Node>,
    rest: Seq<Node>,
    s: StoreModel,
    g: Registry,
    last: RelType,
    r: ExecResult,
    s2: StoreModel,
    g2: Registry,
)
    requires
        is_literal(*ex),
        is_literal(*ey),
    ensures
        eval_block_rel(seq![Node::Assign(x, ex), Node::Assign(y, ey)] + rest, s, g, last, r, s2, g2)
            <==> eval_block_rel(
            rest,
            assign(assign(s, x@, literal_value(*ex)), y@, literal_value(*ey)),
            g,
            literal_value(*ey),
            r,
            s2,
            g2,
        ),
{
    let ax = Node::Assign(x, ex);
    let ay = Node::Assign(y, ey);
    let vx = literal_value(*ex);
    let vy = literal_value(*ey);
    let l = seq![ax, ay] + rest;
    let sx = assign(s, x@, vx);
    let sxy = assign(sx, y@, vy);
    assert(l[0] == ax);
    assert(l.drop_first() =~= seq![ay] + rest);
    assert((seq![ay] + rest)[0] == ay);
    assert((seq![ay] + rest).drop_first() =~= rest);
    lemma_literal_assign_rel(x, ex, s, g, ExecResult::Value(vx), sx, g);
    lemma_literal_assign_rel(y, ey, sx, g, ExecResult::Value(vy), sxy, g);
    assert(step(ExecResult::Value(vx), sx, g));
    assert(step(ExecResult::Value(vy), sxy, g));
    if eval_block_rel(l, s, g, last, r, s2, g2) {
        let (o, t1, h1) = choose|o: ExecResult, t1: StoreModel, h1: Registry|
            #[trigger] step(o, t1, h1) && eval_rel(l[0], s, g, o, t1, h1) && match o {
                ExecResult::Value(v) => eval_block_rel(l.drop_first(), t1, h1, v, r, s2, g2),
                other => r == other && s2 == t1 && g2 == h1,
            };
        lemma_literal_assign_rel(x, ex, s, g, o, t1, h1);
        let m = seq![ay] + rest;
        assert(eval_block_rel(m, sx, g, vx, r, s2, g2));
        let (o2, t2, h2) = choose|o2: ExecResult, t2: StoreModel, h2: Registry|
            #[trigger] step(o2, t2, h2) && eval_rel(m[0], sx, g, o2, t2, h2) && match o2 {
                ExecResult::Value(v) => eval_block_rel(m.drop_first(), t2, h2, v, r, s2, g2),
                other => r == other && s2 == t2 && g2 == h2,
            };
        lemma_literal_assign_rel(y, ey, sx, g, o2, t2, h2);
    }
    let m = seq![ay] + rest;
    if eval_block_rel(rest, sxy, g, vy, r, s2, g2) {
        assert(eval_rel(m[0], sx, g, ExecResult::Value(vy), sxy, g));
        assert(eval_block_rel(m.drop_first(), sxy, g, vy, r, s2, g2));
        assert(eval_block_rel(m, sx, g, vx, r, s2, g2));
        assert(eval_rel(l[0], s, g, ExecResult::Value(vx), sx, g));
        assert(eval_block_rel(l.drop_first(), sx, g, vx, r, s2, g2));
        assert(eval_block_rel(l, s, g, last, r, s2, g2));
    }
}

/// Two assignments of literals to different names, followed by more of a
/// block, can be swapped for any program, native calls included: every
/// outcome and final state of one order is one of the other.
pub proof fn lemma_block_assign_order_rel(
    x: String,
    ex: Box<Node>,
    y: String,
    ey: Box<Node>,
    rest: Seq<Node>,
    s: StoreModel,
    g: Registry,
    last: RelType,
    r: ExecResult,
    s2: StoreModel,
    g2: Registry,
)
    requires
        sorted(s),
        x@ != y@,
        is_literal(*ex),
        is_literal(*ey),
        rest.len() > 0,
    ensures
        eval_block_rel(seq![Node::Assign(x, ex), Node::Assign(y, ey)] + rest, s, g, last, r, s2, g2)
            == eval_block_rel(seq![Node::Assign(y, ey), Node::Assign(x, ex)] + rest, s, g, last, r, s2, g2),
{
    let vx = literal_value(*ex);
    let vy = literal_value(*ey);
    lemma_two_literal_assigns(x, ex, y, ey, rest, s, g, last, r, s2, g2);
    lemma_two_literal_assigns(y, ey, x, ex, rest, s, g, last, r, s2, g2);
    lemma_assign_commutes(s, x@, vx, y@, vy);
    lemma_block_last_irrelevant(rest, assign(assign(s, x@, vx), y@, vy), g, vx, vy, r, s2, g2);
}

/// Evaluates programs against a variable store that each run starts empty.
pub struct ExecutionEngine {
    pub memory: Store,
    pub registry: Registry,
}

impl ExecutionEngine {
    pub fn new() -> (r: Self)
        ensures
            r.memory.view() == Seq::<(Seq<char>, RelType)>::empty(),
            r.registry.wf(),
    {
        ExecutionEngine { memory: Store::new(), registry: Registry::new() }
    }

    /// Evaluates `node` against the current store.
    pub fn evaluate(&mut self, node: &Node) -> (r: ExecResult)
        requires
            old(self).registry.wf(),
        ensures
            final(self).registry.wf(),
            native_free(*node) ==> (r, final(self).memory.view()) == eval(*node, old(self).memory.view()),
            native_free(*node) ==> final(self).registry == old(self).registry,
            sorted(old(self).memory.view()) ==> sorted(final(self).memory.view()),
            eval_rel(
                *node,
                old(self).memory.view(),
                old(self).registry,
                r,
                final(self).memory.view(),
                final(self).registry,
            ),
        decreases node,
    {
        let ghost s0 = self.memory.view();
        let ghost g0 = self.registry;
        match node {
            Node::IntLiteral(v) => {
                let res = ExecResult::Value(RelType::Int(*v));
                res
            },
            Node::FloatLiteral(v) => ExecResult::Value(RelType::Float(*v)),
            Node::BoolLiteral(v) => ExecResult::Value(RelType::Bool(*v)),
            Node::StringLiteral(v) => ExecResult::Value(RelType::Str(v.clone())),
            Node::Identifier(name) => {
                let res = match self.memory.lookup(name.as_str()) {
                    Some(v) => ExecResult::Value(v),
                    None => ExecResult::Fault(Fault::UndefinedIdentifier),
                };
                res
            },
            Node::Assign(name, e) => {
                let o = self.evaluate(e);
                proof {
                    assert(step(o, self.memory.view(), self.registry));
                }
                match o {
                    ExecResult::Value(v) => {
                        let out = v.copy();
                        self.memory.assign(name.as_str(), v);
                        ExecResult::Value(out)
                    },
                    ExecResult::ReturnBlockInfo(v) => {
                        let out = v.copy();
                        self.memory.assign(name.as_str(), v);
                        ExecResult::Value(out)
                    },
                    ExecResult::Fault(f) => ExecResult::Fault(f),
                }
            },
            Node::Add(l, r) => {
                let lv = self.evaluate(l);
                let ghost o1 = lv;
                let ghost s1 = self.memory.view();
                let ghost g1 = self.registry;
                let rv = self.evaluate(r);
                proof {
                    assert(step2(o1, s1, g1, rv));
                }
                let res = do_math(ArithOp::Add, lv, rv);
                res
            },
            Node::Sub(l, r) => {
                let lv = self.evaluate(l);
                let ghost o1 = lv;
                let ghost s1 = self.memory.view();
                let ghost g1 = self.registry;
                let rv = self.evaluate(r);
                proof {
                    assert(step2(o1, s1, g1, rv));
                }
                let res = do_math(ArithOp::Sub, lv, rv);
                res
            },
            Node::Mul(l, r) => {
                let lv = self.evaluate(l);
                let ghost o1 = lv;
                let ghost s1 = self.memory.view();
                let ghost g1 = self.registry;
                let rv = self.evaluate(r);
                proof {
                    assert(step2(o1, s1, g1, rv));
                }
                let res = do_math(ArithOp::Mul, lv, rv);
                res
            },
            Node::Div(l, r) => {
                let lv = self.evaluate(l);
                let ghost o1 = lv;
                let ghost s1 = self.memory.view();
                let ghost g1 = self.registry;
                let rv = self.evaluate(r);
                proof {
                    assert(step2(o1, s1, g1, rv));
                }
                let res = do_math(ArithOp::Div, lv, rv);
                res
            },
            Node::Eq(l, r) => {
                let lv = self.evaluate(l);
                let ghost o1 = lv;
                let ghost s1 = self.memory.view();
                let ghost g1 = self.registry;
                let rv = self.evaluate(r);
                proof {
                    assert(step2(o1, s1, g1, rv));
                }
                let res = do_eq(lv, rv);
                res
            },
            Node::Lt(l, r) => {
                let lv = self.evaluate(l);
                let ghost o1 = lv;
                let ghost s1 = self.memory.view();
                let ghost g1 = self.registry;
                let rv = self.evaluate(r);
                proof {
                    assert(step2(o1, s1, g1, rv));
                }
                let res = do_lt(lv, rv);
                res
            },
            Node::If(c, t, e) => {
                let o = self.evaluate(c);
                let ghost go = o;
                let ghost s1 = self.memory.view();
                let ghost g1 = self.registry;
                proof {
                    assert(step(o, s1, g1));
                }
                let res = match o {
                    ExecResult::Value(RelType::Bool(true)) => self.evaluate(t),
                    ExecResult::Value(RelType::Bool(false)) => match e {
                        Some(e) => self.evaluate(e),
                        None => ExecResult::Value(RelType::Void),
                    },
                    ExecResult::Fault(f) => ExecResult::Fault(f),
                    _ => ExecResult::Fault(Fault::IfConditionNotBoolean),
                };
                assert(if_branch_rel(*node, go, s1, g1, res, self.memory.view(), self.registry));
                assert(eval_rel(*node, s0, g0, res, self.memory.view(), self.registry));
                res
            },
            Node::While(c, b) => self.run_while(node, c, b),
            Node::Block(nodes) => self.run_block(node, nodes),
            Node::Return(e) => {
                let o = self.evaluate(e);
                proof {
                    assert(step(o, self.memory.view(), self.registry));
                }
                let res = match o {
                    ExecResult::Value(v) => ExecResult::ReturnBlockInfo(v),
                    other => other,
                };
                res
            },
            Node::NativeCall(module, function, args) => self.run_native(node, module, function, args),
        }
    }

    /// Evaluates the arguments in order, then makes the call; an argument
    /// that does not give a plain value ends the evaluation with its outcome.
    fn run_native(&mut self, node: &Node, module: &String, function: &String, args: &Vec<Node>) -> (r:
        ExecResult)
        requires
            *node == Node::NativeCall(*module, *function, *args),
            old(self).registry.wf(),
        ensures
            final(self).registry.wf(),
            sorted(old(self).memory.view()) ==> sorted(final(self).memory.view()),
            eval_rel(
                *node,
                old(self).memory.view(),
                old(self).registry,
                r,
                final(self).memory.view(),
                final(self).registry,
            ),
        decreases node, 0nat,
    {
        let mut vals: Vec<RelType> = Vec::new();
        let mut i: usize = 0;
        proof {
            assert(args@.subrange(0, args@.len() as int) =~= args@);
        }
        let ghost s0 = self.memory.view();
        let ghost g0 = self.registry;
        while i < args.len()
            invariant
                *node == Node::NativeCall(*module, *function, *args),
                s0 == old(self).memory.view(),
                g0 == old(self).registry,
                i <= args@.len(),
                forall|res: Result<Seq<RelType>, ExecResult>, s2: StoreModel, g2: Registry|
                    #[trigger] eval_args_rel(
                        args@.subrange(i as int, args@.len() as int),
                        self.memory.view(),
                        self.registry,
                        vals@,
                        res,
                        s2,
                        g2,
                    ) ==> eval_args_rel(args@, s0, g0, Seq::empty(), res, s2, g2),
                self.registry.wf(),
                i <= args@.len(),
                sorted(old(self).memory.view()) ==> sorted(self.memory.view()),
            decreases args@.len() - i,
        {
            assert(decreases_to!(*node => (*node)->NativeCall_2));
            assert((*node)->NativeCall_2 == *args);
            assert(decreases_to!(*args => args@));
            assert(decreases_to!(args@ => args@[i as int]));
            assert(decreases_to!(*node => args@[i as int]));
            let ghost rest = args@.subrange(i as int, args@.len() as int);
            assert(rest.drop_first() =~= args@.subrange(i + 1, args@.len() as int));
            assert(rest[0] == args@[i as int]);
            let ghost cs = self.memory.view();
            let ghost cg = self.registry;
            let ghost cvals = vals@;
            let o = self.evaluate(&args[i]);
            let ghost go = o;
            let ghost s1 = self.memory.view();
            let ghost g1 = self.registry;
            assert(step(go, s1, g1));
            match o {
                ExecResult::Value(v) => vals.push(v),
                other => {
                    let ghost res = Err::<Seq<RelType>, ExecResult>(go);
                    assert(eval_args_rel(rest, cs, cg, cvals, res, s1, g1));
                    assert(eval_args_rel(args@, s0, g0, Seq::empty(), res, s1, g1));
                    assert(args_step(res, g1));
                    return other;
                },
            }
            assert forall|res: Result<Seq<RelType>, ExecResult>, s2: StoreModel, g2: Registry|
                #[trigger] eval_args_rel(rest.drop_first(), s1, g1, vals@, res, s2, g2)
                    implies eval_args_rel(args@, s0, g0, Seq::empty(), res, s2, g2) by {
                assert(eval_args_rel(rest, cs, cg, cvals, res, s2, g2));
            }
            i = i + 1;
        }
        let ghost sf = self.memory.view();
        let ghost gf = self.registry;
        proof {
            let e = args@.subrange(i as int, args@.len() as int);
            assert(e.len() == 0);
            let res = Ok::<Seq<RelType>, ExecResult>(vals@);
            assert(eval_args_rel(e, sf, gf, vals@, res, sf, gf));
            assert(args_step(res, gf));
        }
        native_call(&mut self.registry, module.as_str(), function.as_str(), &vals)
    }

    fn run_while(&mut self, node: &Node, c: &Box<Node>, b: &Box<Node>) -> (r: ExecResult)
        requires
            *node == Node::While(*c, *b),
            old(self).registry.wf(),
        ensures
            final(self).registry.wf(),
            native_free(*node) ==> (r, final(self).memory.view()) == eval(*node, old(self).memory.view()),
            native_free(*node) ==> final(self).registry == old(self).registry,
            sorted(old(self).memory.view()) ==> sorted(final(self).memory.view()),
            eval_rel(
                *node,
                old(self).memory.view(),
                old(self).registry,
                r,
                final(self).memory.view(),
                final(self).registry,
            ),
        decreases node, 0nat,
    {
        let mut k: u64 = LOOP_LIMIT;
        let ghost s0 = self.memory.view();
        let ghost g0 = self.registry;
        assert forall|r: ExecResult, s2: StoreModel, g2: Registry|
            #[trigger] eval_while_rel(*node, s0, g0, k as nat, r, s2, g2)
                implies eval_rel(*node, s0, g0, r, s2, g2) by {
        }
        loop
            invariant
                *node == Node::While(*c, *b),
                s0 == old(self).memory.view(),
                g0 == old(self).registry,
                forall|r: ExecResult, s2: StoreModel, g2: Registry|
                    #[trigger] eval_while_rel(*node, self.memory.view(), self.registry, k as nat, r, s2, g2)
                        ==> eval_rel(*node, s0, g0, r, s2, g2),
                self.registry.wf(),
                native_free(*node) ==> self.registry == old(self).registry,
                sorted(old(self).memory.view()) ==> sorted(self.memory.view()),
                native_free(*node) ==> eval(*node, old(self).memory.view()) == eval_while(
                                        *node,
                    self.memory.view(),
                    k as nat,
                ),
            decreases k,
        {
            let ghost cs = self.memory.view();
            let ghost cg = self.registry;
            let o = self.evaluate(c);
            let ghost go = o;
            let ghost s1 = self.memory.view();
            let ghost g1 = self.registry;
            assert(step(go, s1, g1));
            match o {
                ExecResult::Value(RelType::Bool(true)) => {
                    if k == 0 {
                        assert(eval_while_rel(*node, cs, cg, k as nat, ExecResult::Fault(Fault::LoopLimitExceeded), s1, g1));
                        return ExecResult::Fault(Fault::LoopLimitExceeded);
                    }
                    let bo = self.evaluate(b);
                    let ghost gbo = bo;
                    let ghost s3 = self.memory.view();
                    let ghost g3 = self.registry;
                    assert(step(gbo, s3, g3));
                    match bo {
                        ExecResult::Value(_) => {},
                        other => {
                            assert(eval_while_rel(*node, cs, cg, k as nat, gbo, s3, g3));
                            return other;
                        },
                    }
                    let ghost kk = k;
                    k = k - 1;
                    assert(self.memory.view() == s3 && self.registry == g3);
                    assert forall|r: ExecResult, s2: StoreModel, g2: Registry|
                        #[trigger] eval_while_rel(*node, s3, g3, k as nat, r, s2, g2)
                            implies eval_rel(*node, s0, g0, r, s2, g2) by {
                        assert(k as nat == (kk - 1) as nat);
                        assert(eval_while_rel(*node, cs, cg, kk as nat, r, s2, g2));
                    }
                },
                ExecResult::Value(RelType::Bool(false)) => {
                    assert(eval_while_rel(*node, cs, cg, k as nat, ExecResult::Value(RelType::Void), s1, g1));
                    return ExecResult::Value(RelType::Void);
                },
                ExecResult::Fault(f) => {
                    assert(eval_while_rel(*node, cs, cg, k as nat, ExecResult::Fault(f), s1, g1));
                    return ExecResult::Fault(f);
                },
                _ => {
                    assert(eval_while_rel(*node, cs, cg, k as nat, ExecResult::Fault(Fault::WhileConditionNotBoolean), s1, g1));
                    return ExecResult::Fault(Fault::WhileConditionNotBoolean);
                },
            }
        }
    }

    fn run_block(&mut self, node: &Node, nodes: &Vec<Node>) -> (r: ExecResult)
        requires
            *node == Node::Block(*nodes),
            old(self).registry.wf(),
        ensures
            final(self).registry.wf(),
            native_free(*node) ==> (r, final(self).memory.view()) == eval(*node, old(self).memory.view()),
            native_free(*node) ==> final(self).registry == old(self).registry,
            sorted(old(self).memory.view()) ==> sorted(final(self).memory.view()),
            eval_rel(
                *node,
                old(self).memory.view(),
                old(self).registry,
                r,
                final(self).memory.view(),
                final(self).registry,
            ),
        decreases node, 0nat,
    {
        let mut last = RelType::Void;
        let mut i: usize = 0;
        assert(nodes@.subrange(0, nodes@.len() as int) =~= nodes@);
        let ghost s0 = self.memory.view();
        let ghost g0 = self.registry;
        while i < nodes.len()
            invariant
                *node == Node::Block(*nodes),
                s0 == old(self).memory.view(),
                g0 == old(self).registry,
                i <= nodes@.len(),
                forall|r: ExecResult, s2: StoreModel, g2: Registry|
                    #[trigger] eval_block_rel(
                        nodes@.subrange(i as int, nodes@.len() as int),
                        self.memory.view(),
                        self.registry,
                        last,
                        r,
                        s2,
                        g2,
                    ) ==> eval_rel(*node, s0, g0, r, s2, g2),
                self.registry.wf(),
                native_free(*node) ==> self.registry == old(self).registry,
                i <= nodes@.len(),
                sorted(old(self).memory.view()) ==> sorted(self.memory.view()),
                native_free(*node) ==> all_native_free(nodes@.subrange(i as int, nodes@.len() as int)),
                native_free(*node) ==> eval(*node, old(self).memory.view()) == eval_block(
                    nodes@.subrange(i as int, nodes@.len() as int),
                    self.memory.view(),
                    last,
                ),
            decreases nodes@.len() - i,
        {
            let ghost rest = nodes@.subrange(i as int, nodes@.len() as int);
            assert(rest.drop_first() =~= nodes@.subrange(i + 1, nodes@.len() as int));
            assert(decreases_to!(*node => nodes@[i as int]));
            let ghost cs = self.memory.view();
            let ghost cg = self.registry;
            let ghost clast = last;
            let o = self.evaluate(&nodes[i]);
            let ghost go = o;
            let ghost s1 = self.memory.view();
            let ghost g1 = self.registry;
            assert(step(go, s1, g1));
            assert(rest[0] == nodes@[i as int]);
            match o {
                ExecResult::Value(v) => {
                    last = v;
                },
                other => {
                    assert(eval_block_rel(rest, cs, cg, clast, go, s1, g1));
                    return other;
                },
            }
            assert forall|r: ExecResult, s2: StoreModel, g2: Registry|
                #[trigger] eval_block_rel(rest.drop_first(), s1, g1, last, r, s2, g2)
                    implies eval_rel(*node, s0, g0, r, s2, g2) by {
                assert(eval_block_rel(rest, cs, cg, clast, r, s2, g2));
            }
            i = i + 1;
        }
        proof {
            let e = nodes@.subrange(i as int, nodes@.len() as int);
            assert(e.len() == 0);
            assert(eval_block_rel(e, self.memory.view(), self.registry, last, ExecResult::Value(last), self.memory.view(), self.registry));
        }
        ExecResult::Value(last)
    }
}

} // verus!

use vstd::prelude::*;

verus! {

/// One node of a program's syntax tree.
///
/// A `FloatLiteral` carries the IEEE-754 binary64 bits of its number.
pub enum Node {
    IntLiteral(i64),
    FloatLiteral(u64),
    BoolLiteral(bool),
    StringLiteral(String),
    Identifier(String),
    Assign(String, Box<Node>),
    Add(Box<Node>, Box<Node>),
    Sub(Box<Node>, Box<Node>),
    Mul(Box<Node>, Box<Node>),
    Div(Box<Node>, Box<Node>),
    Eq(Box<Node>, Box<Node>),
    Lt(Box<Node>, Box<Node>),
    If(Box<Node>, Box<Node>, Option<Box<Node>>),
    While(Box<Node>, Box<Node>),
    Block(Vec<Node>),
    Return(Box<Node>),
    /// A call of `function` in native module `module` on the argument values.
    NativeCall(String, String, Vec<Node>),
}

/// The tree holds no native call.
pub open spec fn native_free(node: Node) -> bool
    decreases node,
{
    match node {
        Node::Assign(_, e) => native_free(*e),
        Node::Add(l, r) | Node::Sub(l, r) | Node::Mul(l, r) | Node::Div(l, r) | Node::Eq(l, r)
        | Node::Lt(l, r) => native_free(*l) && native_free(*r),
        Node::If(c, t, e) => native_free(*c) && native_free(*t) && match e {
            Some(e) => native_free(*e),
            None => true,
        },
        Node::While(c, b) => native_free(*c) && native_free(*b),
        Node::Block(nodes) => all_native_free(nodes@),
        Node::Return(e) => native_free(*e),
        Node::NativeCall(_, _, _) => false,
        _ => true,
    }
}

/// No tree of the sequence holds a native call.
pub open spec fn all_native_free(nodes: Seq<Node>) -> bool
    decreases nodes,
{
    if nodes.len() == 0 {
        true
    } else {
        native_free(nodes[0]) && all_native_free(nodes.drop_first())
    }
}

} // verus!

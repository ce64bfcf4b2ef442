use vstd::prelude::*;
use vstd::string::StringExecFns;
use crate::ast::{native_free, Node};
use crate::engine::{eval, eval_rel, ExecutionEngine, StoreModel};
use crate::store::{sorted, Store};
use crate::float::{float_text_spec, render_float};
use crate::value::{ExecResult, Fault, RelType};

verus! {

/// The text of a fault in a report.
pub open spec fn fault_text(f: Fault) -> Seq<char> {
    match f {
        Fault::UndefinedIdentifier => "Undefined identifier"@,
        Fault::ArithmeticTypeMismatch => "Mathematical type mismatch"@,
        Fault::DivisionByZero => "Division by zero"@,
        Fault::IntegerOverflow => "Integer overflow"@,
        Fault::EqualityOperandInvalid => "Invalid Eq semantics"@,
        Fault::OrderingTypeMismatch => "Invalid Lt semantics"@,
        Fault::IfConditionNotBoolean => "If condition not a boolean"@,
        Fault::WhileConditionNotBoolean => "While condition not a boolean"@,
        Fault::LoopLimitExceeded => "Loop iteration limit exceeded"@,
        Fault::UnknownNativeFunction => "Unknown native function"@,
        Fault::NativeArgumentMismatch => "Native argument type mismatch"@,
    }
}

impl Fault {
    /// The text of the fault in a report.
    pub fn message(&self) -> (r: &'static str)
        ensures
            r@ == fault_text(*self),
    {
        match self {
            Fault::UndefinedIdentifier => "Undefined identifier",
            Fault::ArithmeticTypeMismatch => "Mathematical type mismatch",
            Fault::DivisionByZero => "Division by zero",
            Fault::IntegerOverflow => "Integer overflow",
            Fault::EqualityOperandInvalid => "Invalid Eq semantics",
            Fault::OrderingTypeMismatch => "Invalid Lt semantics",
            Fault::IfConditionNotBoolean => "If condition not a boolean",
            Fault::WhileConditionNotBoolean => "While condition not a boolean",
            Fault::LoopLimitExceeded => "Loop iteration limit exceeded",
            Fault::UnknownNativeFunction => "Unknown native function",
            Fault::NativeArgumentMismatch => "Native argument type mismatch",
        }
    }
}

pub open spec fn digit_text(d: nat) -> Seq<char> {
    if d == 0 {
        "0"@
    } else if d == 1 {
        "1"@
    } else if d == 2 {
        "2"@
    } else if d == 3 {
        "3"@
    } else if d == 4 {
        "4"@
    } else if d == 5 {
        "5"@
    } else if d == 6 {
        "6"@
    } else if d == 7 {
        "7"@
    } else if d == 8 {
        "8"@
    } else {
        "9"@
    }
}

/// Decimal digits of `n`, without leading zeros.
pub open spec fn nat_text(n: nat) -> Seq<char>
    decreases n,
{
    if n < 10 {
        digit_text(n)
    } else {
        nat_text(n / 10) + digit_text(n % 10)
    }
}

/// Decimal form of `i`, with a leading `-` when negative.
pub open spec fn int_text(i: int) -> Seq<char> {
    if i < 0 {
        "-"@ + nat_text((-i) as nat)
    } else {
        nat_text(i as nat)
    }
}

fn digit_str(d: u64) -> (r: &'static str)
    requires
        d < 10,
    ensures
        r@ == digit_text(d as nat),
{
    if d == 0 {
        "0"
    } else if d == 1 {
        "1"
    } else if d == 2 {
        "2"
    } else if d == 3 {
        "3"
    } else if d == 4 {
        "4"
    } else if d == 5 {
        "5"
    } else if d == 6 {
        "6"
    } else if d == 7 {
        "7"
    } else if d == 8 {
        "8"
    } else {
        "9"
    }
}

fn nat_to_text(n: u64) -> (r: String)
    ensures
        r@ == nat_text(n as nat),
{
    let mut m: u64 = n;
    let mut acc = String::new();
    loop
        invariant
            nat_text(n as nat) == nat_text(m as nat) + acc@,
        decreases m,
    {
        if m < 10 {
            let mut r = String::from_str(digit_str(m));
            r.append(acc.as_str());
            return r;
        }
        let mut t = String::from_str(digit_str(m % 10));
        t.append(acc.as_str());
        assert(nat_text(m as nat) == nat_text((m / 10) as nat) + digit_text((m % 10) as nat));
        assert(nat_text(m as nat) + acc@ =~= nat_text((m / 10) as nat) + t@);
        acc = t;
        m = m / 10;
    }
}

/// The decimal form of an integer.
pub fn int_to_text(i: i64) -> (r: String)
    ensures
        r@ == int_text(i as int),
{
    if i < 0 {
        let m: u64 = if i == i64::MIN {
            9_223_372_036_854_775_808u64
        } else {
            (-i) as u64
        };
        let mut r = String::from_str("-");
        let digits = nat_to_text(m);
        r.append(digits.as_str());
        r
    } else {
        nat_to_text(i as u64)
    }
}

/// A value as a binding shows it: bare decimal, the host's float form,
/// `true`/`false`, double-quoted text.
pub open spec fn value_text(v: RelType) -> Seq<char> {
    match v {
        RelType::Int(i) => int_text(i as int),
        RelType::Float(f) => float_text_spec(f),
        RelType::Bool(b) => if b {
            "true"@
        } else {
            "false"@
        },
        RelType::Str(s) => "\""@ + s@ + "\""@,
        RelType::Void => "void"@,
    }
}

/// A value as the result line shows it, with its type.
pub open spec fn result_text(v: RelType) -> Seq<char> {
    match v {
        RelType::Int(_) => value_text(v) + " (i64)"@,
        RelType::Float(_) => value_text(v) + " (f64)"@,
        RelType::Bool(_) => value_text(v) + " (bool)"@,
        RelType::Str(_) => value_text(v) + " (String)"@,
        RelType::Void => "void"@,
    }
}

/// The bindings from position `i` on, each as `name = value`, joined by `, `.
pub open spec fn bindings_text(s: StoreModel, i: int) -> Seq<char>
    decreases s.len() - i,
{
    if i < 0 || i >= s.len() {
        Seq::empty()
    } else if i == s.len() - 1 {
        s[i].0 + " = "@ + value_text(s[i].1)
    } else {
        s[i].0 + " = "@ + value_text(s[i].1) + ", "@ + bindings_text(s, i + 1)
    }
}

/// The report of one run: the fault alone, or the result followed by the
/// bindings in store order.
pub open spec fn report_text(r: ExecResult, s: StoreModel) -> Seq<char> {
    match r {
        ExecResult::Fault(f) => "Fault: "@ + fault_text(f),
        ExecResult::Value(v) | ExecResult::ReturnBlockInfo(v) => if s.len() == 0 {
            "Return: "@ + result_text(v)
        } else {
            "Return: "@ + result_text(v) + ", Memory: "@ + bindings_text(s, 0)
        },
    }
}

pub fn render_value(v: &RelType) -> (r: String)
    ensures
        r@ == value_text(*v),
{
    match v {
        RelType::Int(i) => int_to_text(*i),
        RelType::Float(f) => render_float(*f),
        RelType::Bool(b) => if *b {
            String::from_str("true")
        } else {
            String::from_str("false")
        },
        RelType::Str(s) => {
            let mut r = String::from_str("\"");
            r.append(s.as_str());
            r.append("\"");
            r
        },
        RelType::Void => String::from_str("void"),
    }
}

pub fn render_result(v: &RelType) -> (r: String)
    ensures
        r@ == result_text(*v),
{
    let mut r = render_value(v);
    match v {
        RelType::Int(_) => r.append(" (i64)"),
        RelType::Float(_) => r.append(" (f64)"),
        RelType::Bool(_) => r.append(" (bool)"),
        RelType::Str(_) => r.append(" (String)"),
        RelType::Void => {},
    }
    r
}

pub fn render_bindings(store: &Store) -> (r: String)
    ensures
        r@ == bindings_text(store.view(), 0),
{
    let n = store.len();
    let mut out = String::new();
    let mut i: usize = 0;
    while i < n
        invariant
            n == store.view().len(),
            i <= n,
            bindings_text(store.view(), 0) == out@ + bindings_text(store.view(), i as int),
        decreases n - i,
    {
        let b = store.get(i);
        let mut piece = String::from_str(b.name.as_str());
        piece.append(" = ");
        let v = render_value(&b.value);
        piece.append(v.as_str());
        if i + 1 < n {
            piece.append(", ");
        }
        assert(out@ + bindings_text(store.view(), i as int) =~= (out@ + piece@) + bindings_text(store.view(), i + 1));
        out.append(piece.as_str());
        i = i + 1;
    }
    assert(out@ + bindings_text(store.view(), i as int) =~= out@);
    out
}

impl ExecutionEngine {
    /// Runs `root` on an empty store and renders the report.
    pub fn execute(&mut self, root: &Node) -> (out: String)
        requires
            old(self).registry.wf(),
        ensures
            final(self).registry.wf(),
            native_free(*root) ==> ({
                let (r, s) = eval(*root, Seq::empty());
                out@ == report_text(r, s) && final(self).memory.view() == s
            }),
            sorted(final(self).memory.view()),
            exists|r: ExecResult|
                #[trigger] eval_rel(
                    *root,
                    Seq::empty(),
                    old(self).registry,
                    r,
                    final(self).memory.view(),
                    final(self).registry,
                ) && out@ == report_text(r, final(self).memory.view()),
    {
        self.memory.clear();
        let res = self.evaluate(root);
        let ghost gres = res;
        match res {
            ExecResult::Fault(f) => {
                let mut out = String::from_str("Fault: ");
                out.append(f.message());
                out
            },
            ExecResult::Value(v) | ExecResult::ReturnBlockInfo(v) => {
                let mut out = String::from_str("Return: ");
                let rv = render_result(&v);
                out.append(rv.as_str());
                if self.memory.len() > 0 {
                    out.append(", Memory: ");
                    let b = render_bindings(&self.memory);
                    out.append(b.as_str());
                }
                out
            },
        }
    }
}

} // verus!

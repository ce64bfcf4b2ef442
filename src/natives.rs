use vstd::prelude::*;
use crate::registry::{
    block_added, counter_reading, elapsed_reading, freed, incremented, pack_rgb_spec,
    registry_create_counter, registry_dump, registry_elapsed_ms, registry_fill_color, registry_free,
    registry_get_value, registry_increment, registry_now, registry_release, registry_retain,
    registry_voxel_add_block, registry_window_close, released, retained, timestamp_added,
    window_filled, NativeHandle, Registry, RegistryEntry, StatefulCounter,
};
use crate::store::compare_names;
use crate::value::{ExecResult, Fault, RelType};

verus! {

/// The arguments are exactly `n` integers.
pub open spec fn int_args(args: Seq<RelType>, n: nat) -> bool {
    args.len() == n && forall|i: int| 0 <= i < n ==> (#[trigger] args[i]) is Int
}

/// The integer at position `i` of the arguments.
pub open spec fn int_arg(args: Seq<RelType>, i: int) -> i64 {
    match args[i] {
        RelType::Int(v) => v,
        _ => 0,
    }
}

/// The number of integer arguments each registry function takes, or `None`
/// for a name the registry does not know.
pub open spec fn registry_arity(name: Seq<char>) -> Option<nat> {
    if name == "create_counter"@ || name == "now"@ || name == "dump"@ {
        Some(0)
    } else if name == "retain"@ || name == "release"@ || name == "free"@ || name == "increment"@
        || name == "get_value"@ || name == "elapsed_ms"@ || name == "window_close"@ {
        Some(1)
    } else if name == "voxel_add_block"@ || name == "fill_color"@ {
        Some(4)
    } else {
        None
    }
}

fn ints(args: &Vec<RelType>, n: usize) -> (r: bool)
    ensures
        r == int_args(args@, n as nat),
{
    if args.len() != n {
        return false;
    }
    let mut i: usize = 0;
    while i < n
        invariant
            args@.len() == n,
            i <= n,
            forall|j: int| 0 <= j < i ==> (#[trigger] args@[j]) is Int,
        decreases n - i,
    {
        match &args[i] {
            RelType::Int(_) => {},
            _ => return false,
        }
        i = i + 1;
    }
    true
}

fn arg(args: &Vec<RelType>, i: usize) -> (r: i64)
    requires
        i < args@.len(),
    ensures
        r == int_arg(args@, i as int),
{
    match &args[i] {
        RelType::Int(v) => *v,
        _ => 0,
    }
}

/// What a call of registry function `f` on integer arguments `a` does: its
/// result `r` and the registry `u` after, from the registry `g` before.
pub open spec fn registry_call_post(g: Registry, f: Seq<char>, a: Seq<RelType>, r: ExecResult, u: Registry) -> bool {
    let t = g.table@;
    let h = int_arg(a, 0);
    let void = ExecResult::Value(RelType::Void);
    if f == "create_counter"@ {
        if g.next_id < i64::MAX as u64 {
            r == ExecResult::Value(RelType::Int(g.next_id as i64)) && u.next_id == g.next_id + 1
                && u.table@ == t.insert(
                g.next_id,
                RegistryEntry { handle: NativeHandle::Counter(StatefulCounter { count: 0 }), ref_count: 1 },
            )
        } else {
            r == ExecResult::Value(RelType::Int(-1i64)) && u.table@ == t
        }
    } else if f == "now"@ {
        if g.next_id < i64::MAX as u64 {
            r == ExecResult::Value(RelType::Int(g.next_id as i64)) && u.next_id == g.next_id + 1
                && timestamp_added(t, g.next_id, u.table@)
        } else {
            r == ExecResult::Value(RelType::Int(-1i64)) && u.table@ == t
        }
    } else if f == "dump"@ {
        u.table@ == t && (t.len() <= i64::MAX ==> r == ExecResult::Value(RelType::Int(t.len() as i64)))
            && (t.len() > i64::MAX ==> r == ExecResult::Value(RelType::Int(i64::MAX)))
    } else if f == "retain"@ {
        r == void && u.table@ == retained(t, h)
    } else if f == "release"@ {
        r == void && u.table@ == released(t, h)
    } else if f == "free"@ || f == "window_close"@ {
        r == void && u.table@ == freed(t, h)
    } else if f == "increment"@ {
        r == void && u.table@ == incremented(t, h)
    } else if f == "get_value"@ {
        r == ExecResult::Value(RelType::Int(counter_reading(g, h))) && u.table@ == t
    } else if f == "elapsed_ms"@ {
        u.table@ == t && (r matches ExecResult::Value(RelType::Int(v)) && elapsed_reading(g, h, v))
    } else if f == "voxel_add_block"@ {
        r == void && block_added(t, h, int_arg(a, 1), int_arg(a, 2), int_arg(a, 3), u.table@)
    } else if f == "fill_color"@ {
        r == void && window_filled(
            t,
            h,
            pack_rgb_spec(int_arg(a, 1), int_arg(a, 2), int_arg(a, 3)),
            u.table@,
        )
    } else {
        false
    }
}

/// What a call of `function` in `module` on `args` does: an unknown function
/// faults and a mismatched argument list faults, both leaving the registry
/// as it was; else the registry function's own effect.
pub open spec fn native_post(
    g: Registry,
    module: Seq<char>,
    function: Seq<char>,
    args: Seq<RelType>,
    r: ExecResult,
    u: Registry,
) -> bool {
    if module != "registry"@ || registry_arity(function) is None {
        r == ExecResult::Fault(Fault::UnknownNativeFunction) && u == g
    } else if !int_args(args, registry_arity(function)->Some_0) {
        r == ExecResult::Fault(Fault::NativeArgumentMismatch) && u == g
    } else {
        registry_call_post(g, function, args, r, u)
    }
}

/// The registry's native functions, reached by name.
pub struct RegistryModule;

impl RegistryModule {
    /// Runs the registry function `func_name` on `args`: `None` for a name it
    /// does not know, a type-mismatch fault when the arguments are not the
    /// integers it takes, else the function's result (`Void` for none).
    pub fn handle(&self, reg: &mut Registry, func_name: &str, args: &Vec<RelType>) -> (r: Option<
        ExecResult,
    >)
        requires
            old(reg).wf(),
        ensures
            final(reg).wf(),
            registry_arity(func_name@) is None ==> r is None && *final(reg) == *old(reg),
            registry_arity(func_name@) is Some && !int_args(args@, registry_arity(func_name@)->Some_0)
                ==> r == Some(ExecResult::Fault(Fault::NativeArgumentMismatch)) && *final(reg) == *old(reg),
            registry_arity(func_name@) is Some && int_args(args@, registry_arity(func_name@)->Some_0)
                ==> r is Some && registry_call_post(*old(reg), func_name@, args@, r->Some_0, *final(reg)),
    {
        proof {
            reveal_strlit("create_counter");
            reveal_strlit("now");
            reveal_strlit("dump");
            reveal_strlit("retain");
            reveal_strlit("release");
            reveal_strlit("free");
            reveal_strlit("increment");
            reveal_strlit("get_value");
            reveal_strlit("elapsed_ms");
            reveal_strlit("window_close");
            reveal_strlit("voxel_add_block");
            reveal_strlit("fill_color");
        }
        if compare_names(func_name, "create_counter") == 0 || compare_names(func_name, "now") == 0
            || compare_names(func_name, "dump") == 0 {
            if !ints(args, 0) {
                return Some(ExecResult::Fault(Fault::NativeArgumentMismatch));
            }
            let v = if compare_names(func_name, "create_counter") == 0 {
                registry_create_counter(reg)
            } else if compare_names(func_name, "now") == 0 {
                registry_now(reg)
            } else {
                registry_dump(reg)
            };
            return Some(ExecResult::Value(RelType::Int(v)));
        }
        if compare_names(func_name, "retain") == 0 || compare_names(func_name, "release") == 0
            || compare_names(func_name, "free") == 0 || compare_names(func_name, "increment") == 0
            || compare_names(func_name, "get_value") == 0 || compare_names(func_name, "elapsed_ms") == 0
            || compare_names(func_name, "window_close") == 0 {
            if !ints(args, 1) {
                return Some(ExecResult::Fault(Fault::NativeArgumentMismatch));
            }
            let h = arg(args, 0);
            if compare_names(func_name, "retain") == 0 {
                registry_retain(reg, h);
            } else if compare_names(func_name, "release") == 0 {
                registry_release(reg, h);
            } else if compare_names(func_name, "free") == 0 {
                registry_free(reg, h);
            } else if compare_names(func_name, "increment") == 0 {
                registry_increment(reg, h);
            } else if compare_names(func_name, "get_value") == 0 {
                return Some(ExecResult::Value(RelType::Int(registry_get_value(reg, h))));
            } else if compare_names(func_name, "elapsed_ms") == 0 {
                return Some(ExecResult::Value(RelType::Int(registry_elapsed_ms(reg, h))));
            } else {
                registry_window_close(reg, h);
            }
            return Some(ExecResult::Value(RelType::Void));
        }
        if compare_names(func_name, "voxel_add_block") == 0 || compare_names(func_name, "fill_color") == 0 {
            if !ints(args, 4) {
                return Some(ExecResult::Fault(Fault::NativeArgumentMismatch));
            }
            let h = arg(args, 0);
            let a = arg(args, 1);
            let b = arg(args, 2);
            let c = arg(args, 3);
            if compare_names(func_name, "voxel_add_block") == 0 {
                registry_voxel_add_block(reg, h, a, b, c);
            } else {
                registry_fill_color(reg, h, a, b, c);
            }
            return Some(ExecResult::Value(RelType::Void));
        }
        None
    }
}

/// The one way from a program to the native resources: runs `function` of
/// `module` on `args`, or faults with `UnknownNativeFunction` when no such
/// function exists.
pub fn native_call(reg: &mut Registry, module: &str, function: &str, args: &Vec<RelType>) -> (r:
    ExecResult)
    requires
        old(reg).wf(),
    ensures
        final(reg).wf(),
        native_post(*old(reg), module@, function@, args@, r, *final(reg)),
{
    if compare_names(module, "registry") != 0 {
        return ExecResult::Fault(Fault::UnknownNativeFunction);
    }
    match RegistryModule.handle(reg, function, args) {
        Some(r) => r,
        None => ExecResult::Fault(Fault::UnknownNativeFunction),
    }
}

} // verus!

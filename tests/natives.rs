use knoten_core::natives::{native_call, RegistryModule};
use knoten_core::registry::{registry_dump, Registry};
use knoten_core::value::{ExecResult, Fault, RelType};

fn ints(v: &[i64]) -> Vec<RelType> {
    v.iter().map(|&i| RelType::Int(i)).collect()
}

fn int_of(r: ExecResult) -> i64 {
    match r {
        ExecResult::Value(RelType::Int(i)) => i,
        _ => panic!("expected an integer result"),
    }
}

#[test]
fn counter_through_the_dispatch_boundary() {
    let mut reg = Registry::new();
    let h = int_of(native_call(&mut reg, "registry", "create_counter", &vec![]));
    assert_eq!(h, 1);
    for _ in 0..3 {
        assert!(matches!(
            native_call(&mut reg, "registry", "increment", &ints(&[h])),
            ExecResult::Value(RelType::Void)
        ));
    }
    assert_eq!(int_of(native_call(&mut reg, "registry", "get_value", &ints(&[h]))), 3);
    native_call(&mut reg, "registry", "release", &ints(&[h]));
    assert_eq!(int_of(native_call(&mut reg, "registry", "get_value", &ints(&[h]))), -1);
    assert_eq!(int_of(native_call(&mut reg, "registry", "dump", &vec![])), 0);
}

#[test]
fn unknown_functions_and_modules_fault() {
    let mut reg = Registry::new();
    assert!(matches!(
        native_call(&mut reg, "registry", "explode", &vec![]),
        ExecResult::Fault(Fault::UnknownNativeFunction)
    ));
    assert!(matches!(
        native_call(&mut reg, "gpu", "create_counter", &vec![]),
        ExecResult::Fault(Fault::UnknownNativeFunction)
    ));
    assert!(RegistryModule.handle(&mut reg, "explode", &vec![]).is_none());
    assert_eq!(registry_dump(&reg), 0);
}

#[test]
fn non_integer_arguments_are_a_type_mismatch() {
    let mut reg = Registry::new();
    assert!(matches!(
        native_call(&mut reg, "registry", "retain", &vec![RelType::Bool(true)]),
        ExecResult::Fault(Fault::NativeArgumentMismatch)
    ));
    assert!(matches!(
        native_call(&mut reg, "registry", "retain", &vec![]),
        ExecResult::Fault(Fault::NativeArgumentMismatch)
    ));
    assert_eq!(Fault::NativeArgumentMismatch.message(), "Native argument type mismatch");
}

#[test]
fn retain_and_free_through_the_boundary() {
    let mut reg = Registry::new();
    let h = int_of(native_call(&mut reg, "registry", "create_counter", &vec![]));
    native_call(&mut reg, "registry", "retain", &ints(&[h]));
    native_call(&mut reg, "registry", "release", &ints(&[h]));
    assert_eq!(registry_dump(&reg), 1);
    native_call(&mut reg, "registry", "free", &ints(&[h]));
    assert_eq!(registry_dump(&reg), 0);
    let t = int_of(native_call(&mut reg, "registry", "now", &vec![]));
    assert!(int_of(native_call(&mut reg, "registry", "elapsed_ms", &ints(&[t]))) >= 0);
}

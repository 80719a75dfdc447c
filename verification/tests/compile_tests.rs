use mlx_rs::array::Array;
use mlx_rs::compat::{
    execute_multiary_fn, execute_unary_fn, IdentityFn, IdentityUnaryFn, MultiaryFn, UnaryFn,
};
use mlx_rs::compile::{
    clear_cache, disable_compile, enable_compile, type_id_to_usize, Compiled, CompileCache,
};

#[test]
fn trampolines_invoke_the_wrapped_callable() {
    let unary = UnaryFn(Box::new(IdentityUnaryFn));
    let out = execute_unary_fn(&unary, Array::from_int(3));
    assert_eq!(out.item::<i32>(), 3);

    let multiary = MultiaryFn(Box::new(IdentityFn));
    let out = execute_multiary_fn(&multiary, vec![Array::from_int(1), Array::from_int(2)]);
    assert_eq!(out.len(), 2);
    assert_eq!(out[0].item::<i32>(), 1);
    assert_eq!(out[1].item::<i32>(), 2);
}

#[test]
fn compiled_function_registers_and_computes() {
    let mut cache = CompileCache::new();
    assert_eq!(cache.live_entries(), 0);

    let compiled = Compiled::<(), IdentityFn>::new(IdentityFn, false, &mut cache);
    assert_eq!(cache.live_entries(), 1);

    let out = compiled.call(vec![Array::from_int(5)]);
    assert_eq!(out.len(), 1);
    assert_eq!(out[0].item::<i32>(), 5);

    compiled.erase(&mut cache);
    assert_eq!(cache.live_entries(), 0);
}

#[test]
fn erased_identity_is_unregistered() {
    let mut cache = CompileCache::new();
    let compiled = Compiled::<(), IdentityFn>::new(IdentityFn, true, &mut cache);
    let id = type_id_to_usize(&IdentityFn);
    assert!(cache.is_registered(id));

    compiled.erase(&mut cache);
    assert!(!cache.is_registered(id));
}

#[test]
fn callables_of_one_type_share_a_cache_identity() {
    // Two distinct callables of the same static type collapse to one
    // key: the second registration reuses the first entry. This is the
    // documented hazard of keying by type, reproduced as it is.
    let mut cache = CompileCache::new();
    let first = Compiled::<(), IdentityFn>::new(IdentityFn, false, &mut cache);
    let second = Compiled::<(), IdentityFn>::new(IdentityFn, false, &mut cache);
    assert_eq!(cache.live_entries(), 1);
    first.erase(&mut cache);
    assert_eq!(cache.live_entries(), 0);
    second.erase(&mut cache);
    assert_eq!(cache.live_entries(), 0);
}

#[test]
fn global_toggles_and_clear() {
    let mut cache = CompileCache::new();
    let compiled = Compiled::<(), IdentityFn>::new(IdentityFn, false, &mut cache);
    let id = type_id_to_usize(&IdentityFn);

    disable_compile(&mut cache);
    assert!(cache.is_registered(id));
    enable_compile(&mut cache);
    assert!(cache.is_registered(id));

    clear_cache(&mut cache);
    assert_eq!(cache.live_entries(), 0);
    assert!(!cache.is_registered(id));
    drop(compiled);
}

#[test]
fn type_keys_are_stable_within_a_process() {
    assert_eq!(type_id_to_usize(&IdentityFn), type_id_to_usize(&IdentityFn));
    let a = IdentityUnaryFn;
    let b = IdentityUnaryFn;
    assert_eq!(type_id_to_usize(&a), type_id_to_usize(&b));
    assert_ne!(type_id_to_usize(&IdentityFn), type_id_to_usize(&IdentityUnaryFn));
}

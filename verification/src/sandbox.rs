use vstd::prelude::*;
use crate::messaging::MessagingConnection;

verus! {

// ---------------------------------------------------------------------------
// Declarations of the embedded virtual machine's types. All of them are
// opaque handles: this library carries them between calls and proves nothing
// about their insides.
// ---------------------------------------------------------------------------

/// The compilation engine. One is created per process; every template holds a
/// shared handle to it (wasmtime's Engine is reference-counted internally).
#[verifier::external_type_specification]
#[verifier::external_body]
pub struct ExEngine(wasmtime::Engine);

/// A compiled module: immutable, reusable across many instantiations.
#[verifier::external_type_specification]
#[verifier::external_body]
pub struct ExModule(wasmtime::Module);

/// The capability linker: binds named host functions to the per-run state
/// type, and links fresh state against compiled code.
#[verifier::external_type_specification]
#[verifier::external_body]
#[verifier::reject_recursive_types(T)]
pub struct ExLinker<T>(wasmtime::Linker<T>);

/// One run's isolated sandbox state container.
#[verifier::external_type_specification]
#[verifier::external_body]
#[verifier::reject_recursive_types(T)]
pub struct ExStore<T: 'static>(wasmtime::Store<T>);

/// A linked, runnable instance produced from a template and fresh state.
#[verifier::external_type_specification]
#[verifier::external_body]
pub struct ExInstance(wasmtime::Instance);

/// A resolved, typed export of an instance.
#[verifier::external_type_specification]
#[verifier::external_body]
#[verifier::reject_recursive_types(Params)]
#[verifier::reject_recursive_types(Results)]
pub struct ExTypedFunc<Params, Results>(wasmtime::TypedFunc<Params, Results>);

// ---------------------------------------------------------------------------
// The per-run state and the host capability bodies resolved into it.
// ---------------------------------------------------------------------------

/// Fresh, isolated state created for one execution of one module. The
/// messaging connection, when one was established, is embedded here; the
/// debug capability appends to the log.
pub struct WasmModuleStore {
    pub mqtt_connection: Option<MessagingConnection>,
    pub debug_log: Vec<i64>,
}

/// Host body of the messaging publish capability: projects the per-run
/// state's messaging sub-field and forwards the payload to it. A module whose
/// state holds no connection publishes into the void.
pub fn host_publish(store: &WasmModuleStore, payload: i64) {
    match &store.mqtt_connection {
        Some(connection) => forward_publish(connection, payload),
        None => (),
    }
}

/// Relies on tokio's Sender::try_send: hands the payload to the messaging
/// client task if the bounded channel has room; the outcome depends on the
/// consumer, so nothing is promised of it.
#[verifier::external_body]
fn forward_publish(connection: &MessagingConnection, payload: i64) {
    let _ = connection.outbound.try_send(payload);
}

/// Host body of the debug log capability: appends the value to the per-run
/// state's log and touches nothing else.
pub fn host_debug(store: &mut WasmModuleStore, value: i64)
    ensures
        final(store).debug_log@ == old(store).debug_log@.push(value),
        final(store).mqtt_connection == old(store).mqtt_connection,
{
    store.debug_log.push(value);
}

// ---------------------------------------------------------------------------
// Trusted calls into the virtual machine.
// ---------------------------------------------------------------------------

/// Relies on wasmtime's Engine::new with the default configuration: builds
/// the one compilation engine of the process, or reports why the host cannot.
#[verifier::external_body]
pub(crate) fn new_engine() -> (r: Result<wasmtime::Engine, String>) {
    wasmtime::Engine::new(&wasmtime::Config::default()).map_err(|e| format!("{e}"))
}

/// Relies on wasmtime's Engine::clone: a second handle to the same engine
/// (reference-counted internally), so the engine outlives every template.
#[verifier::external_body]
pub(crate) fn clone_engine(engine: &wasmtime::Engine) -> (r: wasmtime::Engine) {
    engine.clone()
}

/// Relies on wasmtime's Module::from_binary: validates and compiles the
/// bytecode, an Err reporting rejected input. Whether given bytes compile is
/// the machine's decision; nothing more is promised.
#[verifier::external_body]
pub(crate) fn compile_module(
    engine: &wasmtime::Engine,
    bytes: &Vec<u8>,
) -> (r: Result<wasmtime::Module, String>) {
    wasmtime::Module::from_binary(engine, bytes).map_err(|e| format!("{e}"))
}

/// Relies on wasmtime's Linker::new: an empty capability linker for this
/// engine.
#[verifier::external_body]
pub(crate) fn new_linker(engine: &wasmtime::Engine) -> (r: wasmtime::Linker<WasmModuleStore>) {
    wasmtime::Linker::new(engine)
}

/// Relies on wasmtime's Linker::func_wrap: registers the messaging namespace;
/// the host closure only projects the caller's state and calls this library's
/// host_publish.
#[verifier::external_body]
pub(crate) fn add_messaging_capabilities(
    linker: &mut wasmtime::Linker<WasmModuleStore>,
) -> (r: Result<(), String>) {
    linker
        .func_wrap(
            "mqtt",
            "publish",
            |caller: wasmtime::Caller<'_, WasmModuleStore>, payload: i64| {
                host_publish(caller.data(), payload)
            },
        )
        .map(|_| ())
        .map_err(|e| format!("{e}"))
}

/// Relies on wasmtime's Linker::func_wrap: registers the debug namespace; the
/// host closure only projects the caller's whole state and calls this
/// library's host_debug.
#[verifier::external_body]
pub(crate) fn add_debug_capabilities(
    linker: &mut wasmtime::Linker<WasmModuleStore>,
) -> (r: Result<(), String>) {
    linker
        .func_wrap(
            "debug",
            "log",
            |mut caller: wasmtime::Caller<'_, WasmModuleStore>, value: i64| {
                host_debug(caller.data_mut(), value)
            },
        )
        .map(|_| ())
        .map_err(|e| format!("{e}"))
}

/// Relies on wasmtime's Store::new: a fresh state container owning exactly
/// the given per-run state.
#[verifier::external_body]
pub(crate) fn new_store(
    engine: &wasmtime::Engine,
    data: WasmModuleStore,
) -> (r: wasmtime::Store<WasmModuleStore>) {
    wasmtime::Store::new(engine, data)
}

/// Relies on wasmtime's Linker::instantiate: links the compiled module
/// against the registered capabilities inside the given store, an Err
/// reporting an unresolvable import or a failed constructor. The call
/// panics on a store from another engine; every caller builds the store
/// from the same template's engine as the linker and module (the template's
/// artifacts are crate-private), so that input never reaches it.
#[verifier::external_body]
pub(crate) fn instantiate_module(
    linker: &wasmtime::Linker<WasmModuleStore>,
    store: &mut wasmtime::Store<WasmModuleStore>,
    module: &wasmtime::Module,
) -> (r: Result<wasmtime::Instance, String>) {
    linker.instantiate(&mut *store, module).map_err(|e| format!("{e}"))
}

/// Relies on wasmtime's Instance::get_typed_func: resolves the export with
/// the given name as a zero-argument, zero-result function, an Err when no
/// export of that name and shape exists. The call panics on a store that
/// does not own the instance; every caller passes the store the instance
/// was just created in, so that input never reaches it.
#[verifier::external_body]
pub(crate) fn get_nullary_export(
    instance: &wasmtime::Instance,
    store: &mut wasmtime::Store<WasmModuleStore>,
    name: &str,
) -> (r: Result<wasmtime::TypedFunc<(), ()>, String>) {
    instance.get_typed_func::<(), ()>(&mut *store, name).map_err(|e| format!("{e}"))
}

/// Relies on wasmtime's TypedFunc::call: runs the resolved export to
/// completion; an Err is the distinguished trap/fault outcome of that run.
/// The call panics on a store that does not contain the function; every
/// caller passes the store the function was resolved in, so that input
/// never reaches it.
#[verifier::external_body]
pub(crate) fn invoke_entrypoint(
    store: &mut wasmtime::Store<WasmModuleStore>,
    func: &wasmtime::TypedFunc<(), ()>,
) -> (r: Result<(), String>) {
    func.call(&mut *store, ()).map_err(|e| format!("{e}"))
}

/// Relies on tokio's Handle::spawn_blocking: dispatches the module's
/// execution to the runtime's blocking worker pool; the spawned closure only
/// calls this library's invoke_entrypoint on the moved store and export.
#[verifier::external_body]
pub(crate) fn spawn_execution(
    runtime: &tokio::runtime::Handle,
    store: wasmtime::Store<WasmModuleStore>,
    func: wasmtime::TypedFunc<(), ()>,
) -> (r: tokio::task::JoinHandle<Result<(), String>>) {
    runtime.spawn_blocking(move || {
        let mut store = store;
        invoke_entrypoint(&mut store, &func)
    })
}

} // verus!

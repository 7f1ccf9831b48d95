use vstd::prelude::*;
use crate::config::ModuleRuntimeConfig;
use crate::messaging::MessagingConnection;
use crate::sandbox::WasmModuleStore;
use crate::sandbox::{
    add_debug_capabilities, add_messaging_capabilities, clone_engine, compile_module,
    get_nullary_export, instantiate_module, new_engine, new_linker, new_store, spawn_execution,
};
use crate::RuntimeEvent;

verus! {

/// A fatal error tied to one configured module.
#[derive(Debug)]
pub struct ModuleError {
    pub module_name: String,
    pub message: String,
}

/// A fatal error of the initialization step: either the compilation engine
/// itself could not be built, or one module's bytecode or capability linking
/// was rejected.
#[derive(Debug)]
pub enum InitError {
    Engine { message: String },
    Module { module_name: String, message: String },
}

/// One configured module as the surrounding program hands it in: its name,
/// the outcome of reading its bytecode from disk, and its runtime options.
pub struct LoadedModule {
    pub name: String,
    pub bytes: Result<Vec<u8>, String>,
    pub runtime_config: ModuleRuntimeConfig,
}

/// A module's bytecode in memory, paired with its runtime options, before
/// compilation. Consumed exactly once by the initialize step.
pub struct UninitializedModule<C> {
    pub bytes: Vec<u8>,
    pub runtime_config: C,
}

/// The uninitialized phase of the context: raw modules only. No module can be
/// run from this phase; only `initialize_modules` leads out of it.
pub struct UninitializedAppContext {
    pub modules: Vec<(String, UninitializedModule<ModuleRuntimeConfig>)>,
}

/// The reusable result of compiling one module's bytecode and binding the
/// capability linker to it. Immutable; instantiated afresh for every run.
///
/// The engine, compiled code and linker are crate-private: every template is
/// built by this library against one engine, so a store created from a
/// template's engine is always the one its linker and module belong to — the
/// machine's cross-engine panics are unreachable through this type.
#[verifier::reject_recursive_types(T)]
pub struct InitializedModule<T, C> {
    pub(crate) module: wasmtime::Module,
    pub(crate) linker: wasmtime::Linker<T>,
    pub(crate) engine: wasmtime::Engine,
    pub runtime_config: C,
}

impl<T, C> InitializedModule<T, C> {
    /// The runtime options this template carries. The template's other
    /// fields are the machine's opaque artifacts, so this is the one part
    /// of a template that public contracts speak of.
    pub closed spec fn config(&self) -> C {
        self.runtime_config
    }
}

/// The companion messaging event loop of one active module: the shutdown
/// signal's sender and the loop task's handle.
pub struct MqttEventLoopTaskInfo {
    pub runtime_event_sender: tokio::sync::mpsc::Sender<RuntimeEvent>,
    pub task_handle: tokio::task::JoinHandle<Result<(), String>>,
}

/// The runtime record of one active module: the in-flight execution task and,
/// when messaging was established for this run, its companion event loop.
pub struct ModuleRuntime {
    pub module_task_handle: tokio::task::JoinHandle<Result<(), String>>,
    pub module_mqtt_event_loop_task_info: Option<MqttEventLoopTaskInfo>,
}

/// The per-module unit tracked by the initialized context: the compiled
/// template, plus the runtime record while the module is active.
pub struct ModuleData {
    pub module_template: InitializedModule<WasmModuleStore, ModuleRuntimeConfig>,
    pub runtime: Option<ModuleRuntime>,
}

impl ModuleData {
    /// A module is running while it holds a runtime record.
    pub open spec fn is_running(&self) -> bool {
        self.runtime is Some
    }

    /// A running module's record may carry a companion event loop.
    pub open spec fn has_companion(&self) -> bool {
        match self.runtime {
            Some(r) => r.module_mqtt_event_loop_task_info is Some,
            None => false,
        }
    }
}

/// The initialized phase of the context: a mapping from module name to its
/// template and runtime record. Only this phase exposes start and cleanup.
pub struct InitializedAppContext {
    pub modules: Vec<(String, ModuleData)>,
}

/// Every configured module's bytecode was read successfully.
pub open spec fn all_bytes_ok(sources: Seq<LoadedModule>) -> bool {
    forall|i: int| 0 <= i < sources.len() ==> (#[trigger] sources[i]).bytes is Ok
}

/// The uninitialized context holds exactly the given sources: same names in
/// the same order, each with its bytes and its runtime options.
pub open spec fn loaded_from(sources: Seq<LoadedModule>, ctx: UninitializedAppContext) -> bool {
    &&& ctx.modules@.len() == sources.len()
    &&& forall|i: int|
        0 <= i < sources.len() ==> {
            &&& (#[trigger] ctx.modules@[i]).0@ == sources[i].name@
            &&& ctx.modules@[i].1.bytes@ == sources[i].bytes->Ok_0@
            &&& ctx.modules@[i].1.runtime_config == sources[i].runtime_config
        }
}

/// The error is the first load failure among the sources: its module's bytes
/// failed to read with this message, and every earlier module's bytes were
/// read successfully.
pub open spec fn first_load_failure(sources: Seq<LoadedModule>, e: ModuleError) -> bool {
    exists|i: int|
        {
            &&& 0 <= i < sources.len()
            &&& (#[trigger] sources[i]).bytes is Err
            &&& e.module_name@ == sources[i].name@
            &&& e.message@ == sources[i].bytes->Err_0@
            &&& forall|j: int| 0 <= j < i ==> sources[j].bytes is Ok
        }
}

impl UninitializedAppContext {
    /// Names are unique: the mapping has at most one entry per module name.
    pub open spec fn wf(&self) -> bool {
        forall|i: int, j: int|
            0 <= i < j < self.modules@.len() ==> self.modules@[i].0@ != self.modules@[j].0@
    }

    /// Builds the uninitialized context from the outcome of loading every
    /// configured module's bytecode. The first unreadable module aborts
    /// construction entirely: no partial context is ever produced.
    pub fn new(sources: Vec<LoadedModule>) -> (r: Result<UninitializedAppContext, ModuleError>)
        requires
            forall|i: int, j: int|
                0 <= i < j < sources@.len() ==> sources@[i].name@ != sources@[j].name@,
        ensures
            (r is Ok) <==> all_bytes_ok(sources@),
            r is Ok ==> loaded_from(sources@, r->Ok_0) && r->Ok_0.wf(),
            r is Err ==> first_load_failure(sources@, r->Err_0),
    {
        let mut sources = sources;
        Self::load_all(&mut sources)
    }

    /// Drains the sources and builds the uninitialized context, stopping at
    /// the first module whose bytecode could not be read.
    fn load_all(remaining: &mut Vec<LoadedModule>) -> (r: Result<
        UninitializedAppContext,
        ModuleError,
    >)
        requires
            forall|i: int, j: int|
                0 <= i < j < old(remaining)@.len() ==> old(remaining)@[i].name@ != old(
                    remaining,
                )@[j].name@,
        ensures
            (r is Ok) <==> all_bytes_ok(old(remaining)@),
            r is Ok ==> loaded_from(old(remaining)@, r->Ok_0) && r->Ok_0.wf(),
            r is Err ==> first_load_failure(old(remaining)@, r->Err_0),
    {
        let ghost orig = old(remaining)@;
        let mut modules: Vec<(String, UninitializedModule<ModuleRuntimeConfig>)> = Vec::new();
        while remaining.len() > 0
            invariant
                orig == old(remaining)@,
                modules@.len() + remaining@.len() == orig.len(),
                remaining@ == orig.subrange(modules@.len() as int, orig.len() as int),
                forall|i: int|
                    0 <= i < modules@.len() ==> {
                        &&& orig[i].bytes is Ok
                        &&& (#[trigger] modules@[i]).0@ == orig[i].name@
                        &&& modules@[i].1.bytes@ == orig[i].bytes->Ok_0@
                        &&& modules@[i].1.runtime_config == orig[i].runtime_config
                    },
            decreases remaining@.len(),
        {
            let ghost done = modules@.len() as int;
            proof {
                assert(remaining@[0] == orig[done]);
            }
            let source = remaining.remove(0);
            let ghost taken = source;
            match source.bytes {
                Ok(bytes) => {
                    modules.push((
                        source.name,
                        UninitializedModule { bytes, runtime_config: source.runtime_config },
                    ));
                }
                Err(message) => {
                    let err = ModuleError { module_name: source.name, message };
                    proof {
                        assert(taken == orig[done]);
                        assert forall|j: int| 0 <= j < done implies orig[j].bytes is Ok by {
                            assert(modules@[j].0@ == orig[j].name@);
                        }
                        assert((#[trigger] orig[done]).bytes is Err);
                        assert(first_load_failure(orig, err));
                        assert(!all_bytes_ok(orig));
                    }
                    return Err(err);
                }
            }
        }
        let ctx = UninitializedAppContext { modules };
        proof {
            assert forall|i: int| 0 <= i < orig.len() implies (#[trigger] orig[i]).bytes is Ok by {
                assert(modules@[i].0@ == orig[i].name@);
            }
            assert(all_bytes_ok(orig));
            assert(loaded_from(orig, ctx));
        }
        Ok(ctx)
    }
}


/// One module's name paired with the outcome of compiling and
/// capability-linking its bytecode.
pub type TemplateOutcome = (String, Result<InitializedModule<WasmModuleStore, ModuleRuntimeConfig>, String>);

/// Every module's bytecode compiled and linked successfully.
pub open spec fn all_templates_ok(parts: Seq<TemplateOutcome>) -> bool {
    forall|i: int| 0 <= i < parts.len() ==> (#[trigger] parts[i]).1 is Ok
}

/// The initialized context holds exactly the given templates: same names in
/// the same order, each module idle.
pub open spec fn assembled_from(parts: Seq<TemplateOutcome>, ctx: InitializedAppContext) -> bool {
    &&& ctx.modules@.len() == parts.len()
    &&& forall|i: int|
        0 <= i < parts.len() ==> {
            &&& (#[trigger] ctx.modules@[i]).0@ == parts[i].0@
            &&& ctx.modules@[i].1.module_template == parts[i].1->Ok_0
            &&& ctx.modules@[i].1.runtime is None
        }
}

/// The error is the first compile or link failure among the outcomes, and
/// every earlier module's template was built successfully.
pub open spec fn first_template_failure(parts: Seq<TemplateOutcome>, e: ModuleError) -> bool {
    exists|i: int|
        {
            &&& 0 <= i < parts.len()
            &&& (#[trigger] parts[i]).1 is Err
            &&& e.module_name@ == parts[i].0@
            &&& e.message@ == parts[i].1->Err_0@
            &&& forall|j: int| 0 <= j < i ==> parts[j].1 is Ok
        }
}

impl InitializedAppContext {
    /// Names are unique: the mapping has at most one entry per module name.
    pub open spec fn wf(&self) -> bool {
        forall|i: int, j: int|
            0 <= i < j < self.modules@.len() ==> self.modules@[i].0@ != self.modules@[j].0@
    }
}

/// Builds the initialized context from the per-module compile and link
/// outcomes: every outcome must be a template, and the first failure aborts
/// the whole step with that module's error. Nothing in between is produced.
pub fn collect_templates(parts: Vec<TemplateOutcome>) -> (r: Result<
    InitializedAppContext,
    ModuleError,
>)
    requires
        forall|i: int, j: int|
            0 <= i < j < parts@.len() ==> parts@[i].0@ != parts@[j].0@,
    ensures
        (r is Ok) <==> all_templates_ok(parts@),
        r is Ok ==> assembled_from(parts@, r->Ok_0) && r->Ok_0.wf(),
        r is Err ==> first_template_failure(parts@, r->Err_0),
{
    let mut parts = parts;
    collect_all(&mut parts)
}

/// Drains the outcomes and assembles the initialized context, stopping at
/// the first module whose template could not be built.
fn collect_all(remaining: &mut Vec<TemplateOutcome>) -> (r: Result<
    InitializedAppContext,
    ModuleError,
>)
    requires
        forall|i: int, j: int|
            0 <= i < j < old(remaining)@.len() ==> old(remaining)@[i].0@ != old(
                remaining,
            )@[j].0@,
    ensures
        (r is Ok) <==> all_templates_ok(old(remaining)@),
        r is Ok ==> assembled_from(old(remaining)@, r->Ok_0) && r->Ok_0.wf(),
        r is Err ==> first_template_failure(old(remaining)@, r->Err_0),
{
    let ghost orig = old(remaining)@;
    let mut modules: Vec<(String, ModuleData)> = Vec::new();
    while remaining.len() > 0
        invariant
            orig == old(remaining)@,
            modules@.len() + remaining@.len() == orig.len(),
            remaining@ == orig.subrange(modules@.len() as int, orig.len() as int),
            forall|i: int|
                0 <= i < modules@.len() ==> {
                    &&& orig[i].1 is Ok
                    &&& (#[trigger] modules@[i]).0@ == orig[i].0@
                    &&& modules@[i].1.module_template == orig[i].1->Ok_0
                    &&& modules@[i].1.runtime is None
                },
        decreases remaining@.len(),
    {
        let ghost done = modules@.len() as int;
        proof {
            assert(remaining@[0] == orig[done]);
        }
        let part = remaining.remove(0);
        let ghost taken = part;
        match part.1 {
            Ok(template) => {
                modules.push((part.0, ModuleData { module_template: template, runtime: None }));
            }
            Err(message) => {
                let err = ModuleError { module_name: part.0, message };
                proof {
                    assert(taken == orig[done]);
                    assert forall|j: int| 0 <= j < done implies orig[j].1 is Ok by {
                        assert(modules@[j].0@ == orig[j].0@);
                    }
                    assert((#[trigger] orig[done]).1 is Err);
                    assert(first_template_failure(orig, err));
                    assert(!all_templates_ok(orig));
                }
                return Err(err);
            }
        }
    }
    let ctx = InitializedAppContext { modules };
    proof {
        assert forall|i: int| 0 <= i < orig.len() implies (#[trigger] orig[i]).1 is Ok by {
            assert(modules@[i].0@ == orig[i].0@);
        }
        assert(all_templates_ok(orig));
        assert(assembled_from(orig, ctx));
    }
    Ok(ctx)
}


/// Compiles one module's bytecode and binds the capability linker to it,
/// producing the reusable template for that module. The template shares the
/// given engine and carries the given runtime options unchanged.
fn build_template(
    engine: &wasmtime::Engine,
    bytes: &Vec<u8>,
    runtime_config: ModuleRuntimeConfig,
) -> (r: Result<InitializedModule<WasmModuleStore, ModuleRuntimeConfig>, String>)
    ensures
        r is Ok ==> r->Ok_0.runtime_config == runtime_config,
{
    let compiled = match compile_module(engine, bytes) {
        Ok(compiled) => compiled,
        Err(message) => {
            return Err(message);
        }
    };
    let mut linker = new_linker(engine);
    match add_messaging_capabilities(&mut linker) {
        Ok(unit) => unit,
        Err(message) => {
            return Err(message);
        }
    }
    match add_debug_capabilities(&mut linker) {
        Ok(unit) => unit,
        Err(message) => {
            return Err(message);
        }
    }
    Ok(
        InitializedModule {
            module: compiled,
            linker,
            engine: clone_engine(engine),
            runtime_config,
        },
    )
}

/// Compiles and links every raw module against one fresh engine, draining
/// the raw mapping; the first failure aborts the whole step.
fn initialize_all(raw: &mut Vec<(String, UninitializedModule<ModuleRuntimeConfig>)>) -> (r: Result<
    InitializedAppContext,
    InitError,
>)
    requires
        forall|i: int, j: int|
            0 <= i < j < old(raw)@.len() ==> old(raw)@[i].0@ != old(raw)@[j].0@,
    ensures
        r is Ok ==> {
            &&& r->Ok_0.wf()
            &&& r->Ok_0.modules@.len() == old(raw)@.len()
            &&& forall|i: int|
                0 <= i < old(raw)@.len() ==> {
                    &&& (#[trigger] r->Ok_0.modules@[i]).0@ == old(raw)@[i].0@
                    &&& r->Ok_0.modules@[i].1.runtime is None
                    &&& r->Ok_0.modules@[i].1.module_template.runtime_config == old(
                        raw,
                    )@[i].1.runtime_config
                }
        },
        r is Err && r->Err_0 is Module ==> exists|i: int|
            0 <= i < old(raw)@.len() && r->Err_0->Module_module_name@ == (#[trigger] old(
                raw,
            )@[i]).0@,
{
    let engine = match new_engine() {
        Ok(engine) => engine,
        Err(message) => {
            return Err(InitError::Engine { message });
        }
    };
    let ghost orig = old(raw)@;
    let mut parts: Vec<TemplateOutcome> = Vec::new();
    while raw.len() > 0
        invariant
            orig == old(raw)@,
            parts@.len() + raw@.len() == orig.len(),
            raw@ == orig.subrange(parts@.len() as int, orig.len() as int),
            forall|i: int|
                0 <= i < parts@.len() ==> {
                    &&& (#[trigger] parts@[i]).0@ == orig[i].0@
                    &&& (parts@[i].1 is Ok ==> parts@[i].1->Ok_0.runtime_config
                        == orig[i].1.runtime_config)
                },
        decreases raw@.len(),
    {
        proof {
            assert(raw@[0] == orig[parts@.len() as int]);
        }
        let entry = raw.remove(0);
        let outcome = build_template(&engine, &entry.1.bytes, entry.1.runtime_config);
        parts.push((entry.0, outcome));
    }
    proof {
        assert forall|i: int, j: int| 0 <= i < j < parts@.len() implies parts@[i].0@
            != parts@[j].0@ by {
            assert(parts@[i].0@ == orig[i].0@);
            assert(parts@[j].0@ == orig[j].0@);
        }
    }
    let ghost finished_parts = parts@;
    match collect_all(&mut parts) {
        Ok(ctx) => {
            proof {
                assert(assembled_from(finished_parts, ctx));
                assert forall|i: int| 0 <= i < orig.len() implies {
                    &&& (#[trigger] ctx.modules@[i]).0@ == orig[i].0@
                    &&& ctx.modules@[i].1.runtime is None
                    &&& ctx.modules@[i].1.module_template.runtime_config
                        == orig[i].1.runtime_config
                } by {
                    assert(finished_parts[i].1 is Ok);
                    assert(ctx.modules@[i].1.module_template == finished_parts[i].1->Ok_0);
                }
            }
            Ok(ctx)
        }
        Err(e) => {
            proof {
                assert(first_template_failure(finished_parts, e));
            }
            let err = InitError::Module { module_name: e.module_name, message: e.message };
            Err(err)
        }
    }
}

impl UninitializedAppContext {
    /// Consumes the uninitialized context and compiles and links every
    /// module, yielding the initialized context. A single compile or link
    /// failure, or a failure to build the engine itself, aborts the whole
    /// step: no partially initialized context is ever observable, and the
    /// phase transition is irreversible.
    pub fn initialize_modules(self) -> (r: Result<InitializedAppContext, InitError>)
        requires
            self.wf(),
        ensures
            r is Ok ==> {
                &&& r->Ok_0.wf()
                &&& r->Ok_0.modules@.len() == self.modules@.len()
                &&& forall|i: int|
                    0 <= i < self.modules@.len() ==> {
                        &&& (#[trigger] r->Ok_0.modules@[i]).0@ == self.modules@[i].0@
                        &&& r->Ok_0.modules@[i].1.runtime is None
                        &&& r->Ok_0.modules@[i].1.module_template.config()
                            == self.modules@[i].1.runtime_config
                    }
            },
            r is Err && r->Err_0 is Module ==> exists|i: int|
                0 <= i < self.modules@.len() && r->Err_0->Module_module_name@ == (
                #[trigger] self.modules@[i]).0@,
    {
        let mut raw = self.modules;
        initialize_all(&mut raw)
    }
}


/// What the surrounding program established for one module before a start
/// pass: a live messaging connection handle for the per-run state, and the
/// already spawned companion event loop with its shutdown channel. One is
/// only ever built after the connection attempt succeeded.
pub struct MessagingSetup {
    pub module_name: String,
    pub connection: MessagingConnection,
    pub runtime_event_sender: tokio::sync::mpsc::Sender<RuntimeEvent>,
    pub task_handle: tokio::task::JoinHandle<Result<(), String>>,
}

/// Some error in the list is tied to the module of this name.
pub open spec fn has_error(errs: Seq<ModuleError>, name: Seq<char>) -> bool {
    exists|k: int| 0 <= k < errs.len() && (#[trigger] errs[k]).module_name@ == name
}

/// Some setup in the list is for the module of this name.
pub open spec fn has_setup(setups: Seq<MessagingSetup>, name: Seq<char>) -> bool {
    exists|k: int| 0 <= k < setups.len() && (#[trigger] setups[k]).module_name@ == name
}

/// The companion's shutdown sender and task handle are those of a setup in
/// the list bearing the module's name.
pub open spec fn companion_of_setup(
    setups: Seq<MessagingSetup>,
    name: Seq<char>,
    info: MqttEventLoopTaskInfo,
) -> bool {
    exists|k: int|
        {
            &&& 0 <= k < setups.len()
            &&& (#[trigger] setups[k]).module_name@ == name
            &&& info.runtime_event_sender == setups[k].runtime_event_sender
            &&& info.task_handle == setups[k].task_handle
        }
}

/// Every setup in the second list already stood in the first.
pub open spec fn setups_from(before: Seq<MessagingSetup>, after: Seq<MessagingSetup>) -> bool {
    forall|k: int| 0 <= k < after.len() ==> before.contains(#[trigger] after[k])
}

/// The found setup stood at some position in the old list, it is the first
/// one bearing the name, and the new list is the old list with exactly that
/// position deleted.
pub open spec fn setup_removed_at(
    before: Seq<MessagingSetup>,
    after: Seq<MessagingSetup>,
    s: MessagingSetup,
    name: Seq<char>,
) -> bool {
    exists|k: int|
        {
            &&& 0 <= k < before.len()
            &&& (#[trigger] before[k]) == s
            &&& before[k].module_name@ == name
            &&& after == before.remove(k)
            &&& forall|j: int| 0 <= j < k ==> before[j].module_name@ != name
        }
}

/// Removes and returns the first setup for the named module, leaving the
/// rest; None when no setup of that name is present, leaving the list as it
/// was. The removed entry is exactly the first one bearing the name, nothing
/// else is lost, and whatever remains was already in the list before.
fn take_setup(setups: &mut Vec<MessagingSetup>, name: &String) -> (r: Option<MessagingSetup>)
    ensures
        r is Some ==> r->Some_0.module_name@ == name@ && has_setup(old(setups)@, name@)
            && old(setups)@.contains(r->Some_0) && setup_removed_at(
            old(setups)@,
            final(setups)@,
            r->Some_0,
            name@,
        ),
        r is None ==> final(setups)@ == old(setups)@ && !has_setup(old(setups)@, name@),
        setups_from(old(setups)@, final(setups)@),
{
    let n = setups.len();
    let mut k: usize = 0;
    while k < n
        invariant
            old(setups)@ == setups@,
            n == setups@.len(),
            0 <= k <= n,
            forall|j: int| 0 <= j < k ==> (#[trigger] setups@[j]).module_name@ != name@,
        decreases n - k,
    {
        if setups[k].module_name == *name {
            let found = setups.remove(k);
            proof {
                assert(found == old(setups)@[k as int]);
                assert(has_setup(old(setups)@, name@));
                assert(old(setups)@.contains(found));
                assert(setups@ == old(setups)@.remove(k as int));
                assert(setup_removed_at(old(setups)@, setups@, found, name@));
                assert forall|j: int| 0 <= j < setups@.len() implies old(setups)@.contains(
                    #[trigger] setups@[j],
                ) by {
                    if j < k {
                        assert(old(setups)@[j] == setups@[j]);
                    } else {
                        assert(old(setups)@[j + 1] == setups@[j]);
                    }
                }
                assert(setups_from(old(setups)@, setups@));
            }
            return Some(found);
        }
        k += 1;
    }
    proof {
        assert forall|j: int| 0 <= j < setups@.len() implies old(setups)@.contains(
            #[trigger] setups@[j],
        ) by {
            assert(old(setups)@[j] == setups@[j]);
        }
        assert(setups_from(old(setups)@, setups@));
    }
    None
}

/// Instantiates fresh isolated state from the template (embedding the
/// connection, when one was handed in), links it, resolves the exported
/// zero-argument entry point named "start", and dispatches its invocation to
/// the blocking worker pool. An Err is the fatal per-module start failure;
/// nothing was spawned then. On success the returned record carries exactly
/// the given companion.
fn start_module(
    template: &InitializedModule<WasmModuleStore, ModuleRuntimeConfig>,
    runtime: &tokio::runtime::Handle,
    connection: Option<MessagingConnection>,
    companion: Option<MqttEventLoopTaskInfo>,
) -> (r: Result<ModuleRuntime, String>)
    ensures
        r is Ok ==> r->Ok_0.module_mqtt_event_loop_task_info == companion,
{
    let mut store = new_store(
        &template.engine,
        WasmModuleStore { mqtt_connection: connection, debug_log: Vec::new() },
    );
    let instance = match instantiate_module(&template.linker, &mut store, &template.module) {
        Ok(instance) => instance,
        Err(message) => {
            return Err(message);
        }
    };
    let entry = match get_nullary_export(&instance, &mut store, "start") {
        Ok(entry) => entry,
        Err(message) => {
            return Err(message);
        }
    };
    let handle = spawn_execution(runtime, store, entry);
    Ok(ModuleRuntime { module_task_handle: handle, module_mqtt_event_loop_task_info: companion })
}


/// The error is tied to a module, among the first `hi`, that was idle before
/// the pass.
pub open spec fn error_tied_to_idle(
    before: Seq<(String, ModuleData)>,
    e: ModuleError,
    hi: int,
) -> bool {
    exists|i: int|
        0 <= i < hi <= before.len() && !(#[trigger] before[i]).1.is_running() && e.module_name@
            == before[i].0@
}

/// Every reported start failure is tied to a module, among the first `hi`,
/// that was idle before the pass.
pub open spec fn errors_for_idle(
    before: Seq<(String, ModuleData)>,
    errs: Seq<ModuleError>,
    hi: int,
) -> bool {
    forall|k: int| 0 <= k < errs.len() ==> error_tied_to_idle(before, #[trigger] errs[k], hi)
}

/// How one start pass treats one module.
///
/// An already running module is left exactly as it was: a second start never
/// creates a second execution. An idle module either becomes running, or its
/// fatal start failure is reported and it stays idle, never both. A module
/// that starts carries a companion exactly when its configuration declares
/// messaging and a setup for it was handed in — never otherwise, so a module
/// without a setup runs degraded — and the recorded companion's shutdown
/// sender and task handle are those of a handed-in setup bearing its name.
pub open spec fn start_pass_entry(
    before: (String, ModuleData),
    after: (String, ModuleData),
    errs: Seq<ModuleError>,
    setups: Seq<MessagingSetup>,
) -> bool {
    &&& after.0@ == before.0@
    &&& after.1.module_template == before.1.module_template
    &&& (before.1.is_running() ==> after == before)
    &&& (!before.1.is_running() ==> (after.1.is_running() <==> !has_error(errs, before.0@)))
    &&& (!before.1.is_running() && after.1.has_companion()
        ==> before.1.module_template.config().mqtt is Some && has_setup(
            setups,
            before.0@,
        ))
    &&& (!before.1.is_running() && before.1.module_template.config().mqtt is Some && has_setup(
        setups,
        before.0@,
    ) && after.1.is_running() ==> after.1.has_companion())
    &&& (!before.1.is_running() && after.1.has_companion() ==> companion_of_setup(
        setups,
        before.0@,
        after.1.runtime->Some_0.module_mqtt_event_loop_task_info->Some_0,
    ))
    &&& (!before.1.is_running() && !has_setup(setups, before.0@) ==> !after.1.has_companion())
}

/// How one start pass treats the whole mapping: same modules in the same
/// order, each treated as `start_pass_entry` says.
pub open spec fn start_pass(
    before: Seq<(String, ModuleData)>,
    after: Seq<(String, ModuleData)>,
    errs: Seq<ModuleError>,
    setups: Seq<MessagingSetup>,
) -> bool {
    &&& after.len() == before.len()
    &&& forall|i: int|
        0 <= i < before.len() ==> start_pass_entry(before[i], #[trigger] after[i], errs, setups)
}

/// Law helper: an element of the current list was already in the original
/// list.
proof fn lemma_setup_element_from(
    before: Seq<MessagingSetup>,
    cur: Seq<MessagingSetup>,
    s: MessagingSetup,
)
    requires
        setups_from(before, cur),
        cur.contains(s),
    ensures
        before.contains(s),
{
    let k = choose|k: int| 0 <= k < cur.len() && cur[k] == s;
    assert(before.contains(cur[k]));
}

/// Law helper: removing one setup of a different name keeps a name present.
proof fn lemma_removal_keeps_other_names(
    before: Seq<MessagingSetup>,
    after: Seq<MessagingSetup>,
    s: MessagingSetup,
    removed_name: Seq<char>,
    other: Seq<char>,
)
    requires
        setup_removed_at(before, after, s, removed_name),
        other != removed_name,
        has_setup(before, other),
    ensures
        has_setup(after, other),
{
    let k = choose|k: int|
        {
            &&& 0 <= k < before.len()
            &&& (#[trigger] before[k]) == s
            &&& before[k].module_name@ == removed_name
            &&& after == before.remove(k)
            &&& forall|j: int| 0 <= j < k ==> before[j].module_name@ != removed_name
        };
    let j = choose|j: int| 0 <= j < before.len() && (#[trigger] before[j]).module_name@ == other;
    if j < k {
        assert(after[j] == before[j]);
        assert((#[trigger] after[j]).module_name@ == other);
    } else {
        assert(after[j - 1] == before[j]);
        assert((#[trigger] after[j - 1]).module_name@ == other);
    }
}

/// Law helper: a setup for this name in the current list was already in the
/// original list.
proof fn lemma_setup_name_from(
    before: Seq<MessagingSetup>,
    cur: Seq<MessagingSetup>,
    name: Seq<char>,
)
    requires
        setups_from(before, cur),
        has_setup(cur, name),
    ensures
        has_setup(before, name),
{
    let k = choose|k: int| 0 <= k < cur.len() && (#[trigger] cur[k]).module_name@ == name;
    assert(before.contains(cur[k]));
    let k0 = choose|k0: int| 0 <= k0 < before.len() && before[k0] == cur[k];
    assert((#[trigger] before[k0]).module_name@ == name);
}

impl InitializedAppContext {
    /// Starts every currently idle module, leaving running modules exactly
    /// as they are. For each idle module it embeds the supplied messaging
    /// setup (only if its configuration declares messaging), instantiates
    /// fresh isolated state from the template, resolves the "start" export
    /// and dispatches it to the blocking pool. A module whose instantiation
    /// or export resolution fails stays idle and its error is reported;
    /// other modules are unaffected.
    pub fn run_all_modules(
        &mut self,
        runtime: &tokio::runtime::Handle,
        setups: Vec<MessagingSetup>,
    ) -> (errs: Vec<ModuleError>)
        requires
            old(self).wf(),
        ensures
            final(self).wf(),
            start_pass(old(self).modules@, final(self).modules@, errs@, setups@),
            errors_for_idle(old(self).modules@, errs@, old(self).modules@.len() as int),
    {
        let mut setups = setups;
        self.run_pass(runtime, &mut setups)
    }

    /// One start pass, consuming the matched setups from the list.
    fn run_pass(
        &mut self,
        runtime: &tokio::runtime::Handle,
        setups: &mut Vec<MessagingSetup>,
    ) -> (errs: Vec<ModuleError>)
        requires
            old(self).wf(),
        ensures
            final(self).wf(),
            start_pass(old(self).modules@, final(self).modules@, errs@, old(setups)@),
            errors_for_idle(old(self).modules@, errs@, old(self).modules@.len() as int),
    {
        let ghost orig = old(self).modules@;
        let ghost setups0 = old(setups)@;
        let n = self.modules.len();
        let mut errs: Vec<ModuleError> = Vec::new();
        let mut idx: usize = 0;
        while idx < n
            invariant
                orig == old(self).modules@,
                setups0 == old(setups)@,
                forall|i: int, j: int| 0 <= i < j < orig.len() ==> orig[i].0@ != orig[j].0@,
                n == orig.len(),
                self.modules@.len() == orig.len(),
                0 <= idx <= n,
                setups_from(setups0, setups@),
                forall|i: int|
                    idx <= i < n && has_setup(setups0, (#[trigger] orig[i]).0@) ==> has_setup(
                        setups@,
                        orig[i].0@,
                    ),
                forall|i: int| idx <= i < n ==> #[trigger] self.modules@[i] == orig[i],
                forall|i: int|
                    0 <= i < idx ==> start_pass_entry(
                        orig[i],
                        #[trigger] self.modules@[i],
                        errs@,
                        setups0,
                    ),
                errors_for_idle(orig, errs@, idx as int),
            decreases n - idx,
        {
            let ghost errs_before = errs@;
            let ghost modules_before = self.modules@;
            let entry = &mut self.modules[idx];
            proof {
                assert(*entry == orig[idx as int]);
            }
            if entry.1.runtime.is_none() {
                let wants_messaging = entry.1.module_template.runtime_config.mqtt.is_some();
                let ghost setups_pre = setups@;
                let taken = if wants_messaging {
                    take_setup(setups, &entry.0)
                } else {
                    None
                };
                let ghost taken_g = taken;
                proof {
                    if taken is Some {
                        lemma_setup_name_from(setups0, setups_pre, entry.0@);
                    }
                    if !has_setup(setups0, entry.0@) {
                        if has_setup(setups_pre, entry.0@) {
                            lemma_setup_name_from(setups0, setups_pre, entry.0@);
                        }
                        assert(taken is None);
                    }
                    // Setups for the modules still to come survive this
                    // iteration: only a setup bearing this module's name was
                    // taken, and names are unique.
                    assert forall|i: int|
                        (idx as int) < i && i < n && has_setup(setups0, (#[trigger] orig[i]).0@)
                            implies has_setup(setups@, orig[i].0@) by {
                        assert(has_setup(setups_pre, orig[i].0@));
                        if taken_g is Some {
                            assert(orig[i].0@ != orig[idx as int].0@);
                            lemma_removal_keeps_other_names(
                                setups_pre,
                                setups@,
                                taken_g->Some_0,
                                entry.0@,
                                orig[i].0@,
                            );
                        }
                    }
                }
                let (connection, companion) = match taken {
                    Some(setup) => (
                        Some(setup.connection),
                        Some(
                            MqttEventLoopTaskInfo {
                                runtime_event_sender: setup.runtime_event_sender,
                                task_handle: setup.task_handle,
                            },
                        ),
                    ),
                    None => (None, None),
                };
                proof {
                    // The companion, when one was taken, carries exactly the
                    // sender and task handle of a handed-in setup bearing
                    // this module's name.
                    if companion is Some {
                        let s = taken_g->Some_0;
                        lemma_setup_element_from(setups0, setups_pre, s);
                        let k0 = choose|k0: int| 0 <= k0 < setups0.len() && setups0[k0] == s;
                        assert((#[trigger] setups0[k0]).module_name@ == entry.0@);
                        assert(companion_of_setup(setups0, entry.0@, companion->Some_0));
                    }
                }
                match start_module(&entry.1.module_template, runtime, connection, companion) {
                    Ok(module_runtime) => {
                        entry.1.runtime = Some(module_runtime);
                    }
                    Err(message) => {
                        let module_name = entry.0.clone();
                        let err = ModuleError { module_name, message };
                        proof {
                            assert(error_tied_to_idle(orig, err, idx + 1)) by {
                                assert(!(#[trigger] orig[idx as int]).1.is_running());
                            }
                        }
                        errs.push(err);
                        proof {
                            assert(errs@[errs_before.len() as int] == err);
                            assert(has_error(errs@, orig[idx as int].0@));
                        }
                    }
                }
            }
            proof {
                let i0 = idx as int;
                // Every error so far keeps pointing at an idle module among
                // the modules handled so far, this one included.
                assert forall|k: int| 0 <= k < errs@.len() implies error_tied_to_idle(
                    orig,
                    #[trigger] errs@[k],
                    i0 + 1,
                ) by {
                    if k < errs_before.len() {
                        assert(errs_before[k] == errs@[k]);
                        assert(error_tied_to_idle(orig, errs_before[k], i0));
                        let i = choose|i: int|
                            0 <= i < i0 <= orig.len() && !(#[trigger] orig[i]).1.is_running()
                                && errs_before[k].module_name@ == orig[i].0@;
                        assert(!(#[trigger] orig[i]).1.is_running());
                    }
                }
                // No error so far carries this module's name unless it was
                // pushed for this module in this iteration.
                if !has_error(errs_before, orig[i0].0@) && errs@.len() == errs_before.len() {
                    assert(!has_error(errs@, orig[i0].0@)) by {
                        if has_error(errs@, orig[i0].0@) {
                            let k = choose|k: int|
                                0 <= k < errs@.len() && (#[trigger] errs@[k]).module_name@
                                    == orig[i0].0@;
                            assert(errs_before[k] == errs@[k]);
                        }
                    }
                }
                if has_error(errs_before, orig[i0].0@) {
                    let k = choose|k: int|
                        0 <= k < errs_before.len() && (#[trigger] errs_before[k]).module_name@
                            == orig[i0].0@;
                    assert(error_tied_to_idle(orig, errs_before[k], i0));
                    let i = choose|i: int|
                        0 <= i < i0 <= orig.len() && !(#[trigger] orig[i]).1.is_running()
                            && errs_before[k].module_name@ == orig[i].0@;
                    assert(orig[i].0@ != orig[i0].0@);
                    assert(false);
                }
                // Earlier modules keep their pass relation: a new error, if
                // any, carries this module's name, which differs from theirs.
                assert forall|i: int| 0 <= i < i0 implies start_pass_entry(
                    orig[i],
                    #[trigger] self.modules@[i],
                    errs@,
                    setups0,
                ) by {
                    assert(self.modules@[i] == modules_before[i]);
                    assert(start_pass_entry(orig[i], modules_before[i], errs_before, setups0));
                    assert(orig[i].0@ != orig[i0].0@);
                    if has_error(errs@, orig[i].0@) {
                        let k = choose|k: int|
                            0 <= k < errs@.len() && (#[trigger] errs@[k]).module_name@
                                == orig[i].0@;
                        assert(k < errs_before.len());
                        assert(has_error(errs_before, orig[i].0@));
                    }
                    if has_error(errs_before, orig[i].0@) {
                        let k = choose|k: int|
                            0 <= k < errs_before.len() && (#[trigger] errs_before[k]).module_name@
                                == orig[i].0@;
                        assert(errs@[k] == errs_before[k]);
                        assert(has_error(errs@, orig[i].0@));
                    }
                }
                // This module now satisfies the pass relation too.
                assert(start_pass_entry(orig[i0], self.modules@[i0], errs@, setups0));
            }
            idx += 1;
        }
        proof {
            assert forall|i: int, j: int| 0 <= i < j < self.modules@.len() implies self.modules@[i].0@
                != self.modules@[j].0@ by {
                assert(start_pass_entry(orig[i], self.modules@[i], errs@, setups0));
                assert(start_pass_entry(orig[j], self.modules@[j], errs@, setups0));
            }
            assert(start_pass(orig, self.modules@, errs@, setups0));
            assert forall|k: int| 0 <= k < errs@.len() implies error_tied_to_idle(
                orig,
                #[trigger] errs@[k],
                orig.len() as int,
            ) by {
                assert(error_tied_to_idle(orig, errs@[k], idx as int));
                let i = choose|i: int|
                    0 <= i < idx as int <= orig.len() && !(#[trigger] orig[i]).1.is_running()
                        && errs@[k].module_name@ == orig[i].0@;
                assert(!(#[trigger] orig[i]).1.is_running());
            }
        }
        errs
    }
}


/// What the cleanup supervisor hands back for one reaped module: its name,
/// the finished execution task whose result is still to be collected, and
/// the companion to tear down first (in the order `shutdown_actions` gives).
pub struct ReapedModule {
    pub module_name: String,
    pub execution: tokio::task::JoinHandle<Result<(), String>>,
    pub companion: Option<MqttEventLoopTaskInfo>,
}

/// The ticket a running module's record turns into when it is reaped.
pub open spec fn ticket_of(entry: (String, ModuleData)) -> ReapedModule
    recommends
        entry.1.is_running(),
{
    ReapedModule {
        module_name: entry.0,
        execution: entry.1.runtime->Some_0.module_task_handle,
        companion: entry.1.runtime->Some_0.module_mqtt_event_loop_task_info,
    }
}

/// How one cleanup pass treats the whole mapping: same modules in the same
/// order with their templates kept; an idle module stays untouched, and a
/// module that is still running afterwards was left exactly as it was. The
/// only possible change is running to idle.
pub open spec fn cleanup_pass(
    before: Seq<(String, ModuleData)>,
    after: Seq<(String, ModuleData)>,
) -> bool {
    &&& after.len() == before.len()
    &&& forall|i: int|
        0 <= i < before.len() ==> {
            &&& (#[trigger] after[i]).0@ == before[i].0@
            &&& after[i].1.module_template == before[i].1.module_template
            &&& (!before[i].1.is_running() ==> after[i] == before[i])
            &&& (after[i].1.is_running() ==> after[i] == before[i])
        }
}

/// The ticket belongs to a module that went from running to idle in this
/// pass, and carries exactly that module's recorded handles.
pub open spec fn ticket_from_transition(
    before: Seq<(String, ModuleData)>,
    after: Seq<(String, ModuleData)>,
    t: ReapedModule,
    hi: int,
) -> bool {
    exists|i: int|
        0 <= i < hi <= before.len() && i < after.len() && (#[trigger] before[i]).1.is_running()
            && !after[i].1.is_running() && t == ticket_of(before[i])
}

/// The reaped tickets are exactly the modules that went from running to
/// idle: each ticket comes from such a transition, and each transition left
/// its ticket.
pub open spec fn reaped_tickets(
    before: Seq<(String, ModuleData)>,
    after: Seq<(String, ModuleData)>,
    reaped: Seq<ReapedModule>,
) -> bool {
    &&& forall|k: int|
        0 <= k < reaped.len() ==> ticket_from_transition(
            before,
            after,
            #[trigger] reaped[k],
            before.len() as int,
        )
    &&& forall|i: int|
        0 <= i < before.len() && (#[trigger] before[i]).1.is_running()
            && !after[i].1.is_running() ==> reaped.contains(ticket_of(before[i]))
    &&& forall|k1: int, k2: int|
        0 <= k1 < k2 < reaped.len() ==> reaped[k1].module_name@ != reaped[k2].module_name@
}

/// One module's reap decision, over the drawn task-finished answer: a
/// running module whose execution was observed finished is cleared back to
/// idle and turns into exactly its recorded ticket; any other module is left
/// untouched and yields nothing.
pub fn reap_step(entry: &mut (String, ModuleData), finished: bool) -> (r: Option<ReapedModule>)
    ensures
        finished && old(entry).1.is_running() ==> {
            &&& r == Some(ticket_of(*old(entry)))
            &&& !final(entry).1.is_running()
            &&& final(entry).0 == old(entry).0
            &&& final(entry).1.module_template == old(entry).1.module_template
        },
        !(finished && old(entry).1.is_running()) ==> r is None && *final(entry) == *old(entry),
{
    if finished {
        match entry.1.runtime.take() {
            Some(module_runtime) => {
                let module_name = entry.0.clone();
                Some(
                    ReapedModule {
                        module_name,
                        execution: module_runtime.module_task_handle,
                        companion: module_runtime.module_mqtt_event_loop_task_info,
                    },
                )
            }
            None => None,
        }
    } else {
        None
    }
}

/// The names the tickets carry, in the order they were handed out.
pub open spec fn reaped_names(reaped: Seq<ReapedModule>) -> Seq<Seq<char>> {
    reaped.map_values(|t: ReapedModule| t.module_name@)
}

/// The names of the modules that went from running to idle, in the module
/// mapping's own order.
pub open spec fn transitioned_names(
    before: Seq<(String, ModuleData)>,
    after: Seq<(String, ModuleData)>,
) -> Seq<Seq<char>>
    decreases before.len(),
{
    if before.len() == 0 || after.len() == 0 {
        Seq::empty()
    } else {
        let rest = transitioned_names(before.drop_first(), after.drop_first());
        if before[0].1.is_running() && !after[0].1.is_running() {
            seq![before[0].0@] + rest
        } else {
            rest
        }
    }
}

/// Law helper: extending both sequences by one module appends that module's
/// name exactly when it transitioned.
proof fn lemma_transitioned_names_snoc(
    before: Seq<(String, ModuleData)>,
    after: Seq<(String, ModuleData)>,
    x: (String, ModuleData),
    y: (String, ModuleData),
)
    requires
        before.len() == after.len(),
    ensures
        transitioned_names(before.push(x), after.push(y)) == transitioned_names(before, after)
            + (if x.1.is_running() && !y.1.is_running() {
                seq![x.0@]
            } else {
                Seq::<Seq<char>>::empty()
            }),
    decreases before.len(),
{
    let ghost tail = if x.1.is_running() && !y.1.is_running() {
        seq![x.0@]
    } else {
        Seq::<Seq<char>>::empty()
    };
    if before.len() == 0 {
        assert(before.push(x).drop_first() =~= before);
        assert(after.push(y).drop_first() =~= after);
        assert(transitioned_names(before.push(x), after.push(y)) =~= transitioned_names(
            before,
            after,
        ) + tail);
    } else {
        lemma_transitioned_names_snoc(before.drop_first(), after.drop_first(), x, y);
        assert(before.push(x).drop_first() =~= before.drop_first().push(x));
        assert(after.push(y).drop_first() =~= after.drop_first().push(y));
        assert(transitioned_names(before.push(x), after.push(y)) =~= transitioned_names(
            before,
            after,
        ) + tail);
    }
}

impl InitializedAppContext {
    /// Scans every module and reaps each whose execution task has already
    /// finished: its record is cleared (running back to idle) and its name,
    /// execution handle and companion are returned, in the mapping's own
    /// order. Modules still running, and idle modules, are left untouched.
    /// The surrounding program then performs, for each ticket, the steps of
    /// `shutdown_actions`: signal the companion, await its termination, and
    /// only then collect the execution's result.
    pub fn cleanup_finished_modules(&mut self) -> (reaped: Vec<ReapedModule>)
        requires
            old(self).wf(),
        ensures
            final(self).wf(),
            cleanup_pass(old(self).modules@, final(self).modules@),
            reaped_tickets(old(self).modules@, final(self).modules@, reaped@),
            reaped_names(reaped@) == transitioned_names(old(self).modules@, final(self).modules@),
    {
        let ghost orig = old(self).modules@;
        let n = self.modules.len();
        let mut reaped: Vec<ReapedModule> = Vec::new();
        let mut idx: usize = 0;
        while idx < n
            invariant
                orig == old(self).modules@,
                n == orig.len(),
                self.modules@.len() == n,
                0 <= idx <= n,
                forall|i: int| idx <= i < n ==> #[trigger] self.modules@[i] == orig[i],
                forall|i: int|
                    0 <= i < idx ==> {
                        &&& (#[trigger] self.modules@[i]).0@ == orig[i].0@
                        &&& self.modules@[i].1.module_template == orig[i].1.module_template
                        &&& (!orig[i].1.is_running() ==> self.modules@[i] == orig[i])
                        &&& (self.modules@[i].1.is_running() ==> self.modules@[i] == orig[i])
                    },
                forall|k: int|
                    0 <= k < reaped@.len() ==> ticket_from_transition(
                        orig,
                        self.modules@,
                        #[trigger] reaped@[k],
                        idx as int,
                    ),
                forall|i: int|
                    0 <= i < idx && (#[trigger] orig[i]).1.is_running()
                        && !self.modules@[i].1.is_running() ==> reaped@.contains(
                        ticket_of(orig[i]),
                    ),
                forall|i: int, j: int| 0 <= i < j < orig.len() ==> orig[i].0@ != orig[j].0@,
                forall|k1: int, k2: int|
                    0 <= k1 < k2 < reaped@.len() ==> reaped@[k1].module_name@
                        != reaped@[k2].module_name@,
                reaped_names(reaped@) == transitioned_names(
                    orig.take(idx as int),
                    self.modules@.take(idx as int),
                ),
            decreases n - idx,
        {
            let ghost i0 = idx as int;
            let ghost reaped_before = reaped@;
            let ghost modules_before = self.modules@;
            let entry = &mut self.modules[idx];
            proof {
                assert(*entry == orig[i0]);
            }
            let finished = match &entry.1.runtime {
                Some(module_runtime) => module_runtime.module_task_handle.is_finished(),
                None => false,
            };
            match reap_step(entry, finished) {
                Some(ticket) => {
                    proof {
                        assert(ticket == ticket_of(orig[i0]));
                    }
                    reaped.push(ticket);
                }
                None => {}
            }
            proof {
                assert forall|k: int| 0 <= k < reaped@.len() implies ticket_from_transition(
                    orig,
                    self.modules@,
                    #[trigger] reaped@[k],
                    i0 + 1,
                ) by {
                    if k < reaped_before.len() {
                        assert(reaped_before[k] == reaped@[k]);
                        assert(ticket_from_transition(orig, modules_before, reaped_before[k], i0));
                        let i = choose|i: int|
                            0 <= i < i0 <= orig.len() && i < modules_before.len() && (
                            #[trigger] orig[i]).1.is_running() && !modules_before[i].1.is_running()
                                && reaped_before[k] == ticket_of(orig[i]);
                        assert(self.modules@[i] == modules_before[i]);
                        assert((#[trigger] orig[i]).1.is_running());
                    } else {
                        assert(reaped@[k] == ticket_of(orig[i0]));
                        assert((#[trigger] orig[i0]).1.is_running());
                    }
                }
                assert forall|k1: int, k2: int| 0 <= k1 < k2 < reaped@.len() implies reaped@[k1].module_name@
                    != reaped@[k2].module_name@ by {
                    if k2 < reaped_before.len() {
                        assert(reaped@[k1] == reaped_before[k1]);
                        assert(reaped@[k2] == reaped_before[k2]);
                    } else {
                        // The new ticket carries this module's name; every
                        // earlier ticket came from an earlier module, and
                        // names are unique.
                        assert(reaped@[k1] == reaped_before[k1]);
                        assert(reaped@[k2] == ticket_of(orig[i0]));
                        assert(ticket_from_transition(orig, modules_before, reaped_before[k1], i0));
                        let i = choose|i: int|
                            0 <= i < i0 <= orig.len() && i < modules_before.len() && (
                            #[trigger] orig[i]).1.is_running() && !modules_before[i].1.is_running()
                                && reaped_before[k1] == ticket_of(orig[i]);
                        assert(reaped_before[k1].module_name@ == orig[i].0@);
                        assert(orig[i].0@ != orig[i0].0@);
                    }
                }
                assert forall|i: int|
                    0 <= i < i0 + 1 && (#[trigger] orig[i]).1.is_running()
                        && !self.modules@[i].1.is_running() implies reaped@.contains(
                    ticket_of(orig[i]),
                ) by {
                    if i < i0 {
                        assert(self.modules@[i] == modules_before[i]);
                        assert(reaped_before.contains(ticket_of(orig[i])));
                        let k = choose|k: int|
                            0 <= k < reaped_before.len() && reaped_before[k] == ticket_of(orig[i]);
                        assert(reaped@[k] == ticket_of(orig[i]));
                    } else {
                        assert(reaped@[reaped_before.len() as int] == ticket_of(orig[i0]));
                    }
                }
                // The ticket names stay the transitioned names, in mapping
                // order: this module's name was appended exactly if it
                // transitioned.
                assert(self.modules@.take(i0) =~= modules_before.take(i0));
                assert(orig.take(i0 + 1) =~= orig.take(i0).push(orig[i0]));
                assert(self.modules@.take(i0 + 1) =~= self.modules@.take(i0).push(
                    self.modules@[i0],
                ));
                lemma_transitioned_names_snoc(
                    orig.take(i0),
                    self.modules@.take(i0),
                    orig[i0],
                    self.modules@[i0],
                );
                if reaped@.len() > reaped_before.len() {
                    assert(reaped@ == reaped_before.push(reaped@[reaped_before.len() as int]));
                    assert(reaped_names(reaped@) =~= reaped_names(reaped_before).push(
                        reaped@[reaped_before.len() as int].module_name@,
                    ));
                    assert(reaped@[reaped_before.len() as int].module_name@ == orig[i0].0@);
                    assert(reaped_names(reaped@) =~= transitioned_names(
                        orig.take(i0 + 1),
                        self.modules@.take(i0 + 1),
                    ));
                } else {
                    assert(reaped@ == reaped_before);
                    assert(reaped_names(reaped@) =~= transitioned_names(
                        orig.take(i0 + 1),
                        self.modules@.take(i0 + 1),
                    ));
                }
            }
            idx += 1;
        }
        proof {
            assert forall|i: int, j: int| 0 <= i < j < self.modules@.len() implies self.modules@[i].0@
                != self.modules@[j].0@ by {
                assert(self.modules@[i].0@ == orig[i].0@);
                assert(self.modules@[j].0@ == orig[j].0@);
            }
            assert(cleanup_pass(orig, self.modules@));
            assert forall|k: int| 0 <= k < reaped@.len() implies ticket_from_transition(
                orig,
                self.modules@,
                #[trigger] reaped@[k],
                orig.len() as int,
            ) by {
                assert(ticket_from_transition(orig, self.modules@, reaped@[k], idx as int));
            }
            assert(orig.take(idx as int) =~= orig);
            assert(self.modules@.take(idx as int) =~= self.modules@);
        }
        reaped
    }
}


/// Law: a second start pass never creates a second execution for a module
/// already running after the first, whatever setups or errors either pass
/// produced; its record, execution task and companion are exactly as the
/// first pass left them.
pub proof fn lemma_second_start_keeps_execution(
    before: Seq<(String, ModuleData)>,
    mid: Seq<(String, ModuleData)>,
    after: Seq<(String, ModuleData)>,
    errs1: Seq<ModuleError>,
    errs2: Seq<ModuleError>,
    setups1: Seq<MessagingSetup>,
    setups2: Seq<MessagingSetup>,
    i: int,
)
    requires
        start_pass(before, mid, errs1, setups1),
        start_pass(mid, after, errs2, setups2),
        0 <= i < before.len(),
        mid[i].1.is_running(),
    ensures
        after[i] == mid[i],
{
    assert(start_pass_entry(mid[i], after[i], errs2, setups2));
}

/// Law: a start pass never creates a companion event loop for a module
/// whose configuration declares no messaging.
pub proof fn lemma_no_messaging_no_companion(
    before: Seq<(String, ModuleData)>,
    after: Seq<(String, ModuleData)>,
    errs: Seq<ModuleError>,
    setups: Seq<MessagingSetup>,
    i: int,
)
    requires
        start_pass(before, after, errs, setups),
        0 <= i < before.len(),
        !before[i].1.has_companion(),
        before[i].1.module_template.config().mqtt is None,
    ensures
        !after[i].1.has_companion(),
{
    assert(start_pass_entry(before[i], after[i], errs, setups));
}

} // verus!

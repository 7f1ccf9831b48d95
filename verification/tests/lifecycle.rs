use std::time::Duration;

use wasm_module_host::app::{
    InitializedAppContext, LoadedModule, MessagingSetup, ReapedModule, UninitializedAppContext,
};
use wasm_module_host::config::{ModuleRuntimeConfig, MqttConfig};
use wasm_module_host::messaging::MessagingConnection;
use wasm_module_host::RuntimeEvent;

/// A minimal valid module exporting a zero-argument "start" that returns at
/// once.
fn wasm_with_start() -> Vec<u8> {
    vec![
        0x00, 0x61, 0x73, 0x6D, 0x01, 0x00, 0x00, 0x00, // magic, version
        0x01, 0x04, 0x01, 0x60, 0x00, 0x00, // type: () -> ()
        0x03, 0x02, 0x01, 0x00, // one function of type 0
        0x07, 0x09, 0x01, 0x05, 0x73, 0x74, 0x61, 0x72, 0x74, 0x00, 0x00, // export "start"
        0x0A, 0x04, 0x01, 0x02, 0x00, 0x0B, // body: end
    ]
}

/// A valid module with no exports at all.
fn wasm_without_start() -> Vec<u8> {
    vec![0x00, 0x61, 0x73, 0x6D, 0x01, 0x00, 0x00, 0x00]
}

/// A module whose "start" traps immediately (unreachable).
fn wasm_trapping() -> Vec<u8> {
    vec![
        0x00, 0x61, 0x73, 0x6D, 0x01, 0x00, 0x00, 0x00, //
        0x01, 0x04, 0x01, 0x60, 0x00, 0x00, //
        0x03, 0x02, 0x01, 0x00, //
        0x07, 0x09, 0x01, 0x05, 0x73, 0x74, 0x61, 0x72, 0x74, 0x00, 0x00, //
        0x0A, 0x05, 0x01, 0x03, 0x00, 0x00, 0x0B, // body: unreachable, end
    ]
}

/// A module importing mqtt.publish(i64) and calling it with 42 from "start".
fn wasm_publishing() -> Vec<u8> {
    vec![
        0x00, 0x61, 0x73, 0x6D, 0x01, 0x00, 0x00, 0x00, //
        0x01, 0x08, 0x02, 0x60, 0x00, 0x00, 0x60, 0x01, 0x7E, 0x00, // types: ()->(), (i64)->()
        0x02, 0x10, 0x01, 0x04, 0x6D, 0x71, 0x74, 0x74, 0x07, 0x70, 0x75, 0x62, 0x6C, 0x69,
        0x73, 0x68, 0x00, 0x01, // import "mqtt" "publish" of type 1
        0x03, 0x02, 0x01, 0x00, // one local function of type 0
        0x07, 0x09, 0x01, 0x05, 0x73, 0x74, 0x61, 0x72, 0x74, 0x00, 0x01, // export "start" = func 1
        0x0A, 0x08, 0x01, 0x06, 0x00, 0x42, 0x2A, 0x10, 0x00, 0x0B, // body: i64.const 42, call 0
    ]
}

fn config(with_mqtt: bool) -> ModuleRuntimeConfig {
    if with_mqtt {
        ModuleRuntimeConfig {
            mqtt: Some(MqttConfig {
                host: String::from("localhost"),
                port: 1883,
                client_id: String::from("test-client"),
            }),
        }
    } else {
        ModuleRuntimeConfig { mqtt: None }
    }
}

fn loaded(name: &str, bytes: Vec<u8>, with_mqtt: bool) -> LoadedModule {
    LoadedModule { name: String::from(name), bytes: Ok(bytes), runtime_config: config(with_mqtt) }
}

fn initialized(sources: Vec<LoadedModule>) -> InitializedAppContext {
    let uninitialized = UninitializedAppContext::new(sources).expect("load should succeed");
    uninitialized.initialize_modules().expect("initialize should succeed")
}

/// A companion event loop stand-in: waits for the shutdown signal, then
/// terminates cleanly. Returns the setup plus the outbound payload receiver.
fn messaging_setup(
    rt: &tokio::runtime::Runtime,
    name: &str,
) -> (MessagingSetup, tokio::sync::mpsc::Receiver<i64>) {
    let (event_tx, mut event_rx) = tokio::sync::mpsc::channel::<RuntimeEvent>(32);
    let (out_tx, out_rx) = tokio::sync::mpsc::channel::<i64>(32);
    let task = rt.spawn(async move {
        let _ = event_rx.recv().await;
        Ok(())
    });
    let setup = MessagingSetup {
        module_name: String::from(name),
        connection: MessagingConnection { outbound: out_tx },
        runtime_event_sender: event_tx,
        task_handle: task,
    };
    (setup, out_rx)
}

/// Calls cleanup repeatedly until `want` tickets have been collected.
fn reap(
    rt: &tokio::runtime::Runtime,
    ctx: &mut InitializedAppContext,
    want: usize,
) -> Vec<ReapedModule> {
    let mut tickets: Vec<ReapedModule> = Vec::new();
    for _ in 0..500 {
        tickets.extend(ctx.cleanup_finished_modules());
        if tickets.len() >= want {
            break;
        }
        rt.block_on(async { tokio::time::sleep(Duration::from_millis(5)).await });
    }
    tickets
}

fn runtime() -> tokio::runtime::Runtime {
    tokio::runtime::Runtime::new().expect("runtime should build")
}

#[test]
fn load_fails_fast_on_first_unreadable_module() {
    let sources = vec![
        loaded("alpha", wasm_with_start(), false),
        LoadedModule {
            name: String::from("beta"),
            bytes: Err(String::from("no such file")),
            runtime_config: config(false),
        },
        LoadedModule {
            name: String::from("gamma"),
            bytes: Err(String::from("also unreadable")),
            runtime_config: config(false),
        },
    ];
    let err = UninitializedAppContext::new(sources).err().expect("load must fail");
    assert_eq!(err.module_name, "beta");
    assert_eq!(err.message, "no such file");
}

#[test]
fn load_succeeds_when_all_bytes_read() {
    let sources = vec![loaded("alpha", wasm_with_start(), false)];
    let ctx = UninitializedAppContext::new(sources).expect("load must succeed");
    assert_eq!(ctx.modules.len(), 1);
    assert_eq!(ctx.modules[0].0, "alpha");
}

#[test]
fn initialize_rejects_invalid_bytecode_entirely() {
    let sources = vec![
        loaded("good", wasm_with_start(), false),
        loaded("bad", vec![0x00, 0x61, 0x73], false),
    ];
    let uninitialized = UninitializedAppContext::new(sources).expect("load must succeed");
    let err = uninitialized.initialize_modules().err().expect("initialize must fail");
    match err {
        wasm_module_host::app::InitError::Module { module_name, .. } => {
            assert_eq!(module_name, "bad");
        }
        wasm_module_host::app::InitError::Engine { .. } => panic!("engine should build"),
    }
}

#[test]
fn start_and_cleanup_round_trip_with_messaging() {
    let rt = runtime();
    let mut ctx = initialized(vec![loaded("worker", wasm_with_start(), true)]);
    let (setup, _out_rx) = messaging_setup(&rt, "worker");

    let errs = ctx.run_all_modules(rt.handle(), vec![setup]);
    assert!(errs.is_empty());
    assert!(ctx.modules[0].1.runtime.is_some());

    let mut tickets = reap(&rt, &mut ctx, 1);
    assert_eq!(tickets.len(), 1);
    let ticket = tickets.remove(0);
    assert_eq!(ticket.module_name, "worker");
    assert!(ctx.modules[0].1.runtime.is_none());

    // Tear down in the prescribed order.
    let actions = wasm_module_host::messaging::shutdown_actions(ticket.companion.is_some());
    let mut companion = Some(ticket.companion.expect("companion must exist"));
    let mut execution_result: Option<Result<(), String>> = None;
    for action in actions {
        match action {
            wasm_module_host::messaging::ShutdownAction::SendStop => {
                let info = companion.as_ref().expect("companion still present");
                rt.block_on(info.runtime_event_sender.send(RuntimeEvent::RuntimeTaskStop))
                    .expect("send must succeed");
            }
            wasm_module_host::messaging::ShutdownAction::AwaitCompanion => {
                let info = companion.take().expect("companion still present");
                let joined = rt.block_on(info.task_handle).expect("companion join");
                assert_eq!(joined, Ok(()));
            }
            wasm_module_host::messaging::ShutdownAction::AwaitExecution => {
                execution_result = Some(rt.block_on(ticket.execution).expect("execution join"));
                break;
            }
        }
    }
    assert_eq!(execution_result, Some(Ok(())));
}

#[test]
fn two_modules_one_companion() {
    let rt = runtime();
    let mut ctx = initialized(vec![
        loaded("plain", wasm_with_start(), false),
        loaded("messenger", wasm_with_start(), true),
    ]);
    let (setup, _out_rx) = messaging_setup(&rt, "messenger");
    let errs = ctx.run_all_modules(rt.handle(), vec![setup]);
    assert!(errs.is_empty());

    for (name, data) in &ctx.modules {
        let runtime_record = data.runtime.as_ref().expect("both modules must be running");
        if name == "plain" {
            assert!(runtime_record.module_mqtt_event_loop_task_info.is_none());
        } else {
            assert!(runtime_record.module_mqtt_event_loop_task_info.is_some());
        }
    }

    let tickets = reap(&rt, &mut ctx, 2);
    assert_eq!(tickets.len(), 2);
    for (_, data) in &ctx.modules {
        assert!(data.runtime.is_none());
    }
    for ticket in tickets {
        if let Some(companion) = ticket.companion {
            rt.block_on(companion.runtime_event_sender.send(RuntimeEvent::RuntimeTaskStop))
                .expect("send must succeed");
            let joined = rt.block_on(companion.task_handle).expect("companion join");
            assert_eq!(joined, Ok(()));
        }
        let result = rt.block_on(ticket.execution).expect("execution join");
        assert_eq!(result, Ok(()));
    }
}

#[test]
fn degraded_mode_when_connection_failed() {
    // The surrounding program failed to connect, so it hands in no setup:
    // the module still starts, without a companion.
    let rt = runtime();
    let mut ctx = initialized(vec![loaded("lonely", wasm_with_start(), true)]);
    let errs = ctx.run_all_modules(rt.handle(), vec![]);
    assert!(errs.is_empty());
    let record = ctx.modules[0].1.runtime.as_ref().expect("module must run");
    assert!(record.module_mqtt_event_loop_task_info.is_none());

    let tickets = reap(&rt, &mut ctx, 1);
    assert_eq!(tickets.len(), 1);
    assert!(tickets[0].companion.is_none());
}

#[test]
fn no_messaging_config_never_gets_companion() {
    // Even a setup bearing the module's name is refused when the module's
    // configuration declares no messaging.
    let rt = runtime();
    let mut ctx = initialized(vec![loaded("quiet", wasm_with_start(), false)]);
    let (setup, _out_rx) = messaging_setup(&rt, "quiet");
    let errs = ctx.run_all_modules(rt.handle(), vec![setup]);
    assert!(errs.is_empty());
    let record = ctx.modules[0].1.runtime.as_ref().expect("module must run");
    assert!(record.module_mqtt_event_loop_task_info.is_none());
}

#[test]
fn missing_start_export_is_fatal_and_module_stays_idle() {
    let rt = runtime();
    let mut ctx = initialized(vec![
        loaded("fine", wasm_with_start(), false),
        loaded("exportless", wasm_without_start(), false),
    ]);
    let errs = ctx.run_all_modules(rt.handle(), vec![]);
    assert_eq!(errs.len(), 1);
    assert_eq!(errs[0].module_name, "exportless");
    for (name, data) in &ctx.modules {
        if name == "exportless" {
            assert!(data.runtime.is_none());
        } else {
            assert!(data.runtime.is_some());
        }
    }
}

#[test]
fn second_start_does_not_spawn_a_second_execution() {
    let rt = runtime();
    let mut ctx = initialized(vec![loaded("once", wasm_with_start(), false)]);
    let errs = ctx.run_all_modules(rt.handle(), vec![]);
    assert!(errs.is_empty());
    let errs_again = ctx.run_all_modules(rt.handle(), vec![]);
    assert!(errs_again.is_empty());

    // Only one execution was ever dispatched, so exactly one result comes
    // back, however long we keep looking.
    let tickets = reap(&rt, &mut ctx, 1);
    assert_eq!(tickets.len(), 1);
    let more = ctx.cleanup_finished_modules();
    assert!(more.is_empty());
}

#[test]
fn trap_is_a_distinguished_fault_result() {
    let rt = runtime();
    let mut ctx = initialized(vec![loaded("faulty", wasm_trapping(), false)]);
    let errs = ctx.run_all_modules(rt.handle(), vec![]);
    assert!(errs.is_empty());
    let mut tickets = reap(&rt, &mut ctx, 1);
    assert_eq!(tickets.len(), 1);
    let result = rt.block_on(tickets.remove(0).execution).expect("execution join");
    assert!(result.is_err());
}

#[test]
fn published_payload_reaches_the_messaging_bridge() {
    let rt = runtime();
    let mut ctx = initialized(vec![loaded("publisher", wasm_publishing(), true)]);
    let (setup, mut out_rx) = messaging_setup(&rt, "publisher");
    let errs = ctx.run_all_modules(rt.handle(), vec![setup]);
    assert!(errs.is_empty());
    let tickets = reap(&rt, &mut ctx, 1);
    assert_eq!(tickets.len(), 1);
    let payload = out_rx.try_recv().expect("the module must have published");
    assert_eq!(payload, 42);
}

#[test]
fn reap_step_reaps_only_observed_finished() {
    let rt = runtime();
    let mut ctx = initialized(vec![loaded("stepper", wasm_with_start(), false)]);
    let errs = ctx.run_all_modules(rt.handle(), vec![]);
    assert!(errs.is_empty());
    let mut entry = ctx.modules.remove(0);

    // Not observed finished: untouched, nothing handed out.
    assert!(wasm_module_host::app::reap_step(&mut entry, false).is_none());
    assert!(entry.1.runtime.is_some());

    // Observed finished: cleared back to idle, the record becomes the ticket.
    let ticket = wasm_module_host::app::reap_step(&mut entry, true).expect("must reap");
    assert_eq!(ticket.module_name, "stepper");
    assert!(entry.1.runtime.is_none());

    // Idle: nothing to reap, whatever the answer reads.
    assert!(wasm_module_host::app::reap_step(&mut entry, true).is_none());

    let result = rt.block_on(ticket.execution).expect("execution join");
    assert_eq!(result, Ok(()));
}

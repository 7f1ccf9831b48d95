use wasm_module_host::messaging::{
    event_loop_step, shutdown_actions, LoopDecision, LoopEvent, ShutdownAction,
};
use wasm_module_host::sandbox::{host_debug, WasmModuleStore};

#[test]
fn shutdown_signal_precedes_companion_join() {
    let with_companion = shutdown_actions(true);
    assert_eq!(
        with_companion,
        vec![
            ShutdownAction::SendStop,
            ShutdownAction::AwaitCompanion,
            ShutdownAction::AwaitExecution,
        ]
    );
    let without_companion = shutdown_actions(false);
    assert_eq!(without_companion, vec![ShutdownAction::AwaitExecution]);
}

#[test]
fn event_loop_runs_until_stop_or_exhaustion() {
    assert_eq!(event_loop_step(&LoopEvent::ConnectionEvent), LoopDecision::Continue);
    assert_eq!(event_loop_step(&LoopEvent::ConnectionExhausted), LoopDecision::Stop);
    assert_eq!(event_loop_step(&LoopEvent::StopRequested), LoopDecision::Stop);
    assert_eq!(event_loop_step(&LoopEvent::ControlChannelClosed), LoopDecision::Stop);
}

#[test]
fn debug_capability_appends_to_the_log() {
    let mut store = WasmModuleStore { mqtt_connection: None, debug_log: Vec::new() };
    host_debug(&mut store, 7);
    host_debug(&mut store, -3);
    assert_eq!(store.debug_log, vec![7, -3]);
    assert!(store.mqtt_connection.is_none());
}

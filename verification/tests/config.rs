use amica::config::FilterPlan;
use amica::script::{HookResult, ScriptWatch, Stamp};
use amica::{Args, Proxy};

#[test]
fn defaults_without_arguments() {
    let plan = Proxy::new(Args::new(None, None, None)).plan();
    assert_eq!(plan.address, "127.0.0.1:9001");
    assert!(plan.filter.is_none());
}

#[test]
fn pool_number_is_ignored_without_script() {
    let plan = Proxy::new(Args::new(None, Some("0.0.0.0:80".to_string()), Some(8))).plan();
    assert_eq!(plan.address, "0.0.0.0:80");
    assert!(plan.filter.is_none());
}

#[test]
fn script_runs_on_one_worker_by_default() {
    let plan = Proxy::new(Args::new(Some("no_google.lua".to_string()), None, None)).plan();
    assert!(matches!(plan.filter, Some(FilterPlan { script, pool_size: 1 }) if script == "no_google.lua"));
    let plan = Proxy::new(Args::new(Some("f.lua".to_string()), None, Some(12))).plan();
    assert!(matches!(plan.filter, Some(FilterPlan { pool_size: 12, .. })));
}

#[test]
fn reload_only_on_strictly_newer_time() {
    let mut w = ScriptWatch::new(Stamp { secs: 100, nanos: 5 });
    assert!(!w.observe(Stamp { secs: 100, nanos: 5 }));
    assert!(!w.observe(Stamp { secs: 99, nanos: 999 }));
    assert!(w.observe(Stamp { secs: 100, nanos: 6 }));
    assert!(!w.observe(Stamp { secs: 100, nanos: 6 }));
    assert!(w.observe(Stamp { secs: 101, nanos: 0 }));
    assert_eq!(w.loaded(), Stamp { secs: 101, nanos: 0 });
}

#[test]
fn missing_hook_passes_message_on() {
    assert_eq!(HookResult::<u32>::Missing.resolve(7), 7);
    assert_eq!(HookResult::Returned(9).resolve(7), 9);
}

use beditor::config::ViewportConfig;
use beditor::viewport_manager::{CpuOverhead, ProviderInfo, SwitchError, ViewportManager};

fn info(id: &str, supported: bool) -> ProviderInfo {
    ProviderInfo {
        id: id.to_string(),
        name: format!("{id} provider"),
        description: String::new(),
        is_supported: supported,
        estimated_fps: 60,
        cpu_overhead: CpuOverhead::Low,
    }
}

fn manager() -> ViewportManager {
    let mut m = ViewportManager::new(ViewportConfig::default());
    m.register_provider(info("shared_memory", true));
    m.register_provider(info("window_overlay", false));
    m.register_provider(info("custom_protocol", true));
    m.register_provider(info("shared_memory", true));
    m
}

#[test]
fn new_manager_has_no_provider() {
    let m = ViewportManager::new(ViewportConfig::default());
    assert_eq!(m.provider_count(), 0);
    assert_eq!(m.get_active_provider(), None);
    assert_eq!(m.config().target_fps, 60);
    assert!(m.settings_rows().is_empty());
}

#[test]
fn settings_list_supported_providers_in_order() {
    let m = manager();
    assert_eq!(m.provider_count(), 4);
    assert_eq!(m.settings_rows(), vec![(0, false), (2, false), (3, false)]);
    assert_eq!(m.get_supported_providers(), vec![0, 2, 3]);
    assert_eq!(m.get_provider(1).id, "window_overlay");
}

#[test]
fn switch_starts_first_provider_with_the_id() {
    let mut m = manager();
    let plan = m.plan_switch("shared_memory");
    assert_eq!(plan.shutdown, None);
    assert_eq!(plan.target, Some(0));
    assert_eq!(m.finish_switch(plan, true, true), Ok(()));
    assert_eq!(m.get_active_provider(), Some(0));
    assert_eq!(m.settings_rows(), vec![(0, true), (2, false), (3, true)]);

    let plan = m.plan_switch("custom_protocol");
    assert_eq!(plan.shutdown, Some(0));
    assert_eq!(plan.target, Some(2));
    assert_eq!(m.finish_switch(plan, true, true), Ok(()));
    assert_eq!(m.get_active_provider(), Some(2));
}

#[test]
fn failed_switch_keeps_the_active_provider() {
    let mut m = manager();
    let plan = m.plan_switch("custom_protocol");
    m.finish_switch(plan, true, true).unwrap();

    let plan = m.plan_switch("shared_memory");
    assert_eq!(m.finish_switch(plan, false, true), Err(SwitchError::ShutdownFailed));
    assert_eq!(m.get_active_provider(), Some(2));

    let plan = m.plan_switch("shared_memory");
    assert_eq!(m.finish_switch(plan, true, false), Err(SwitchError::InitFailed));
    assert_eq!(m.get_active_provider(), Some(2));

    let plan = m.plan_switch("missing");
    assert_eq!(plan.target, None);
    assert_eq!(m.finish_switch(plan, true, true), Err(SwitchError::NotFound));
    assert_eq!(m.get_active_provider(), Some(2));
    assert_eq!(m.find_provider("missing"), None);
    assert_eq!(m.find_provider("window_overlay"), Some(1));
}

#[test]
fn providers_sharing_the_active_id_are_all_in_use() {
    let mut m = ViewportManager::new(ViewportConfig::default());
    m.register_provider(info("shm", true));
    m.register_provider(info("overlay", true));
    m.register_provider(info("shm", true));
    let plan = m.plan_switch("shm");
    m.finish_switch(plan, true, true).unwrap();
    assert_eq!(m.get_active_provider(), Some(0));
    assert_eq!(m.settings_rows(), vec![(0, true), (1, false), (2, true)]);
}

#[test]
fn provider_descriptors() {
    let shm = beditor::viewport_manager::shared_memory_provider_info(true);
    assert_eq!(shm.id, "shared_memory");
    assert_eq!(shm.name, "Shared Memory (High Performance)");
    assert_eq!(shm.estimated_fps, 120);
    assert!(!beditor::viewport_manager::shared_memory_provider_info(false).is_supported);
    let overlay = beditor::viewport_manager::window_overlay_provider_info();
    assert_eq!(overlay.id, "window_overlay");
    assert_eq!(overlay.estimated_fps, 144);
    assert!(overlay.is_supported);
    assert_eq!(overlay.cpu_overhead, CpuOverhead::Low);
}

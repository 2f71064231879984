use worktree_manager::assistant::{Assistant, STATUS_PORT};

fn helper() -> Assistant {
    Assistant { program: "helper".to_string(), name: "Helper".to_string() }
}

#[test]
fn settings_folder_is_the_program_behind_a_dot() {
    assert_eq!(helper().settings_folder(), ".helper");
}

#[test]
fn status_event_is_named_after_the_program() {
    assert_eq!(helper().status_event(), "helper-status-change");
}

#[test]
fn status_route_is_named_after_the_program() {
    assert_eq!(helper().status_route(), "/helper/status");
}

#[test]
fn status_address_is_on_this_machine() {
    assert_eq!(STATUS_PORT, 36911);
    assert_eq!(helper().status_address(STATUS_PORT), "http://localhost:36911/helper/status");
    assert_eq!(helper().status_address(0), "http://localhost:0/helper/status");
    assert_eq!(helper().status_address(65535), "http://localhost:65535/helper/status");
}

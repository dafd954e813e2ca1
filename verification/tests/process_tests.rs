use cloudflared_gui::commands::ProcessPoll;
use cloudflared_gui::process::ProcessSlot;

#[test]
fn stopping_twice_finds_no_tunnel_the_second_time() {
    let mut slot: ProcessSlot<u32> = ProcessSlot::new();
    slot.install(7);
    let (child, entry, reply) = slot.stop(false);
    assert_eq!(child, Some(7));
    assert_eq!(entry.unwrap().message, "[INFO] 服务端隧道已停止");
    assert_eq!(reply, "服务端隧道已停止");
    let (child, entry, reply) = slot.stop(false);
    assert_eq!(child, None);
    assert!(entry.is_none());
    assert_eq!(reply, "当前没有正在运行的服务端隧道");
    assert_eq!(slot.stop(true).2, "当前没有正在运行的客户端连接");
}

#[test]
fn a_gone_process_is_forgotten() {
    let mut slot: ProcessSlot<u32> = ProcessSlot::new();
    assert!(!slot.record_poll(ProcessPoll::Absent));
    slot.install(1);
    assert!(slot.record_poll(ProcessPoll::Running));
    assert!(slot.is_occupied());
    assert_eq!(slot.child_mut().map(|c| *c), Some(1));
    assert!(!slot.record_poll(ProcessPoll::Gone));
    assert!(!slot.is_occupied());
    assert!(slot.child_mut().is_none());
    assert!(!slot.record_poll(ProcessPoll::Absent));
}

#[test]
fn starting_replaces_the_old_process() {
    let mut slot: ProcessSlot<u32> = ProcessSlot::new();
    slot.install(1);
    assert_eq!(slot.take_child(), Some(1));
    assert!(!slot.is_occupied());
    slot.install(2);
    if let Some(c) = slot.child_mut() {
        *c = 3;
    }
    assert_eq!(slot.take_child(), Some(3));
}

use kernel_core::port::{PortManager, Port};

#[test]
fn each_port_is_handed_out_once() {
    let mut pm = PortManager::new();
    assert_eq!(Some(Port(0x60)), pm.request_port(0x60));
    assert_eq!(None, pm.request_port(0x60));
    assert_eq!(Some(Port(0x64)), pm.request_port(0x64));
}

#[test]
fn ranges_are_handed_out_whole() {
    let mut pm = PortManager::new();
    let s = pm.request_range::<8>(0x3F8).expect("free range");
    assert_eq!(8, s.len());
    assert_eq!(0x3F8, s.port_number(0));
    assert_eq!(0x3FF, s.port_number(7));
    assert_eq!(None, pm.request_port(0x3FA));
    assert_eq!(Some(Port(0x400)), pm.request_port(0x400));
}

#[test]
fn overlapping_range_is_refused() {
    let mut pm = PortManager::new();
    assert!(pm.request_port(0x72).is_some());
    assert!(pm.request_range::<4>(0x70).is_none());
    // the ports below the taken one stay handed out
    assert_eq!(None, pm.request_port(0x70));
    assert_eq!(None, pm.request_port(0x71));
    assert_eq!(Some(Port(0x73)), pm.request_port(0x73));
}

#[test]
fn requested_ports_are_counted() {
    let mut pm = PortManager::new();
    assert_eq!(0, pm.requested_count());
    pm.request_port(0x20);
    pm.request_port(0x21);
    pm.request_port(0x20);
    assert_eq!(2, pm.requested_count());
    assert!(pm.is_requested(0x21));
    assert!(!pm.is_requested(0x22));
}

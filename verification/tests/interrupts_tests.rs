use kernel::interrupts::{
    disable, enable, exception_name, exception_report, has_error_code, init, is_enabled,
    is_exception, ExceptionReport, GateType, Handler, InterruptState, InterruptTable, IDTR,
};

#[test]
fn gate_types_have_their_codes() {
    assert_eq!(GateType::Task.code(), 0x5);
    assert_eq!(GateType::WInterrupt.code(), 0x6);
    assert_eq!(GateType::WTrap.code(), 0x7);
    assert_eq!(GateType::DInterrupt.code(), 0xE);
    assert_eq!(GateType::DTrap.code(), 0xF);
}

#[test]
fn a_descriptor_packs_its_fields() {
    let h = Handler::new_raw(0x1234_5678, GateType::DInterrupt, 0, 0x08);
    assert_eq!(h.bits(), 0x1234_8E00_0008_5678);
    assert!(h.present());
    assert_eq!(h.address(), 0x1234_5678);
    assert_eq!(h.selector(), 0x08);
    assert_eq!(h.dpl(), 0);
    let s = Handler::new_raw(0xC010_0020, GateType::DTrap, 3, 0x10);
    assert_eq!(s.bits(), 0xC010_EF00_0010_0020);
    assert_eq!(s.dpl(), 3);
    assert_eq!(Handler::new(7, GateType::Task, 1, 2), Handler::new_raw(7, GateType::Task, 1, 2));
    assert_eq!(Handler::new_err(7, GateType::WTrap, 2, 2), Handler::new_raw(7, GateType::WTrap, 2, 2));
    assert_eq!(Handler::new_err(7, GateType::WTrap, 2, 2).bits(), 0x0000_C700_0002_0007);
}

#[test]
fn the_null_descriptor_is_all_zero() {
    let n = Handler::null();
    assert_eq!(n.bits(), 0);
    assert!(!n.present());
    assert_eq!(n.address(), 0);
}

#[test]
fn installing_a_handler_makes_the_cpu_enter_it() {
    let mut table = InterruptTable::new(0x08);
    for v in 0..=255u8 {
        assert_eq!(table.handler_for(v), None);
    }
    table.install(0x42, 0xCAFE_F00D, 0, GateType::DInterrupt);
    for v in 0..=255u8 {
        if v == 0x42 {
            assert_eq!(table.handler_for(v), Some(0xCAFE_F00D));
        } else {
            assert_eq!(table.handler_for(v), None);
        }
    }
    assert_eq!(table.get(0x42), Handler::new_raw(0xCAFE_F00D, GateType::DInterrupt, 0, 0x08));
    // A later installation replaces the handler.
    table.install(0x42, 0x1000, 3, GateType::DTrap);
    assert_eq!(table.handler_for(0x42), Some(0x1000));
    assert_eq!(table.get(0x42).dpl(), 3);
    assert_eq!(table.get(0x42).selector(), 0x08);
}

#[test]
fn the_exception_stubs_are_installed() {
    let mut stubs = [0u32; 32];
    for (v, s) in stubs.iter_mut().enumerate() {
        *s = 0x10_0000 + 16 * v as u32;
    }
    let dispatch = init(0x08, 0x7000, &stubs);
    let with_stub: Vec<u8> = vec![
        0x0, 0x1, 0x2, 0x3, 0x4, 0x5, 0x6, 0x7, 0x8, 0xA, 0xB, 0xC, 0xD, 0xE, 0x10, 0x11, 0x12,
        0x13, 0x14, 0x15, 0x1C, 0x1D, 0x1E,
    ];
    for v in 0..=255u8 {
        let expected = if with_stub.contains(&v) { Some(0x10_0000 + 16 * v as u32) } else { None };
        assert_eq!(dispatch.table.handler_for(v), expected, "vector {}", v);
        assert_eq!(is_exception(v), with_stub.contains(&v));
        if with_stub.contains(&v) {
            assert_eq!(dispatch.table.get(v).dpl(), 0);
            assert_eq!(dispatch.table.get(v).selector(), 0x08);
            assert_eq!(dispatch.table.get(v).bits() >> 40 & 0xFF, 0x8E);
        }
    }
    assert_eq!(dispatch.idtr, IDTR { base: 0x7000, limit: 2047 });
    assert!(dispatch.state.enabled);
}

#[test]
fn setup_leaves_other_handlers_alone() {
    let mut table = InterruptTable::new(0x08);
    table.install(0x09, 0x900, 0, GateType::DTrap);
    table.install(0x80, 0x8000, 3, GateType::DInterrupt);
    table.install(0x0E, 0xE00, 0, GateType::DTrap);
    table.setup_idt(&[0x5555; 32]);
    assert_eq!(table.handler_for(0x09), Some(0x900));
    assert_eq!(table.handler_for(0x80), Some(0x8000));
    assert_eq!(table.handler_for(0x0E), Some(0x5555));
    assert_eq!(table.handler_for(0x0F), None);
}

#[test]
fn exceptions_with_error_codes() {
    let with_code: Vec<u8> = vec![0x8, 0xA, 0xB, 0xC, 0xD, 0xE, 0x11, 0x15, 0x1D, 0x1E];
    for v in 0..=255u8 {
        assert_eq!(has_error_code(v), with_code.contains(&v));
    }
}

#[test]
fn a_page_fault_is_reported_with_the_address_that_faulted() {
    assert_eq!(
        exception_report(0xE, 0x2, 0x150_0000),
        Some(ExceptionReport {
            name: "page_fault",
            error_code: Some(0x2),
            fault_address: Some(0x150_0000)
        })
    );
    assert_eq!(
        exception_report(0x0, 77, 0x150_0000),
        Some(ExceptionReport { name: "divide_by_zero", error_code: None, fault_address: None })
    );
    assert_eq!(
        exception_report(0xD, 0x10, 0x150_0000),
        Some(ExceptionReport {
            name: "general_protection_fault",
            error_code: Some(0x10),
            fault_address: None
        })
    );
    assert_eq!(exception_report(0x9, 1, 2), None);
    assert_eq!(exception_report(0x20, 1, 2), None);
    assert_eq!(exception_name(0x8), Some("double_fault"));
    assert_eq!(exception_name(0xD), Some("general_protection_fault"));
    assert_eq!(exception_name(0x1E), Some("security_exception"));
    assert_eq!(exception_name(0x1F), None);
    assert_eq!(exception_name(0xF), None);
}

#[test]
fn the_mirror_follows_enable_and_disable() {
    let mut state = InterruptState { enabled: false };
    assert!(!is_enabled(&state));
    enable(&mut state);
    assert!(is_enabled(&state));
    enable(&mut state);
    assert!(is_enabled(&state));
    disable(&mut state);
    assert!(!is_enabled(&state));
    assert_eq!(IDTR::new(0x1234).limit, 256 * 8 - 1);
}

use kernel_core::cpuid::{features_from_edx, vendor_id, CpuidFeatureEdx};
use kernel_core::exit::QemuExitCode;
use kernel_core::interrupt::{
    ExceptionHandler, ExceptionType, InterruptHandler, IrqId, PicHandler,
};
use kernel_core::log::{LogLevel, Logger, BUF_LEN};
use kernel_core::pic::Pic;
use kernel_core::port::Port;
use kernel_core::ps2::{KeyCode, KeyState, KeyboardInput, Ps2Keyboard};
use kernel_core::test_result::TestResult;
use kernel_core::time::{bcd_hour_to_binary, bcd_to_binary, Cmos, Rtc};

#[test]
fn log_levels_filter_by_severity() {
    assert!(LogLevel::Debug.should_log(&LogLevel::Debug));
    assert!(!LogLevel::Debug.should_log(&LogLevel::Info));
    assert!(LogLevel::Warning.should_log(&LogLevel::Info));
    assert!(!LogLevel::Warning.should_log(&LogLevel::Error));
    assert!(LogLevel::Error.should_log(&LogLevel::Error));
}

#[test]
fn pic_masks() {
    let mut pic = Pic::new();
    assert_eq!(0xFB, pic.master_mask());
    assert_eq!(0xFF, pic.slave_mask());
    pic.unmask(IrqId::Pic1(1));
    assert_eq!(0xF9, pic.master_mask());
    pic.unmask(IrqId::Pic1(2));
    assert_eq!(0xF9, pic.master_mask());
    pic.unmask(IrqId::Pic2(0));
    assert_eq!(0xFE, pic.slave_mask());
    let cmds = pic.remap_commands();
    assert_eq!(10, cmds.len());
    assert_eq!((0x20, 0x11), cmds[0]);
    assert_eq!((0xA1, 0x28), cmds[3]);
    assert_eq!((0x21, 0xF9), cmds[8]);
    assert_eq!((0xA1, 0xFE), cmds[9]);
    assert_eq!(0x20, Pic::VEC_OFFSET);
}

#[test]
fn handler_vectors() {
    let pic = PicHandler::new(IrqId::Pic2(0), || {});
    assert_eq!(8, pic.vec_offset());
    assert_eq!(40, InterruptHandler::Pic(pic).vector());
    let key = InterruptHandler::Pic(PicHandler::new(IrqId::Pic1(1), || {}));
    assert_eq!(33, key.vector());
    let gp = ExceptionHandler::with_error_code(13, ExceptionType::Fault, || {});
    assert!(gp.error_code);
    let h = InterruptHandler::Exception(gp);
    assert_eq!(13, h.vector());
    h.run();
    let bp = ExceptionHandler::without_error_code(3, ExceptionType::Trap, || {});
    assert!(!bp.error_code);
    assert_eq!(ExceptionType::Trap, bp.ty);
}

#[test]
fn keyboard_decodes_presses_and_releases() {
    let mut kb = Ps2Keyboard::new();
    kb.handle_scan_code(0x1D);
    kb.handle_scan_code(0xF0);
    kb.handle_scan_code(0x1D);
    kb.handle_scan_code(0x99);
    let got = kb.read_input_with();
    assert_eq!(
        vec![
            KeyboardInput { key_code: KeyCode::KeyW, state: KeyState::Pressed },
            KeyboardInput { key_code: KeyCode::KeyW, state: KeyState::Released },
            KeyboardInput { key_code: KeyCode::Unknown, state: KeyState::Pressed },
        ],
        got
    );
    assert!(kb.read_input_with().is_empty());
}

#[test]
fn keyboard_queue_keeps_newest_seven() {
    let mut kb = Ps2Keyboard::new();
    for _ in 0..5 {
        kb.handle_scan_code(0x1C);
    }
    for _ in 0..5 {
        kb.handle_scan_code(0x23);
    }
    let got = kb.read_input_with();
    assert_eq!(7, got.len());
    assert_eq!(KeyCode::KeyA, got[0].key_code);
    assert_eq!(KeyCode::KeyA, got[1].key_code);
    assert_eq!(KeyCode::KeyD, got[2].key_code);
}

#[test]
fn bcd_decoding() {
    assert_eq!(59, bcd_to_binary(0x59));
    assert_eq!(0, bcd_to_binary(0x00));
    assert_eq!(12, bcd_hour_to_binary(0x12));
    assert_eq!(0x80 | 11, bcd_hour_to_binary(0x91));
    assert_eq!(0x59, Cmos::decode_register(0x00, 0x59, 0x04));
    assert_eq!(59, Cmos::decode_register(0x00, 0x59, 0x02));
    assert_eq!(23, Cmos::decode_register(0x04, 0x23, 0x02));
    assert!(Cmos::update_in_progress(0x80));
    assert!(!Cmos::update_in_progress(0x7F));
    assert_eq!((3, 10), Cmos::sleep_step(4, 9, 10));
    assert_eq!((4, 9), Cmos::sleep_step(4, 9, 9));
    let raw = Rtc { second: 0x30, minute: 0x45, hour: 0x08, day: 0x31, month: 0x12, year: 0x24 };
    let r = Rtc::decode(&raw, 0);
    assert_eq!(Rtc { second: 30, minute: 45, hour: 8, day: 31, month: 12, year: 24 }, r);
    assert_eq!(raw, Rtc::decode(&raw, 0x04));
    let cmos = Cmos::new(Port::new(0x70), Port::new(0x71));
    assert_eq!(0x71, cmos.data.number());
}

#[test]
fn cpu_features_and_vendor() {
    let f = features_from_edx(0b1001 | (1 << 10) | (1 << 25) | (1 << 31));
    assert_eq!(vec![CpuidFeatureEdx::FPU, CpuidFeatureEdx::PSE, CpuidFeatureEdx::SSE, CpuidFeatureEdx::PBE], f);
    assert!(features_from_edx(1 << 20).is_empty());
    let v = vendor_id(0x756e_6547, 0x4965_6e69, 0x6c65_746e);
    assert_eq!(b"GenuineIntel".to_vec(), v);
}

#[test]
fn exit_codes_and_results() {
    assert_eq!(0x10, QemuExitCode::Success.value());
    assert_eq!(0x11, QemuExitCode::Failed.value());
    assert_ne!(TestResult::Success, TestResult::Failure(3));
}

#[test]
fn logger_filters_and_keeps_newest_bytes() {
    let mut l = Logger::new(LogLevel::Info);
    l.log(LogLevel::Debug, b"hidden");
    l.log(LogLevel::Warning, b"shown ");
    l.log(LogLevel::Info, b"too");
    assert_eq!(b"shown too".to_vec(), l.flush());
    assert!(l.flush().is_empty());
    let long = vec![b'x'; BUF_LEN - 1];
    l.log(LogLevel::Error, b"ab");
    l.log(LogLevel::Error, &long);
    let out = l.flush();
    assert_eq!(BUF_LEN - 1, out.len());
    assert!(out.iter().all(|b| *b == b'x'));
}

use akjo_os::acpi::{fallback_sleep_type, shutdown_command, PlatformType};
use akjo_os::cmos::{
    decode_hours, decode_rtc, decode_year, disable_nmi, enable_nmi, enable_periodic_interrupt,
    from_bcd, is_binary, is_full_day, updating, CmosRegister, DateTime as Rtc, CENTURY,
};
use akjo_os::event::{ErrorEvent, Event, EventErrorLevel, EventQueue};
use akjo_os::kernel::{error_response, tick_plan, ErrorResponse, TickPlan};
use akjo_os::madt::{IoApic, LocalApic, MadtEntryType, MadtRecord, MadtTable};
use akjo_os::pic::{
    timer_divisor_bytes, PicInterrupts, PicMask, PIC1_OFFSET, PIC2_OFFSET, TIMER_DIVISOR, TIMER_HZ,
};
use akjo_os::serial::SerialLoggingLevel;

#[test]
fn pic_lines_and_vectors() {
    assert_eq!((PIC1_OFFSET, PIC2_OFFSET), (0x20, 0x28));
    assert_eq!(PicInterrupts::Timer.into_values(), (0, 0x20));
    assert_eq!(PicInterrupts::Keyboard.into_values(), (1, 0x21));
    assert_eq!(PicInterrupts::PassThrough.into_values(), (2, 0x22));
    assert_eq!(PicInterrupts::COM2.into_values(), (3, 0x23));
    assert_eq!(PicInterrupts::COM1.into_values(), (4, 0x24));
    assert_eq!(PicInterrupts::LPT2.into_values(), (5, 0x25));
    assert_eq!(PicInterrupts::Floppy.into_values(), (6, 0x26));
    assert_eq!(PicInterrupts::LPT1.into_values(), (7, 0x27));
    assert_eq!(PicInterrupts::RTC.into_values(), (0, 0x28));
    assert_eq!(PicInterrupts::ACPI.into_values(), (1, 0x29));
    assert_eq!(PicInterrupts::PCI1.into_values(), (2, 0x2a));
    assert_eq!(PicInterrupts::PCI2.into_values(), (3, 0x2b));
    assert_eq!(PicInterrupts::Mouse.into_values(), (4, 0x2c));
    assert_eq!(PicInterrupts::FPU.into_values(), (5, 0x2d));
    assert_eq!(PicInterrupts::PrimaryATA.into_values(), (6, 0x2e));
    assert_eq!(PicInterrupts::SecondaryATA.into_values(), (7, 0x2f));
}

#[test]
fn pic_mask_enable_clears_one_bit() {
    let mut mask = PicMask::new();
    assert_eq!((mask.pic1(), mask.pic2()), (0xff, 0xff));
    mask.enable(PicInterrupts::Timer);
    assert_eq!((mask.pic1(), mask.pic2()), (0xfe, 0xff));
    mask.enable(PicInterrupts::PassThrough);
    assert_eq!((mask.pic1(), mask.pic2()), (0xfa, 0xff));
    mask.enable(PicInterrupts::RTC);
    assert_eq!((mask.pic1(), mask.pic2()), (0xfa, 0xfe));
    mask.enable(PicInterrupts::RTC);
    assert_eq!((mask.pic1(), mask.pic2()), (0xfa, 0xfe));
    mask.enable(PicInterrupts::SecondaryATA);
    assert_eq!((mask.pic1(), mask.pic2()), (0xfa, 0x7e));
    mask.enable(PicInterrupts::LPT1);
    assert_eq!((mask.pic1(), mask.pic2()), (0x7a, 0x7e));
}

#[test]
fn timer_divisor_in_two_bytes() {
    assert_eq!(TIMER_HZ, 1000);
    assert_eq!(TIMER_DIVISOR, 1193);
    assert_eq!(timer_divisor_bytes(), (0xa9, 0x04));
}

#[test]
fn cmos_registers() {
    assert_eq!(CmosRegister::Seconds.address(), 0x00);
    assert_eq!(CmosRegister::Minutes.address(), 0x02);
    assert_eq!(CmosRegister::Hours.address(), 0x04);
    assert_eq!(CmosRegister::Day.address(), 0x07);
    assert_eq!(CmosRegister::Month.address(), 0x08);
    assert_eq!(CmosRegister::Year.address(), 0x09);
    assert_eq!(CmosRegister::StatusA.address(), 0x0a);
    assert_eq!(CmosRegister::StatusB.address(), 0x0b);
    assert_eq!(CmosRegister::StatusC.address(), 0x0c);
    assert_eq!(CENTURY, 2000);
}

#[test]
fn binary_coded_decimals() {
    assert_eq!(from_bcd(0x00), 0);
    assert_eq!(from_bcd(0x09), 9);
    assert_eq!(from_bcd(0x10), 10);
    assert_eq!(from_bcd(0x59), 59);
    assert_eq!(from_bcd(0x99), 99);
    assert_eq!(from_bcd(0xff), 165);
}

#[test]
fn rtc_decoding_of_decimals_on_a_full_day_clock() {
    let raw = Rtc { seconds: 0x45, minutes: 0x30, hours: 0x11, day: 0x25, month: 0x12, year: 0x23 };
    assert_eq!(
        decode_rtc(raw, 0x02, 0x32),
        Rtc { seconds: 45, minutes: 30, hours: 11, day: 25, month: 12, year: 2023 }
    );
    assert_eq!(decode_rtc(raw, 0x02, 0).year, 1923);
    assert_eq!(decode_rtc(raw, 0x02, 0x48).year, 2023);
}

#[test]
fn rtc_decoding_of_binary_registers() {
    let raw = Rtc { seconds: 45, minutes: 30, hours: 23, day: 25, month: 12, year: 23 };
    assert_eq!(
        decode_rtc(raw, 0x06, 0x32),
        Rtc { seconds: 45, minutes: 30, hours: 23, day: 25, month: 12, year: 2023 }
    );
    let raw = Rtc { seconds: 45, minutes: 30, hours: 5, day: 25, month: 12, year: 255 };
    assert_eq!(decode_rtc(raw, 0x04, 0x32).hours, 17);
    assert_eq!(decode_rtc(raw, 0x04, 0x32).year, 2255);
}

#[test]
fn rtc_decoding_of_a_twelve_hour_clock() {
    let raw = Rtc { seconds: 0, minutes: 0, hours: 0x05, day: 1, month: 1, year: 0 };
    assert_eq!(decode_rtc(raw, 0x00, 0).hours, 17);
    let raw = Rtc { hours: 0x85, ..raw };
    assert_eq!(decode_rtc(raw, 0x00, 0).hours, 133);
    let raw = Rtc { hours: 0x12, ..raw };
    assert_eq!(decode_rtc(raw, 0x00, 0).hours, 0);
    assert_eq!(decode_rtc(raw, 0x02, 0).hours, 12);
    let raw = Rtc { hours: 0x92, ..raw };
    assert_eq!(decode_rtc(raw, 0x02, 0).hours, 0x80 | 12);
}

#[test]
fn status_register_bits() {
    assert!(updating(0x80));
    assert!(updating(0xff));
    assert!(!updating(0x7f));
    assert!(!updating(0));
    assert_eq!(enable_nmi(0xff), 0x7f);
    assert_eq!(enable_nmi(0x02), 0x02);
    assert_eq!(disable_nmi(0x02), 0x82);
    assert_eq!(disable_nmi(0x82), 0x82);
    assert_eq!(enable_periodic_interrupt(0x02), 0x42);
    assert_eq!(enable_periodic_interrupt(0xc2), 0xc2);
}

#[test]
fn serial_level_names() {
    assert_eq!(SerialLoggingLevel::Debug.as_str(), "DEBUG");
    assert_eq!(SerialLoggingLevel::Info.as_str(), "INFO");
    assert_eq!(SerialLoggingLevel::Warning.as_str(), "WARNING");
    assert_eq!(SerialLoggingLevel::Error.as_str(), "ERROR");
    assert_eq!(SerialLoggingLevel::Panic.as_str(), "PANIC");
}

#[test]
fn serial_level_of_severity() {
    assert_eq!(SerialLoggingLevel::from_severity(0), None);
    assert_eq!(SerialLoggingLevel::from_severity(1), Some(SerialLoggingLevel::Error));
    assert_eq!(SerialLoggingLevel::from_severity(2), Some(SerialLoggingLevel::Warning));
    assert_eq!(SerialLoggingLevel::from_severity(3), Some(SerialLoggingLevel::Info));
    assert_eq!(SerialLoggingLevel::from_severity(4), Some(SerialLoggingLevel::Debug));
    assert_eq!(SerialLoggingLevel::from_severity(5), Some(SerialLoggingLevel::Debug));
    assert_eq!(SerialLoggingLevel::from_severity(6), None);
}

#[test]
fn platform_type_of_profile() {
    let expected = [
        PlatformType::Unspecified,
        PlatformType::Desktop,
        PlatformType::Mobile,
        PlatformType::Workstation,
        PlatformType::EnterpriseServer,
        PlatformType::SohoServer,
        PlatformType::AppliancePc,
        PlatformType::PerformanceServer,
        PlatformType::Tablet,
        PlatformType::Unspecified,
    ];
    for (profile, platform) in expected.iter().enumerate() {
        assert_eq!(PlatformType::from_profile(profile as u8), *platform);
    }
    assert_eq!(PlatformType::from_profile(255), PlatformType::Unspecified);
}

#[test]
fn shutdown_values() {
    assert_eq!(fallback_sleep_type(), 0x1400);
    assert_eq!(shutdown_command(0x1400), 0x3400);
    assert_eq!(shutdown_command(0), 0x2000);
    assert_eq!(shutdown_command(0x2007), 0x2007);
}

#[test]
fn kernel_tick_plan() {
    assert_eq!(tick_plan(0), TickPlan { blink: true, keep_running: true });
    assert_eq!(tick_plan(1), TickPlan { blink: false, keep_running: true });
    assert_eq!(tick_plan(499), TickPlan { blink: false, keep_running: true });
    assert_eq!(tick_plan(500), TickPlan { blink: true, keep_running: true });
    assert_eq!(tick_plan(9999), TickPlan { blink: false, keep_running: true });
    assert_eq!(tick_plan(10000), TickPlan { blink: true, keep_running: false });
    assert_eq!(tick_plan(10001), TickPlan { blink: false, keep_running: false });
}

fn all_errors() -> Vec<(ErrorEvent, EventErrorLevel)> {
    vec![
        (ErrorEvent::Breakpoint(String::from("a")), EventErrorLevel::Trap),
        (ErrorEvent::InvalidOpcode(String::from("b")), EventErrorLevel::Fault),
        (ErrorEvent::InvalidTss(String::from("c"), 1), EventErrorLevel::Fault),
        (ErrorEvent::PageFault(String::from("d"), 2), EventErrorLevel::Fault),
        (ErrorEvent::GeneralProtectionFault(String::from("e"), 3), EventErrorLevel::Fault),
        (ErrorEvent::DoubleFault(String::from("f"), 4), EventErrorLevel::Abort),
    ]
}

#[test]
fn error_events_have_message_and_level() {
    let messages = ["a", "b", "c", "d", "e", "f"];
    for (i, (event, level)) in all_errors().iter().enumerate() {
        assert_eq!(event.message().as_str(), messages[i]);
        assert_eq!(event.level(), *level);
    }
}

#[test]
fn event_error_wraps_the_error() {
    let event = Event::error(ErrorEvent::PageFault(String::from("fault"), 7));
    match event {
        Event::Error(ErrorEvent::PageFault(message, code)) => {
            assert_eq!(message, "fault");
            assert_eq!(code, 7);
        }
        _ => panic!("not the page fault that was wrapped"),
    }
}

#[test]
fn kernel_error_response() {
    let expected = [
        ErrorResponse::Ignore,
        ErrorResponse::Log,
        ErrorResponse::Log,
        ErrorResponse::Log,
        ErrorResponse::Log,
        ErrorResponse::Abort,
    ];
    for (i, (event, _)) in all_errors().iter().enumerate() {
        assert_eq!(error_response(event), expected[i]);
    }
}

#[test]
fn event_queue_hands_out_events_in_order() {
    let mut queue = EventQueue::new();
    assert!(!queue.has_new_event());
    assert_eq!(queue.len(), 0);
    queue.push(Event::Timer);
    queue.push(Event::error(ErrorEvent::Breakpoint(String::from("stop"))));
    assert!(queue.has_new_event());
    assert_eq!(queue.len(), 2);
    let events = queue.begin_dispatch();
    assert_eq!(events.len(), 2);
    assert!(matches!(events[0], Event::Timer));
    assert!(matches!(events[1], Event::Error(ErrorEvent::Breakpoint(_))));
    assert_eq!(queue.len(), 0);
    assert!(queue.has_new_event());
    queue.push(Event::Timer);
    queue.finish_dispatch();
    assert!(!queue.has_new_event());
    assert_eq!(queue.len(), 1);
    assert!(queue.begin_dispatch().len() == 1);
    assert!(queue.begin_dispatch().is_empty());
}

fn sample_records() -> Vec<MadtRecord> {
    vec![
        MadtRecord::Other,
        MadtRecord::IoApic {
            entry_type: 1,
            length: 12,
            io_apic_id: 3,
            io_apic_address: 0xfec0_0000,
            global_system_interrupt_base: 0,
        },
        MadtRecord::LocalApic { entry_type: 0, length: 8, processor_id: 0, apic_id: 0, flags: 1 },
        MadtRecord::Other,
        MadtRecord::LocalApic { entry_type: 0, length: 8, processor_id: 1, apic_id: 2, flags: 1 },
        MadtRecord::IoApic {
            entry_type: 1,
            length: 12,
            io_apic_id: 4,
            io_apic_address: 0xfec0_1000,
            global_system_interrupt_base: 24,
        },
    ]
}

#[test]
fn madt_table_keeps_the_controllers() {
    let offset = 0xffff_8000_0000_0000u64;
    let table = MadtTable::new(0xfee0_0000, &sample_records(), offset);
    assert_eq!(table.local_apic(), Some(&LocalApic::new(0, 8, 0, 0, 1, 0xfee0_0000)));
    assert_eq!(table.phys_lapic_addr(), 0xfee0_0000);
    assert_eq!(table.virt_lapic_addr(), 0xffff_8000_fee0_0000);
    assert_eq!(
        table.io_apics(),
        vec![
            IoApic::new(1, 12, 3, 0xfec0_0000, 0, offset),
            IoApic::new(1, 12, 4, 0xfec0_1000, 24, offset),
        ]
    );
    let none = MadtTable::new(0xfee0_0000, &[MadtRecord::Other], offset);
    assert_eq!(none.local_apic(), None);
    assert!(none.io_apics().is_empty());
    let entry = MadtEntryType::LocalApic(LocalApic::new(0, 8, 0, 0, 1, 5));
    assert!(matches!(entry, MadtEntryType::LocalApic(apic) if apic.address == 5));
}

#[test]
fn io_apic_address_is_offset_plus_address() {
    let apic = IoApic::new(1, 12, 3, 0xfec0_0000, 0, 0x1000_0000_0000);
    assert_eq!(apic.address(), 0x1000_fec0_0000);
    let high = IoApic::new(1, 12, 3, 0x1000, 0, 0x7fff_ffff_f000);
    assert_eq!(high.address(), 0xffff_8000_0000_0000);
    let table = MadtTable::new(
        0x1000,
        &[MadtRecord::LocalApic { entry_type: 0, length: 8, processor_id: 0, apic_id: 0, flags: 1 }],
        0x7fff_ffff_f000,
    );
    assert_eq!(table.virt_lapic_addr(), 0xffff_8000_0000_0000);
    assert_eq!(table.phys_lapic_addr(), 0x1000);
}

#[test]
fn status_register_b_says_how_the_chip_counts() {
    assert!(!is_binary(0x00));
    assert!(!is_binary(0x02));
    assert!(is_binary(0x04));
    assert!(is_binary(0xff));
    assert!(!is_binary(0xfb));
    assert!(!is_full_day(0x00));
    assert!(is_full_day(0x02));
    assert!(!is_full_day(0x04));
    assert!(!is_full_day(0xfd));
    assert_eq!(decode_hours(0x23, 0x02), 23);
    assert_eq!(decode_hours(0x11, 0x00), 23);
    assert_eq!(decode_hours(0x91, 0x00), 0x80 | 11);
    assert_eq!(decode_hours(23, 0x06), 23);
    assert_eq!(decode_hours(13, 0x04), 1);
    assert_eq!(decode_hours(0xff, 0x04), 0xff);
    assert_eq!(decode_year(0x99, 0x02, 0), 1999);
    assert_eq!(decode_year(99, 0x06, 0x32), 2099);
    assert_eq!(decode_year(0, 0x06, 7), 2000);
}

use uefi::base::{Event, Handle, Handles, MemoryType, Status, Time, ERR_FLAG};
use uefi::bootservices::LocateSearchType;

#[test]
fn status_str() {
    assert_eq!(Status::Success.str(), "success");
}

#[test]
fn status_str_names_every_status() {
    let all = [
        (Status::Success, "success"),
        (Status::LoadError, "load error"),
        (Status::InvalidParameter, "invalid parameter"),
        (Status::Unsupported, "unsupported"),
        (Status::BadBufferSize, "bad buffer size"),
        (Status::BufferTooSmall, "buffer too small"),
        (Status::NotReady, "not ready"),
        (Status::DeviceError, "device error"),
        (Status::WriteProtected, "write protected"),
        (Status::OutOfResources, "out of resources"),
        (Status::VolumeCorrupted, "volume corrupted"),
        (Status::VolumeFull, "volume full"),
        (Status::NoMedia, "no media"),
        (Status::MediaChanged, "media changed"),
        (Status::NotFound, "not found"),
        (Status::AccessDenied, "access denied"),
        (Status::NoResponse, "no response"),
        (Status::NoMapping, "no mapping"),
        (Status::Timeout, "timeout"),
        (Status::NotStarted, "not started"),
        (Status::AlreadyStarted, "already started"),
        (Status::Aborted, "aborted"),
        (Status::IcmpError, "ICMP error"),
        (Status::TftpError, "TFTP error"),
        (Status::ProtocolError, "protocol error"),
        (Status::IncompatibleVersion, "incompatible version"),
        (Status::SecurityViolation, "security violation"),
        (Status::CrcError, "CRC error"),
        (Status::EndOfMedia, "end of media"),
        (Status::EndOfFile, "end of file"),
    ];
    for (status, name) in all {
        assert_eq!(status.str(), name);
    }
}

#[test]
fn status_code_sets_the_error_bit() {
    assert_eq!(Status::Success.code(), 0);
    assert_eq!(Status::LoadError.code(), 0x8000_0000_0000_0001);
    assert_eq!(Status::InvalidParameter.code(), ERR_FLAG | 2);
    assert_eq!(Status::OutOfResources.code(), ERR_FLAG | 9);
    assert_eq!(Status::EndOfMedia.code(), ERR_FLAG | 28);
    assert_eq!(Status::EndOfFile.code(), ERR_FLAG | 31);
}

#[test]
fn status_from_code_reads_codes_back() {
    assert_eq!(Status::from_code(0), Some(Status::Success));
    assert_eq!(Status::from_code(ERR_FLAG | 14), Some(Status::NotFound));
    assert_eq!(Status::from_code(ERR_FLAG | 31), Some(Status::EndOfFile));
    assert_eq!(Status::from_code(Status::Timeout.code()), Some(Status::Timeout));
}

#[test]
fn status_from_code_refuses_unknown_codes() {
    assert_eq!(Status::from_code(1), None);
    assert_eq!(Status::from_code(ERR_FLAG), None);
    assert_eq!(Status::from_code(ERR_FLAG | 29), None);
    assert_eq!(Status::from_code(ERR_FLAG | 30), None);
    assert_eq!(Status::from_code(ERR_FLAG | 32), None);
    assert_eq!(Status::from_code(u64::MAX), None);
}

#[test]
fn status_into_result() {
    assert_eq!(Status::Success.into_result(), Ok(()));
    assert_eq!(Status::DeviceError.into_result(), Err(Status::DeviceError));
}

#[test]
fn handle_default_is_null() {
    assert_eq!(Handle::default(), Handle(0));
}

#[test]
fn handles_are_handed_out_in_order_then_none() {
    let handles = Handles::new(vec![Handle(0x10), Handle(0x20), Handle(0x30)]);
    let mut it = handles.into_iter();
    assert_eq!(it.len(), 3);
    assert_eq!(it.next(), Some(&Handle(0x10)));
    assert_eq!(it.next(), Some(&Handle(0x20)));
    assert_eq!(it.len(), 3);
    assert_eq!(it.next(), Some(&Handle(0x30)));
    assert_eq!(it.next(), None);
    assert_eq!(it.next(), None);
}

#[test]
fn handles_walk_restarts() {
    let handles = Handles::new(vec![Handle(7)]);
    let mut first = handles.into_iter();
    assert_eq!(first.next(), Some(&Handle(7)));
    assert_eq!(first.next(), None);
    let mut second = handles.into_iter();
    assert_eq!(second.next(), Some(&Handle(7)));
}

#[test]
fn empty_handles() {
    let handles = Handles::new(Vec::new());
    let mut it = handles.into_iter();
    assert_eq!(it.len(), 0);
    assert_eq!(it.next(), None);
}

#[test]
fn time_default_is_zero() {
    let t = Time::default();
    assert_eq!(t.year, 0);
    assert_eq!(t.month, 0);
    assert_eq!(t.nanosecond, 0);
    assert_eq!(t.timezone, 0);
}

#[test]
fn plain_values() {
    assert_eq!(Event(5), Event(5));
    assert_ne!(MemoryType::LoaderCode, MemoryType::LoaderData);
    assert!(MemoryType::Reserved < MemoryType::PalCode);
    assert!(Status::Success < Status::LoadError);
    assert_eq!(LocateSearchType::AllHandles.value(), 0);
    assert_eq!(LocateSearchType::ByRegisterNotify.value(), 1);
    assert_eq!(LocateSearchType::ByProtocol.value(), 2);
}

fn time(year: u16, month: u8, day: u8, hour: u8, minute: u8, second: u8) -> Time {
    Time { year, month, day, hour, minute, second, nanosecond: 0, timezone: 0, daylight: 0 }
}

#[test]
fn time_to_text_pads_with_zeros() {
    assert_eq!(time(2017, 3, 9, 7, 5, 1).to_text(), "2017-03-09 07:05:01");
    assert_eq!(time(1999, 12, 31, 23, 59, 59).to_text(), "1999-12-31 23:59:59");
    assert_eq!(Time::default().to_text(), "0000-00-00 00:00:00");
    assert_eq!(time(7, 1, 1, 0, 0, 0).to_text(), "0007-01-01 00:00:00");
    assert_eq!(time(987, 10, 20, 10, 20, 30).to_text(), "0987-10-20 10:20:30");
}

#[test]
fn time_to_text_keeps_numbers_wider_than_the_padding() {
    assert_eq!(time(65535, 255, 100, 200, 99, 100).to_text(), "65535-255-100 200:99:100");
    assert_eq!(time(10000, 12, 1, 1, 1, 1).to_text(), "10000-12-01 01:01:01");
}

#[test]
fn time_to_text_matches_the_standard_formatting() {
    for (y, m, d, h, min, s) in [(0u16, 0u8, 9u8, 10u8, 99u8, 100u8), (9, 9, 9, 9, 9, 9), (100, 10, 1, 0, 255, 7), (9999, 1, 31, 12, 30, 0)] {
        assert_eq!(
            time(y, m, d, h, min, s).to_text(),
            format!("{:04}-{:02}-{:02} {:02}:{:02}:{:02}", y, m, d, h, min, s)
        );
    }
}

#[test]
fn memory_type_numbers() {
    assert_eq!(MemoryType::Reserved.value(), 0);
    assert_eq!(MemoryType::LoaderData.value(), 2);
    assert_eq!(MemoryType::Conventional.value(), 7);
    assert_eq!(MemoryType::PalCode.value(), 13);
    for n in 0..14 {
        assert_eq!(MemoryType::from_value(n).unwrap().value(), n);
    }
    assert_eq!(MemoryType::from_value(14), None);
    assert_eq!(MemoryType::from_value(u32::MAX), None);
}

#[test]
fn locate_search_type_numbers() {
    assert_eq!(LocateSearchType::from_value(0), Some(LocateSearchType::AllHandles));
    assert_eq!(LocateSearchType::from_value(1), Some(LocateSearchType::ByRegisterNotify));
    assert_eq!(LocateSearchType::from_value(2), Some(LocateSearchType::ByProtocol));
    assert_eq!(LocateSearchType::from_value(3), None);
}

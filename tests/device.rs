use std::sync::Arc;

use v4l_device::control::name_from_bytes;
use v4l_device::{
    Control, ControlQuery, ControlType, ControlWrite, Description, Device, DeviceError, MenuItem,
    OpenFlags, RawCapability, RawControl, RawMenuItem, WaitError,
};

const EINVAL: i32 = 22;
const EIO: i32 = 5;

fn raw_control(id: u32, typ: u32, min: i32, max: i32, step: i32) -> RawControl {
    let mut name = b"control".to_vec();
    name.resize(32, 0);
    RawControl { id, typ, name, minimum: min, maximum: max, step, default: min, flags: 0 }
}

fn label(s: &str) -> RawMenuItem {
    let mut name = s.as_bytes().to_vec();
    name.resize(32, 0);
    RawMenuItem { name, value: 0 }
}

/// Runs the enumeration against a simulated driver: `controls` are reported
/// in order, then every request fails with `end_code`; menu lookups fail for
/// the indices in `missing`.
fn discover(
    controls: &[RawControl],
    end_code: i32,
    missing: &[u32],
) -> (Result<Vec<Description>, DeviceError>, Vec<u32>, usize) {
    let mut query = ControlQuery::new();
    let mut ids = Vec::new();
    let mut lookups = 0;
    let mut next = 0;
    loop {
        ids.push(query.request_id());
        if next == controls.len() {
            return (query.finish(end_code), ids, lookups);
        }
        let raw = &controls[next];
        next += 1;
        let mut scan = query.describe(raw);
        while let Some(index) = scan.next_index() {
            lookups += 1;
            if missing.contains(&index) {
                scan.record(None);
            } else if raw.typ == 9 {
                scan.record(Some(RawMenuItem { name: vec![0; 32], value: index as i64 * 100 }));
            } else {
                scan.record(Some(label(&format!("item{}", index))));
            }
        }
        query.accept(scan.finish());
    }
}

#[test]
fn path_of_first_device() {
    let req = Device::new(0);
    assert_eq!(req.path, b"/dev/video0".to_vec());
    assert_eq!(req.flags, 2);
}

#[test]
fn path_of_twelfth_device() {
    assert_eq!(Device::new(12).path, b"/dev/video12".to_vec());
}

#[test]
fn open_flags_by_mode() {
    assert_eq!(Device::with_path(b"/dev/video1").flags, libc::O_RDWR);
    assert_eq!(Device::with_path(b"/dev/video1").path, b"/dev/video1".to_vec());
    assert_eq!(Device::with_path_and_flags(b"/dev/v", OpenFlags::Blocking).flags, libc::O_RDWR);
    assert_eq!(
        Device::with_path_and_flags(b"/dev/v", OpenFlags::Nonblocking).flags,
        libc::O_RDWR | libc::O_NONBLOCK
    );
}

#[test]
fn open_success_keeps_descriptor() {
    let dev = Device::new(0).complete(3, 0).unwrap();
    assert_eq!(dev.fd(), 3);
    assert_eq!(dev.handle().fd(), 3);
}

#[test]
fn open_failure_reports_error_code() {
    let r = Device::with_path(b"/dev/does-not-exist").complete(-1, 2);
    assert!(matches!(r, Err(DeviceError::Os(2))));
    let r = Device::new(7).complete(-5, 13);
    assert!(matches!(r, Err(DeviceError::Os(13))));
}

#[test]
fn discovery_yields_controls_in_order() {
    let controls =
        vec![raw_control(10, 1, 0, 255, 1), raw_control(11, 2, 0, 1, 1), raw_control(20, 1, -5, 5, 1)];
    let (r, ids, lookups) = discover(&controls, EINVAL, &[]);
    let found = r.unwrap();
    assert_eq!(found.len(), 3);
    assert_eq!(found.iter().map(|d| d.id).collect::<Vec<_>>(), vec![10, 11, 20]);
    assert_eq!(found[1].typ, ControlType::Boolean);
    assert_eq!(found[0].name, b"control".to_vec());
    assert!(found.iter().all(|d| d.items.is_none()));
    assert_eq!(ids, vec![0xC000_0000, 0xC000_000A, 0xC000_000B, 0xC000_0014]);
    assert_eq!(lookups, 0);
}

#[test]
fn discovery_fails_on_immediate_invalid_input() {
    let (r, ids, _) = discover(&[], EINVAL, &[]);
    assert!(matches!(r, Err(DeviceError::Os(EINVAL))));
    assert_eq!(ids, vec![0xC000_0000]);
}

#[test]
fn discovery_fails_on_other_error() {
    let (r, _, _) = discover(&[raw_control(1, 1, 0, 1, 1)], EIO, &[]);
    assert!(matches!(r, Err(DeviceError::Os(EIO))));
}

#[test]
fn menu_lookups_skip_failed_indices() {
    let (r, _, lookups) = discover(&[raw_control(7, 3, 0, 4, 2)], EINVAL, &[2]);
    let found = r.unwrap();
    assert_eq!(lookups, 3);
    let items = found[0].items.clone().unwrap();
    assert_eq!(
        items,
        vec![(0, MenuItem::Name(b"item0".to_vec())), (4, MenuItem::Name(b"item4".to_vec()))]
    );
}

#[test]
fn menu_lookup_count_uneven_range() {
    let (r, _, lookups) = discover(&[raw_control(7, 3, 1, 6, 2)], EINVAL, &[]);
    assert_eq!(lookups, 3);
    let idx: Vec<u32> = r.unwrap()[0].items.clone().unwrap().iter().map(|p| p.0).collect();
    assert_eq!(idx, vec![1, 3, 5]);
}

#[test]
fn menu_zero_step_advances_by_one() {
    let (r, _, lookups) = discover(&[raw_control(7, 3, 0, 3, 0)], EINVAL, &[1, 3]);
    assert_eq!(lookups, 4);
    let idx: Vec<u32> = r.unwrap()[0].items.clone().unwrap().iter().map(|p| p.0).collect();
    assert_eq!(idx, vec![0, 2]);
}

#[test]
fn integer_menu_items_carry_values() {
    let (r, _, _) = discover(&[raw_control(8, 9, 0, 2, 1)], EINVAL, &[]);
    let found = r.unwrap();
    assert_eq!(found[0].typ, ControlType::IntegerMenu);
    assert_eq!(
        found[0].items.clone().unwrap(),
        vec![(0, MenuItem::Value(0)), (1, MenuItem::Value(100)), (2, MenuItem::Value(200))]
    );
}

#[test]
fn path_need_not_be_utf8() {
    let path = vec![b'/', b'd', 0xff, 0xfe];
    assert_eq!(Device::with_path(&path).path, path);
}

#[test]
fn menu_negative_step_looks_up_minimum_only() {
    let (r, _, lookups) = discover(&[raw_control(7, 3, 1, 10, -1)], EINVAL, &[]);
    assert_eq!(lookups, 1);
    let idx: Vec<u32> = r.unwrap()[0].items.clone().unwrap().iter().map(|p| p.0).collect();
    assert_eq!(idx, vec![1]);
}

#[test]
fn menu_negative_minimum_uses_twos_complement_index() {
    let (r, _, lookups) = discover(&[raw_control(7, 9, -2, 2, 2)], EINVAL, &[0]);
    assert_eq!(lookups, 3);
    let idx: Vec<u32> = r.unwrap()[0].items.clone().unwrap().iter().map(|p| p.0).collect();
    assert_eq!(idx, vec![(-2i32) as u32, 2]);
}

#[test]
fn shared_owners_let_go_once() {
    let dev = Device::new(0).complete(5, 0).unwrap();
    let a = dev.handle();
    let b = dev.handle();
    assert_eq!(v4l_device::handle::let_go(a), None);
    assert_eq!(dev.close(), None);
    assert_eq!(v4l_device::handle::let_go(b), Some(5));
}

#[test]
fn menu_with_every_lookup_failing_has_no_items() {
    let (r, _, lookups) = discover(&[raw_control(7, 3, 0, 1, 1)], EINVAL, &[0, 1]);
    assert_eq!(lookups, 2);
    assert_eq!(r.unwrap()[0].items, Some(vec![]));
}

#[test]
fn set_control_refuses_compound_value() {
    let dev = Device::new(0).complete(4, 0).unwrap();
    let r = dev.set_control(9, Control::Compound(vec![1, 2]));
    assert_eq!(r, Err(DeviceError::Unsupported));
    assert!(r.unwrap_err().is_invalid_input());
}

#[test]
fn set_control_builds_request() {
    let dev = Device::new(0).complete(4, 0).unwrap();
    let w = dev.set_control(9, Control::Value(-3)).unwrap();
    assert_eq!(w, ControlWrite { id: 9, value: -3 });
    assert_eq!(w.complete(Ok(())), Ok(()));
    assert_eq!(w.complete(Err(EINVAL)), Err(DeviceError::Os(EINVAL)));
}

#[test]
fn control_reads_scalar_value() {
    let dev = Device::new(0).complete(4, 0).unwrap();
    assert_eq!(dev.control(Ok(42)), Ok(Control::Value(42)));
    assert_eq!(dev.control(Err(EINVAL)), Err(DeviceError::Os(EINVAL)));
}

#[test]
fn capabilities_trim_names() {
    let dev = Device::new(0).complete(4, 0).unwrap();
    let mut driver = b"uvcvideo".to_vec();
    driver.resize(16, 0);
    let mut card = b"Webcam C920".to_vec();
    card.resize(32, 0);
    let raw = RawCapability {
        driver,
        card,
        bus_info: b"usb-0000:00:14.0-1".to_vec(),
        version: 0x0005_0f00,
        capabilities: 0x8420_0001,
    };
    let caps = dev.query_caps(Ok(raw)).unwrap();
    assert_eq!(caps.driver, b"uvcvideo".to_vec());
    assert_eq!(caps.card, b"Webcam C920".to_vec());
    assert_eq!(caps.bus, b"usb-0000:00:14.0-1".to_vec());
    assert_eq!(caps.version, 0x0005_0f00);
    assert_eq!(caps.capabilities, 0x8420_0001);
    assert_eq!(dev.query_caps(Err(EIO)), Err(DeviceError::Os(EIO)));
}

#[test]
fn name_stops_at_first_zero() {
    assert_eq!(name_from_bytes(b"ab\0cd"), b"ab".to_vec());
    assert_eq!(name_from_bytes(b"abc"), b"abc".to_vec());
    assert_eq!(name_from_bytes(b"\0abc"), Vec::<u8>::new());
}

#[test]
fn wait_requests_input_events() {
    let dev = Device::new(0).complete(6, 0).unwrap();
    let forever = dev.wait(None);
    assert_eq!(forever.fd, 6);
    assert_eq!(forever.events, 1 | 2);
    assert_eq!(forever.timeout, -1);
    assert_eq!(dev.wait(Some(0)).timeout, 0);
    assert_eq!(dev.wait(Some(250)).timeout, 250);
    assert_eq!(dev.wait(Some(usize::MAX)).timeout, i32::MAX);
}

#[test]
fn wait_outcomes() {
    assert_eq!(Device::wait_outcome(1, 1, 0), Ok(()));
    assert_eq!(Device::wait_outcome(1, 1 | 2, 0), Ok(()));
    assert_eq!(Device::wait_outcome(0, 0, 0), Err(WaitError::Timeout));
    assert_eq!(Device::wait_outcome(1, 8, 0), Err(WaitError::DeviceError(8)));
    assert_eq!(Device::wait_outcome(1, 0x10 | 2, 0), Err(WaitError::DeviceError(0x12)));
    assert_eq!(Device::wait_outcome(-1, 0, 4), Err(WaitError::PollError(4)));
}

#[test]
fn transfer_outcomes() {
    assert_eq!(Device::transfer_outcome(-1, EIO), Err(DeviceError::Os(EIO)));
    assert_eq!(Device::transfer_outcome(0, 0), Ok(0));
    assert_eq!(Device::transfer_outcome(4096, 0), Ok(4096));
}

#[test]
fn release_hands_out_descriptor_once() {
    let dev = Device::new(0).complete(9, 0).unwrap();
    let shared = dev.handle();
    assert_eq!(dev.close(), None);
    let mut handle = Arc::into_inner(shared).unwrap();
    assert_eq!(handle.release(), Some(9));
    assert_eq!(handle.fd(), -1);
    assert_eq!(handle.release(), None);
    assert_eq!(handle.release(), None);
}

#[test]
fn last_owner_closes() {
    let dev = Device::new(0).complete(9, 0).unwrap();
    let owners: Vec<Arc<v4l_device::Handle>> = (0..4).map(|_| dev.handle()).collect();
    assert_eq!(dev.close(), None);
    let closed: Vec<i32> =
        owners.into_iter().filter_map(|h| Arc::into_inner(h)).filter_map(|mut h| h.release()).collect();
    assert_eq!(closed, vec![9]);
}

#[test]
fn sole_owner_closes() {
    let dev = Device::new(0).complete(11, 0).unwrap();
    assert_eq!(dev.close(), Some(11));
}

#[test]
fn error_classes() {
    assert!(DeviceError::Os(EINVAL).is_invalid_input());
    assert!(!DeviceError::Os(EIO).is_invalid_input());
    assert_eq!(DeviceError::Os(EIO).os_code(), Some(EIO));
    assert_eq!(DeviceError::Unsupported.os_code(), None);
}

#[test]
fn control_types_decode() {
    assert_eq!(ControlType::from_raw(3), ControlType::Menu);
    assert_eq!(ControlType::from_raw(9), ControlType::IntegerMenu);
    assert_eq!(ControlType::from_raw(0x100), ControlType::Other(0x100));
    assert!(ControlType::Menu.is_menu());
    assert!(!ControlType::Integer.is_menu());
}

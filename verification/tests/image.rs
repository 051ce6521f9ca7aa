use uefi::protocol::{
    get_current_image, set_current_image, CurrentImage, LoadedImageProtocol, Protocol,
};
use uefi::{Handle, MemoryType, Status};

fn image(base: usize) -> LoadedImageProtocol {
    LoadedImageProtocol {
        revision: 0x1000,
        parent_handle: Handle(1),
        system_table: 0x7000,
        device_handle: Handle(2),
        file_path: 0x8000,
        load_options_size: 0,
        load_options: 0,
        image_base: base,
        image_size: 0x4000,
        image_code_type: MemoryType::LoaderCode,
        image_data_type: MemoryType::LoaderData,
        unload: 0,
    }
}

#[test]
fn no_image_is_known_at_first() {
    let current = CurrentImage::new();
    assert!(get_current_image(&current).is_none());
}

#[test]
fn set_current_image_remembers_the_image() {
    let mut current = CurrentImage::new();
    let r = set_current_image(&mut current, Handle(0x42), |h: Handle| {
        assert_eq!(h, Handle(0x42));
        Ok(image(0x10_0000))
    });
    assert_eq!(r.unwrap().image_base, 0x10_0000);
    assert_eq!(get_current_image(&current).unwrap().image_base, 0x10_0000);
    let r = set_current_image(&mut current, Handle(0x43), |_: Handle| Ok(image(0x20_0000)));
    assert_eq!(r.unwrap().image_base, 0x20_0000);
    assert_eq!(get_current_image(&current).unwrap().image_base, 0x20_0000);
}

#[test]
fn a_failed_lookup_leaves_the_current_image() {
    let mut current = CurrentImage::new();
    let r = set_current_image(&mut current, Handle(1), |_: Handle| Err(Status::Unsupported));
    assert_eq!(r.err(), Some(Status::Unsupported));
    assert!(get_current_image(&current).is_none());
    set_current_image(&mut current, Handle(1), |_: Handle| Ok(image(0x30_0000))).unwrap();
    let r = set_current_image(&mut current, Handle(2), |_: Handle| Err(Status::NotFound));
    assert_eq!(r.err(), Some(Status::NotFound));
    assert_eq!(get_current_image(&current).unwrap().image_base, 0x30_0000);
}

#[test]
fn loaded_image_guid() {
    let g = LoadedImageProtocol::guid();
    assert_eq!((g.0, g.1, g.2), (0x5B1B31A1, 0x9562, 0x11d2));
    assert_eq!(g.3, [0x8E, 0x3F, 0x00, 0xA0, 0xC9, 0x69, 0x72, 0x3B]);
}

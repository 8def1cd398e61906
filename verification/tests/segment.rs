use page_primer::geometry::Span;
use page_primer::remap::{Call, HugeError, Remap, Step};
use page_primer::segment::{
    mlock, path_from_name, program_name, Enumeration, LoadedObject, ProgramHeader, Segment,
};

fn load(flags: u32, vaddr: usize, memsz: usize) -> ProgramHeader {
    ProgramHeader { kind: libc::PT_LOAD, flags, vaddr, memsz }
}

fn found(object_i: usize, flags: u32, start: usize, end: usize, path: &[u8]) -> Segment {
    Segment {
        object_i,
        flags,
        addrs: Span { start, end },
        remap: None,
        remap_detail: String::new(),
        mlock: None,
        mlock_detail: String::new(),
        path: path.to_vec(),
    }
}

#[test]
fn program_name_is_the_path_or_main() {
    assert_eq!(program_name(Some(b"/usr/bin/app".to_vec())), b"/usr/bin/app".to_vec());
    assert_eq!(program_name(None), b"main".to_vec());
}

#[test]
fn path_ends_at_the_first_zero_byte() {
    assert_eq!(path_from_name(&b"/lib/libc.so.6".to_vec()), b"/lib/libc.so.6".to_vec());
    assert_eq!(path_from_name(&b"/lib\0/libc".to_vec()), b"/lib".to_vec());
    assert_eq!(path_from_name(&b"\0abc".to_vec()), Vec::<u8>::new());
    assert_eq!(path_from_name(&Vec::new()), Vec::<u8>::new());
}

#[test]
fn path_leaves_room_for_its_end_marker() {
    let limit = libc::PATH_MAX as usize - 1;
    assert_eq!(path_from_name(&vec![b'a'; limit]).len(), limit);
    assert_eq!(path_from_name(&vec![b'a'; limit + 1]), vec![b'a'; limit]);
    assert_eq!(path_from_name(&vec![b'a'; 3 * limit]), vec![b'a'; 4095]);
}

#[test]
fn enumeration_keeps_loadable_segments_only() {
    let mut found_so_far = Enumeration::new(b"/usr/bin/app".to_vec());
    found_so_far.object(&LoadedObject {
        name: Vec::new(),
        base: 0x40_0000,
        headers: vec![
            ProgramHeader { kind: libc::PT_PHDR, flags: 4, vaddr: 0x40, memsz: 0x200 },
            load(5, 0, 0x1234),
            ProgramHeader { kind: libc::PT_DYNAMIC, flags: 6, vaddr: 0x3000, memsz: 0x100 },
            load(6, 0x2000, 0x100),
        ],
    });
    assert_eq!(found_so_far.next_object_i, 1);
    assert_eq!(
        found_so_far.segments,
        vec![
            found(0, 5, 0x40_0000, 0x40_1234, b"/usr/bin/app"),
            found(0, 6, 0x40_2000, 0x40_2100, b"/usr/bin/app"),
        ]
    );
}

#[test]
fn enumeration_names_later_objects_as_reported() {
    let mut found_so_far = Enumeration::new(b"/usr/bin/app".to_vec());
    found_so_far.object(&LoadedObject { name: Vec::new(), base: 0, headers: vec![load(5, 0x1000, 0x10)] });
    found_so_far.object(&LoadedObject {
        name: b"/lib/libc.so.6".to_vec(),
        base: 0x7f00_0000_0000,
        headers: vec![load(4, 0, 0x2000), load(5, 0x2000, 0x8000)],
    });
    found_so_far.object(&LoadedObject { name: b"linux-vdso.so.1".to_vec(), base: 0x10, headers: vec![] });
    assert_eq!(found_so_far.next_object_i, 3);
    assert_eq!(
        found_so_far.segments,
        vec![
            found(0, 5, 0x1000, 0x1010, b"/usr/bin/app"),
            found(1, 4, 0x7f00_0000_0000, 0x7f00_0000_2000, b"/lib/libc.so.6"),
            found(1, 5, 0x7f00_0000_2000, 0x7f00_0000_a000, b"/lib/libc.so.6"),
        ]
    );
}

#[test]
fn enumeration_wraps_the_start_around_the_address_space() {
    let mut found_so_far = Enumeration::new(b"app".to_vec());
    found_so_far.object(&LoadedObject {
        name: Vec::new(),
        base: usize::MAX - 0xfff,
        headers: vec![load(5, 0x2000, 0x500)],
    });
    assert_eq!(found_so_far.segments, vec![found(0, 5, 0x1000, 0x1500, b"app")]);
}

#[test]
fn enumeration_drops_segments_beyond_its_limit() {
    let mut found_so_far = Enumeration::new(b"app".to_vec());
    let mut headers = Vec::new();
    for i in 0..1000 {
        headers.push(load(5, i * 0x1000, 0x1000));
    }
    found_so_far.object(&LoadedObject { name: Vec::new(), base: 0, headers: headers.clone() });
    assert_eq!(found_so_far.segments.len(), 1000);
    found_so_far.object(&LoadedObject { name: b"second".to_vec(), base: 0x1000_0000, headers });
    assert_eq!(found_so_far.segments.len(), 1024);
    assert_eq!(found_so_far.next_object_i, 2);
    assert_eq!(found_so_far.segments[999], found(0, 5, 999 * 0x1000, 1000 * 0x1000, b"app"));
    assert_eq!(
        found_so_far.segments[1023],
        found(1, 5, 0x1000_0000 + 23 * 0x1000, 0x1000_0000 + 24 * 0x1000, b"second")
    );
}

#[test]
fn headers_are_workable_within_the_address_space() {
    let base_mask = 0xfff;
    let huge = Some(0x1f_ffffusize);
    assert!(load(5, 0, 0x1000).is_workable(0x40_0000, base_mask, huge));
    assert!(!load(5, 0, 2).is_workable(usize::MAX - 1, base_mask, huge));
    assert!(!load(5, 0, 2).is_workable(usize::MAX - 1, base_mask, None));
    assert!(load(5, 0, 1).is_workable(usize::MAX - 1, base_mask, None));
    assert!(!load(5, 0, 1).is_workable(usize::MAX - 1, base_mask, huge));
    assert!(load(6, 0, 1).is_workable(usize::MAX - 1, base_mask, huge));
    assert!(load(1, 0, 1).is_workable(usize::MAX - 1, base_mask, huge));
    let other = ProgramHeader { kind: libc::PT_NOTE, flags: 5, vaddr: 0, memsz: 2 };
    assert!(other.is_workable(usize::MAX - 1, base_mask, huge));
    let object = LoadedObject {
        name: Vec::new(),
        base: usize::MAX - 1,
        headers: vec![other, load(5, 0, 1)],
    };
    assert!(object.is_workable(base_mask, None));
    assert!(!object.is_workable(base_mask, huge));
}

#[test]
fn segment_begins_its_own_remap() {
    let text = found(0, 5, 0x20_1000, 0x5f_f000, b"app");
    let remap = text.remap(0xfff, 0x1f_ffff);
    assert_eq!(remap, Remap::begin(5, 0x20_1000, 0x5f_f000, 0xfff, 0x1f_ffff));
    assert_eq!(remap.current(), Step::Ask(Call::Reserve { addr: 0x20_0000, len: 0x1000 }));
    let data = found(0, 6, 0x20_1000, 0x5f_f000, b"app");
    assert_eq!(data.remap(0xfff, 0x1f_ffff).current(), Step::Done(Err(HugeError::Writable)));
    let hidden = found(0, 1, 0x20_1000, 0x5f_f000, b"app");
    assert_eq!(hidden.remap(0xfff, 0x1f_ffff).current(), Step::Done(Err(HugeError::Unreadable)));
}

#[test]
fn segment_is_locked_at_its_own_addresses() {
    let mut text = found(0, 5, 0x20_1000, 0x5f_f000, b"app");
    text.remap = Some(Ok(Span { start: 0x20_0000, end: 0x40_0000 }));
    assert_eq!(text.lock(), Call::Lock { addr: 0x20_1000, len: 0x3f_e000 });
    assert_eq!(mlock(Ok(0)), Ok(()));
    assert_eq!(mlock(Ok(77)), Ok(()));
    assert_eq!(mlock(Err(libc::ENOMEM)), Err(libc::ENOMEM));
}

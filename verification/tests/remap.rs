use page_primer::geometry::Span;
use page_primer::remap::{Call, HugeError, Remap, Reservation, Stage, Step};

const BASE: usize = 0xfff;
const HUGE: usize = 0x1f_ffff;
const RX: u32 = libc::PF_R | libc::PF_X;
const TMP: usize = 0x7f00_0000_0000;

fn done(start: usize, end: usize) -> Step {
    Step::Done(Ok(Span { start, end }))
}

#[test]
fn remap_of_an_aligned_segment_replaces_it_whole() {
    let mut remap = Remap::begin(RX, 0x20_0000, 0x40_0000, BASE, HUGE);
    assert_eq!(remap.current(), Step::Ask(Call::CreateFile));
    assert_eq!(remap.step(Ok(3)), Step::Ask(Call::Truncate { file: 3, len: 0x20_0000 }));
    assert_eq!(remap.step(Ok(0)), Step::Ask(Call::MapShared { file: 3, len: 0x20_0000 }));
    assert_eq!(
        remap.step(Ok(TMP)),
        Step::Ask(Call::Copy { dst: TMP, src: 0x20_0000, len: 0x20_0000 })
    );
    assert_eq!(remap.step(Ok(0)), Step::Ask(Call::Unmap { addr: TMP, len: 0x20_0000 }));
    assert_eq!(
        remap.step(Ok(0)),
        Step::Ask(Call::MapFixed {
            addr: 0x20_0000,
            len: 0x20_0000,
            prot: libc::PROT_READ | libc::PROT_EXEC,
            file: 3,
        })
    );
    assert_eq!(remap.step(Ok(0x20_0000)), Step::Ask(Call::Close { file: 3 }));
    assert_eq!(remap.step(Ok(0)), done(0x20_0000, 0x40_0000));
    assert_eq!(remap.stage, Stage::Done);
    assert_eq!(remap.step(Ok(0)), done(0x20_0000, 0x40_0000));
}

#[test]
fn remap_with_the_tail_padding_blocked_ends_at_the_inner_boundary() {
    let mut remap = Remap::begin(RX, 0x20_1000, 0x5f_f000, BASE, HUGE);
    assert_eq!(remap.current(), Step::Ask(Call::Reserve { addr: 0x20_0000, len: 0x1000 }));
    assert_eq!(
        remap.step(Ok(0x20_0000)),
        Step::Ask(Call::Reserve { addr: 0x5f_f000, len: 0x1000 })
    );
    assert_eq!(remap.step(Err(libc::EEXIST)), Step::Ask(Call::CreateFile));
    assert_eq!(remap.step(Ok(7)), Step::Ask(Call::Truncate { file: 7, len: 0x20_0000 }));
    assert_eq!(remap.step(Ok(0)), Step::Ask(Call::MapShared { file: 7, len: 0x20_0000 }));
    assert_eq!(
        remap.step(Ok(TMP)),
        Step::Ask(Call::Copy { dst: TMP + 0x1000, src: 0x20_1000, len: 0x1f_f000 })
    );
    assert_eq!(remap.step(Ok(0)), Step::Ask(Call::Unmap { addr: TMP, len: 0x20_0000 }));
    assert_eq!(
        remap.step(Ok(0)),
        Step::Ask(Call::MapFixed { addr: 0x20_0000, len: 0x20_0000, prot: 5, file: 7 })
    );
    assert_eq!(remap.step(Ok(0x20_0000)), Step::Ask(Call::Close { file: 7 }));
    assert_eq!(remap.step(Ok(0)), done(0x20_0000, 0x40_0000));
}

#[test]
fn remap_with_both_paddings_reserved_takes_the_closure() {
    let mut remap = Remap::begin(RX, 0x3f_f800, 0xa0_0001, BASE, HUGE);
    assert_eq!(remap.current(), Step::Ask(Call::Reserve { addr: 0x20_0000, len: 0x1f_f000 }));
    assert_eq!(
        remap.step(Ok(0x20_0000)),
        Step::Ask(Call::Reserve { addr: 0xa0_1000, len: 0x1f_f000 })
    );
    assert_eq!(remap.step(Ok(0xa0_1000)), Step::Ask(Call::CreateFile));
    assert_eq!(remap.step(Ok(4)), Step::Ask(Call::Truncate { file: 4, len: 0xa0_0000 }));
    assert_eq!(remap.step(Ok(0)), Step::Ask(Call::MapShared { file: 4, len: 0xa0_0000 }));
    assert_eq!(
        remap.step(Ok(TMP)),
        Step::Ask(Call::Copy { dst: TMP + 0x1f_f000, src: 0x3f_f000, len: 0x60_2000 })
    );
    assert_eq!(remap.step(Ok(0)), Step::Ask(Call::Unmap { addr: TMP, len: 0xa0_0000 }));
    assert_eq!(
        remap.step(Ok(0)),
        Step::Ask(Call::MapFixed { addr: 0x20_0000, len: 0xa0_0000, prot: 5, file: 4 })
    );
    assert_eq!(remap.step(Ok(0x20_0000)), Step::Ask(Call::Close { file: 4 }));
    assert_eq!(remap.step(Ok(0)), done(0x20_0000, 0xc0_0000));
}

#[test]
fn remap_with_both_paddings_blocked_takes_the_inner_pages() {
    let mut remap = Remap::begin(RX, 0x3f_f800, 0xa0_0001, BASE, HUGE);
    assert_eq!(
        remap.step(Err(libc::EEXIST)),
        Step::Ask(Call::Reserve { addr: 0xa0_1000, len: 0x1f_f000 })
    );
    assert_eq!(remap.step(Err(libc::EEXIST)), Step::Ask(Call::CreateFile));
    assert_eq!(remap.step(Ok(4)), Step::Ask(Call::Truncate { file: 4, len: 0x60_0000 }));
    assert_eq!(remap.step(Ok(0)), Step::Ask(Call::MapShared { file: 4, len: 0x60_0000 }));
    assert_eq!(
        remap.step(Ok(TMP)),
        Step::Ask(Call::Copy { dst: TMP, src: 0x40_0000, len: 0x60_0000 })
    );
    assert_eq!(remap.step(Ok(0)), Step::Ask(Call::Unmap { addr: TMP, len: 0x60_0000 }));
    assert_eq!(
        remap.step(Ok(0)),
        Step::Ask(Call::MapFixed { addr: 0x40_0000, len: 0x60_0000, prot: 5, file: 4 })
    );
    assert_eq!(remap.step(Ok(0x40_0000)), Step::Ask(Call::Close { file: 4 }));
    assert_eq!(remap.step(Ok(0)), done(0x40_0000, 0xa0_0000));
}

#[test]
fn writable_segment_is_refused_without_a_call() {
    let mut remap = Remap::begin(libc::PF_R | libc::PF_W, 0x20_0000, 0x40_0000, BASE, HUGE);
    assert_eq!(remap.current(), Step::Done(Err(HugeError::Writable)));
    assert_eq!(remap.step(Ok(0)), Step::Done(Err(HugeError::Writable)));
}

#[test]
fn unreadable_segment_is_refused_without_a_call() {
    let remap = Remap::begin(libc::PF_X, 0x20_0000, 0x40_0000, BASE, HUGE);
    assert_eq!(remap.current(), Step::Done(Err(HugeError::Unreadable)));
    let both = Remap::begin(libc::PF_W, 0x20_0000, 0x40_0000, BASE, HUGE);
    assert_eq!(both.current(), Step::Done(Err(HugeError::Unreadable)));
    let none = Remap::begin(0, usize::MAX - 1, usize::MAX, BASE, HUGE);
    assert_eq!(none.current(), Step::Done(Err(HugeError::Unreadable)));
}

#[test]
fn conflict_releases_the_padding_that_was_reserved() {
    let mut remap = Remap::begin(RX, 0x20_1000, 0x20_2000, BASE, HUGE);
    assert_eq!(remap.current(), Step::Ask(Call::Reserve { addr: 0x20_0000, len: 0x1000 }));
    assert_eq!(
        remap.step(Ok(0x20_0000)),
        Step::Ask(Call::Reserve { addr: 0x20_2000, len: 0x1f_e000 })
    );
    assert_eq!(
        remap.step(Err(libc::EEXIST)),
        Step::Ask(Call::Unmap { addr: 0x20_0000, len: 0x1000 })
    );
    assert_eq!(remap.step(Ok(0)), Step::Done(Err(HugeError::Conflict)));
}

#[test]
fn conflict_without_reservations_asks_for_nothing_more() {
    let mut remap = Remap::begin(RX, 0x20_1000, 0x20_2000, BASE, HUGE);
    assert_eq!(
        remap.step(Err(libc::ENOMEM)),
        Step::Ask(Call::Reserve { addr: 0x20_2000, len: 0x1f_e000 })
    );
    assert_eq!(remap.step(Err(libc::ENOMEM)), Step::Done(Err(HugeError::Conflict)));
}

#[test]
fn reservation_made_elsewhere_is_removed_and_counts_as_failed() {
    let mut remap = Remap::begin(RX, 0x20_1000, 0x5f_f000, BASE, HUGE);
    assert_eq!(remap.current(), Step::Ask(Call::Reserve { addr: 0x20_0000, len: 0x1000 }));
    assert_eq!(remap.step(Ok(0x7000)), Step::Ask(Call::Unmap { addr: 0x7000, len: 0x1000 }));
    assert_eq!(remap.step(Ok(0)), Step::Ask(Call::Reserve { addr: 0x5f_f000, len: 0x1000 }));
    assert_eq!(remap.step(Ok(0x9000)), Step::Ask(Call::Unmap { addr: 0x9000, len: 0x1000 }));
    assert_eq!(remap.step(Ok(0)), Step::Done(Err(HugeError::Conflict)));
    assert!(!remap.start_reserved && !remap.end_reserved);
}

fn reserved_both() -> Remap {
    let mut remap = Remap::begin(RX, 0x3f_f800, 0xa0_0001, BASE, HUGE);
    remap.step(Ok(0x20_0000));
    assert_eq!(remap.step(Ok(0xa0_1000)), Step::Ask(Call::CreateFile));
    remap
}

fn releases_both(remap: &mut Remap, e: HugeError) {
    assert_eq!(remap.current(), Step::Ask(Call::Unmap { addr: 0xa0_1000, len: 0x1f_f000 }));
    assert_eq!(remap.step(Ok(0)), Step::Ask(Call::Unmap { addr: 0x20_0000, len: 0x1f_f000 }));
    assert_eq!(remap.step(Ok(0)), Step::Done(Err(e)));
}

#[test]
fn failure_to_create_the_file_releases_the_paddings() {
    let mut remap = reserved_both();
    remap.step(Err(libc::ENOSYS));
    releases_both(&mut remap, HugeError::MemfdCreateFailed(libc::ENOSYS));
}

#[test]
fn failure_to_size_the_file_closes_it_and_releases_the_paddings() {
    let mut remap = reserved_both();
    remap.step(Ok(5));
    assert_eq!(remap.step(Err(libc::ENOMEM)), Step::Ask(Call::Close { file: 5 }));
    remap.step(Ok(0));
    releases_both(&mut remap, HugeError::FtruncateFailed(libc::ENOMEM));
}

#[test]
fn failure_of_the_first_mapping_closes_the_file_and_releases_the_paddings() {
    let mut remap = reserved_both();
    remap.step(Ok(5));
    remap.step(Ok(0));
    assert_eq!(remap.step(Err(libc::ENOMEM)), Step::Ask(Call::Close { file: 5 }));
    remap.step(Ok(0));
    releases_both(&mut remap, HugeError::InitialMmapFailed(libc::ENOMEM));
}

#[test]
fn failure_of_the_replacing_mapping_closes_the_file_and_releases_the_paddings() {
    let mut remap = reserved_both();
    remap.step(Ok(5));
    remap.step(Ok(0));
    remap.step(Ok(TMP));
    remap.step(Ok(0));
    assert_eq!(
        remap.step(Ok(0)),
        Step::Ask(Call::MapFixed { addr: 0x20_0000, len: 0xa0_0000, prot: 5, file: 5 })
    );
    assert_eq!(remap.step(Err(libc::EINVAL)), Step::Ask(Call::Close { file: 5 }));
    remap.step(Ok(0));
    releases_both(&mut remap, HugeError::RemapFailed(libc::EINVAL));
}

#[test]
fn copy_destination_wraps_like_the_address_arithmetic() {
    let mut remap = Remap::begin(RX, 0x20_1000, 0x5f_f000, BASE, HUGE);
    remap.step(Ok(0x20_0000));
    remap.step(Err(libc::EEXIST));
    remap.step(Ok(7));
    remap.step(Ok(0));
    assert_eq!(
        remap.step(Ok(usize::MAX)),
        Step::Ask(Call::Copy { dst: 0xfff, src: 0x20_1000, len: 0x1f_f000 })
    );
}

#[test]
fn a_remap_takes_at_most_fourteen_calls() {
    for script in 0u32..(1 << 14) {
        let mut remap = Remap::begin(RX, 0x3f_f800, 0xa0_0001, BASE, HUGE);
        let mut step = remap.current();
        let mut calls = 0;
        while let Step::Ask(call) = step {
            let fails = script & (1 << calls) != 0;
            let reply = if fails {
                Err(libc::ENOMEM)
            } else {
                match call {
                    Call::Reserve { addr, .. } => Ok(addr),
                    _ => Ok(TMP),
                }
            };
            step = remap.step(reply);
            calls += 1;
            assert!(calls <= 14);
        }
    }
}

#[test]
fn reservation_is_held_only_where_it_was_asked_for() {
    let range = Span { start: 0x20_0000, end: 0x20_1000 };
    assert_eq!(Reservation::request(range), Call::Reserve { addr: 0x20_0000, len: 0x1000 });
    assert_eq!(Reservation::new(range, Ok(0x20_0000)), Ok(Reservation { range }));
    assert_eq!(
        Reservation::new(range, Ok(0x7000)),
        Err(Some(Call::Unmap { addr: 0x7000, len: 0x1000 }))
    );
    assert_eq!(Reservation::new(range, Err(libc::EEXIST)), Err(None));
    assert_eq!(
        Reservation { range }.release(),
        Call::Unmap { addr: 0x20_0000, len: 0x1000 }
    );
    let empty = Span { start: 5, end: 5 };
    assert_eq!(Reservation::request(empty), Call::Reserve { addr: 5, len: 0 });
}

fn survivors(start: usize, end: usize, script: u32, stray_first: bool, stray_second: bool) -> usize {
    let mut remap = Remap::begin(RX, start, end, BASE, HUGE);
    let mut mapped: Vec<(usize, usize)> = Vec::new();
    let mut open_files = 0;
    let mut reserves = 0;
    let mut calls = 0;
    let mut step = remap.current();
    while let Step::Ask(call) = step {
        let fails = script & (1 << calls) != 0;
        let reply = match call {
            Call::Reserve { addr, len } => {
                reserves += 1;
                let stray = if reserves == 1 { stray_first } else { stray_second };
                if fails {
                    Err(libc::EEXIST)
                } else if stray {
                    mapped.push((0x1000 * reserves, len));
                    Ok(0x1000 * reserves)
                } else {
                    mapped.push((addr, len));
                    Ok(addr)
                }
            }
            Call::Unmap { addr, len } => {
                let at = mapped.iter().position(|m| *m == (addr, len));
                assert!(at.is_some(), "unmapping what is not mapped: {:?}", call);
                mapped.remove(at.unwrap());
                if fails { Err(libc::EINVAL) } else { Ok(0) }
            }
            Call::CreateFile => {
                if fails {
                    Err(libc::ENOSYS)
                } else {
                    open_files += 1;
                    Ok(3)
                }
            }
            Call::MapShared { len, .. } => {
                if fails {
                    Err(libc::ENOMEM)
                } else {
                    mapped.push((TMP, len));
                    Ok(TMP)
                }
            }
            Call::MapFixed { addr, len, .. } => {
                if fails {
                    Err(libc::EINVAL)
                } else {
                    mapped.retain(|m| !(addr <= m.0 && m.0 + m.1 <= addr + len));
                    Ok(addr)
                }
            }
            Call::Close { file } => {
                assert_eq!(file, 3);
                open_files -= 1;
                if fails { Err(libc::EBADF) } else { Ok(0) }
            }
            _ => {
                if fails { Err(libc::ENOMEM) } else { Ok(0) }
            }
        };
        step = remap.step(reply);
        calls += 1;
    }
    assert_eq!(open_files, 0);
    mapped.len()
}

#[test]
fn nothing_that_a_remap_mapped_survives_it() {
    for (start, end) in [(0x3f_f800, 0xa0_0001), (0x20_1000, 0x20_2000), (0x20_0000, 0x40_0000)] {
        for script in 0u32..(1 << 14) {
            for strays in 0..4 {
                let left = survivors(start, end, script, strays & 1 != 0, strays & 2 != 0);
                assert_eq!(left, 0, "{:#x}-{:#x} script {:#b} strays {}", start, end, script, strays);
            }
        }
    }
}

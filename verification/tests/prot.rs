use page_primer::prot::{debug_prot, is_executable, is_readable, is_writable, transform_prot};

#[test]
fn each_flag_maps_to_its_protection() {
    assert_eq!(transform_prot(libc::PF_R), libc::PROT_READ);
    assert_eq!(transform_prot(libc::PF_W), libc::PROT_WRITE);
    assert_eq!(transform_prot(libc::PF_X), libc::PROT_EXEC);
    assert_eq!(transform_prot(0), libc::PROT_NONE);
}

#[test]
fn unions_of_flags_map_to_unions_of_protections() {
    assert_eq!(transform_prot(libc::PF_R | libc::PF_X), libc::PROT_READ | libc::PROT_EXEC);
    assert_eq!(transform_prot(libc::PF_R | libc::PF_W), libc::PROT_READ | libc::PROT_WRITE);
    assert_eq!(
        transform_prot(libc::PF_R | libc::PF_W | libc::PF_X),
        libc::PROT_READ | libc::PROT_WRITE | libc::PROT_EXEC
    );
    for a in 0u32..8 {
        for b in 0u32..8 {
            assert_eq!(transform_prot(a | b), transform_prot(a) | transform_prot(b));
        }
    }
}

#[test]
fn exact_protection_values() {
    assert_eq!(transform_prot(4), 1);
    assert_eq!(transform_prot(2), 2);
    assert_eq!(transform_prot(1), 4);
    assert_eq!(transform_prot(5), 5);
    assert_eq!(transform_prot(6), 3);
    assert_eq!(transform_prot(7), 7);
}

#[test]
fn other_bits_give_no_protection() {
    assert_eq!(transform_prot(0xffff_fff8), 0);
    assert_eq!(transform_prot(0x10 | libc::PF_X), libc::PROT_EXEC);
}

#[test]
fn flags_are_told_apart() {
    assert!(is_readable(libc::PF_R));
    assert!(!is_readable(libc::PF_W | libc::PF_X));
    assert!(is_writable(libc::PF_W));
    assert!(!is_writable(libc::PF_R | libc::PF_X));
    assert!(is_executable(libc::PF_X));
    assert!(!is_executable(libc::PF_R | libc::PF_W));
}

#[test]
fn debug_prot_shows_each_bit_on_its_own() {
    assert_eq!(debug_prot(libc::PF_R | libc::PF_X), "r-x");
    assert_eq!(debug_prot(libc::PF_R | libc::PF_W | libc::PF_X), "rwx");
    assert_eq!(debug_prot(libc::PF_W), "-w-");
    assert_eq!(debug_prot(libc::PF_X), "--x");
    assert_eq!(debug_prot(libc::PF_R), "r--");
    assert_eq!(debug_prot(0), "---");
}

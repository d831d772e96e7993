use riscv_rt::clic::{
    MemoryMapper, CLICINFO_NUM_INTERRUPT_MASK, CLICINFO_NUM_INTERRUPT_OFFSET, CLICINFO_REG_OFFSET,
    CLICINTATTR_REG_OFFSET, CLICINTCTL_REG_OFFSET, CLICINTIE_REG_OFFSET, CLICINTIP_REG_OFFSET,
    CLICINTATTR_TRIG_MASK, CLICINTATTR_TRIG_OFFSET, TRIG_EDGE, TRIG_NEGATIVE, TRIG_POSITIVE,
};
use riscv_rt::controller::Clic;

fn window_with_count(count: u32) -> MemoryMapper {
    let mut m = MemoryMapper::new(0x0280_0000, 0x1000 + 0x10 * count as usize);
    m.write(CLICINFO_REG_OFFSET, CLICINFO_NUM_INTERRUPT_MASK, CLICINFO_NUM_INTERRUPT_OFFSET, count);
    m
}

#[test]
fn new_window_is_zero() {
    let m = MemoryMapper::new(0x1000, 16);
    assert_eq!(m.size(), 16);
    assert_eq!(m.base_address(), 0x1000);
    assert_eq!(m.read(0, 0xFFFF_FFFF, 0), 0);
    assert_eq!(m.read_byte(15, 0xFF, 0), 0);
}

#[test]
fn word_registers_are_little_endian() {
    let mut m = MemoryMapper::new(0, 8);
    m.write(4, 0xFFFF_FFFF, 0, 0x1122_3344);
    assert_eq!(m.read_byte(4, 0xFF, 0), 0x44);
    assert_eq!(m.read_byte(7, 0xFF, 0), 0x11);
    assert_eq!(m.read(4, 0xFF00, 8), 0x33);
    assert_eq!(m.read(0, 0xFFFF_FFFF, 0), 0);
}

#[test]
fn mapper_write_keeps_bits_outside_field() {
    let mut m = MemoryMapper::new(0, 8);
    m.write(4, 0xFFFF_FFFF, 0, 0xFFFF_FFFF);
    m.write(4, 0x1E0_0000, 21, 0x5);
    assert_eq!(m.read(4, 0x1E0_0000, 21), 0x5);
    assert_eq!(m.read(4, 0xFFFF_FFFF, 0), 0xFEBF_FFFF);
    m.write_byte(0, 0x1E, 1, 0x3);
    assert_eq!(m.read_byte(0, 0xFF, 0), 0x6);
    assert_eq!(m.read(4, 0xFFFF_FFFF, 0), 0xFEBF_FFFF);
}

#[test]
fn mapper_write_of_wide_value_stays_in_field() {
    let mut m = MemoryMapper::new(0, 8);
    m.write(0, 1, 0, 2);
    assert_eq!(m.read(0, 0xFFFF_FFFF, 0), 0);
    m.write(0, 0x6, 1, 0xFF);
    assert_eq!(m.read(0, 0xFFFF_FFFF, 0), 0x6);
    m.write_byte(4, 1, 0, 2);
    assert_eq!(m.read_byte(4, 0xFF, 0), 0);
    m.write_byte(5, 0xC0, 6, 0x7);
    assert_eq!(m.read_byte(5, 0xFF, 0), 0xC0);
    assert_eq!(m.read_byte(4, 0xFF, 0), 0);
}

#[test]
fn register_address_adds_offset_to_base() {
    let m = MemoryMapper::new(0x0280_0000, 4);
    assert_eq!(m.register_address(CLICINTCTL_REG_OFFSET(3)), 0x0280_103c);
}

#[test]
fn per_interrupt_offsets() {
    assert_eq!(CLICINTIP_REG_OFFSET(0), 0x1000);
    assert_eq!(CLICINTIE_REG_OFFSET(0), 0x1004);
    assert_eq!(CLICINTATTR_REG_OFFSET(0), 0x1008);
    assert_eq!(CLICINTCTL_REG_OFFSET(0), 0x100c);
    assert_eq!(CLICINTIP_REG_OFFSET(5), 0x1050);
    assert_eq!(CLICINTCTL_REG_OFFSET(0x1FFE), 0x100c + 0x10 * 0x1FFE);
}

#[test]
fn offsets_increase_and_never_alias() {
    let mut seen: Vec<isize> = Vec::new();
    for id in 0..64u32 {
        let regs = [
            CLICINTIP_REG_OFFSET(id),
            CLICINTIE_REG_OFFSET(id),
            CLICINTATTR_REG_OFFSET(id),
            CLICINTCTL_REG_OFFSET(id),
        ];
        if id > 0 {
            assert!(CLICINTIP_REG_OFFSET(id) > CLICINTIP_REG_OFFSET(id - 1));
            assert!(CLICINTCTL_REG_OFFSET(id) > CLICINTCTL_REG_OFFSET(id - 1));
        }
        for r in regs.iter() {
            assert!(!seen.contains(r));
            seen.push(*r);
        }
    }
}

#[test]
fn clic_refuses_small_window() {
    let mut m = MemoryMapper::new(0, 0x1000 + 0x10 * 3);
    m.write(CLICINFO_REG_OFFSET, CLICINFO_NUM_INTERRUPT_MASK, CLICINFO_NUM_INTERRUPT_OFFSET, 4);
    let back = match Clic::new(m) {
        Ok(_) => panic!("window too small for four interrupts"),
        Err(m) => m,
    };
    assert_eq!(back.size(), 0x1000 + 0x10 * 3);
    assert!(Clic::new(MemoryMapper::new(0, 7)).is_err());
    assert!(Clic::new(window_with_count(4)).is_ok());
}

#[test]
fn clic_reports_count_and_config() {
    let mut m = window_with_count(4);
    m.write(CLICINFO_REG_OFFSET, 0x1E0_0000, 21, 8);
    m.write_byte(0, 0xFF, 0, 0b0110_1001);
    let c = match Clic::new(m) {
        Ok(c) => c,
        Err(_) => panic!("window fits"),
    };
    assert_eq!(c.num_interrupts(), 4);
    assert_eq!(c.intctl_bits(), 8);
    assert_eq!(c.vectoring_bits(), 1);
    assert_eq!(c.level_bits(), 4);
    assert_eq!(c.mode_bits(), 3);
}

#[test]
fn pending_enable_trigger_level_round_trip() {
    let mut c = match Clic::new(window_with_count(4)) {
        Ok(c) => c,
        Err(_) => panic!("window fits"),
    };
    c.set_pending(1, true);
    c.set_enabled(1, true);
    c.set_trigger(1, TRIG_EDGE | TRIG_NEGATIVE);
    c.set_mode(1, 3);
    c.set_level(1, 0x80);
    assert!(c.is_pending(1));
    assert!(c.is_enabled(1));
    assert_eq!(c.level(1), 0x80);
    assert!(!c.is_pending(0));
    assert!(!c.is_pending(2));
    let m = c.into_mapper();
    assert_eq!(m.read_byte(CLICINTATTR_REG_OFFSET(1), CLICINTATTR_TRIG_MASK, CLICINTATTR_TRIG_OFFSET), 3);
    assert_eq!(m.read_byte(CLICINTATTR_REG_OFFSET(1), 0xFF, 0), 0xC6);
    let mut c = match Clic::new(m) {
        Ok(c) => c,
        Err(_) => panic!("window fits"),
    };
    c.set_pending(1, false);
    assert!(!c.is_pending(1));
    assert!(c.is_enabled(1));
}

#[test]
fn claim_next_picks_highest_level_then_highest_id() {
    let mut c = match Clic::new(window_with_count(4)) {
        Ok(c) => c,
        Err(_) => panic!("window fits"),
    };
    for id in 0..4u32 {
        c.set_pending(id, true);
        c.set_enabled(id, true);
    }
    c.set_level(0, 0x40);
    c.set_level(1, 0xC0);
    c.set_level(2, 0x40);
    c.set_level(3, 0x10);
    assert_eq!(c.claim_next(), Some(1));
    assert!(!c.is_pending(1));
    assert_eq!(c.claim_next(), Some(2));
    assert_eq!(c.claim_next(), Some(0));
    assert_eq!(c.claim_next(), Some(3));
    assert_eq!(c.claim_next(), None);
}

#[test]
fn claim_next_skips_disabled() {
    let mut c = match Clic::new(window_with_count(4)) {
        Ok(c) => c,
        Err(_) => panic!("window fits"),
    };
    c.set_pending(3, true);
    assert_eq!(c.claim_next(), None);
    assert!(c.is_pending(3));
}

#[test]
fn service_loop_runs_once_per_pending_interrupt() {
    let mut c = match Clic::new(window_with_count(8)) {
        Ok(c) => c,
        Err(_) => panic!("window fits"),
    };
    for id in [1u32, 4, 6] {
        c.set_pending(id, true);
        c.set_enabled(id, true);
    }
    c.set_pending(5, true);
    c.set_enabled(2, true);
    c.set_level(4, 0x20);
    let served = c.service_pending();
    assert_eq!(served, vec![4, 6, 1]);
    assert!(!c.is_pending(1));
    assert!(!c.is_pending(4));
    assert!(!c.is_pending(6));
    assert!(c.is_pending(5));
    assert!(c.is_enabled(2));
    assert_eq!(c.claim_next(), None);
    assert_eq!(c.service_pending(), Vec::<u32>::new());
}

#[test]
fn dispatch_loop_scenario_four_interrupts() {
    let mut c = match Clic::new(window_with_count(4)) {
        Ok(c) => c,
        Err(_) => panic!("window fits"),
    };
    assert_eq!(c.num_interrupts(), 4);
    c.set_pending(2, true);
    c.set_enabled(2, true);
    c.set_trigger(2, TRIG_EDGE | TRIG_POSITIVE);
    let before = c.into_mapper();
    let mut snapshot: Vec<u8> = Vec::new();
    for id in [0u32, 1, 3] {
        snapshot.push(before.read_byte(CLICINTIP_REG_OFFSET(id), 0xFF, 0));
        snapshot.push(before.read_byte(CLICINTIE_REG_OFFSET(id), 0xFF, 0));
        snapshot.push(before.read_byte(CLICINTATTR_REG_OFFSET(id), 0xFF, 0));
        snapshot.push(before.read_byte(CLICINTCTL_REG_OFFSET(id), 0xFF, 0));
    }
    let mut c = match Clic::new(before) {
        Ok(c) => c,
        Err(_) => panic!("window fits"),
    };
    let served = c.service_pending();
    assert_eq!(served, vec![2]);
    assert!(!c.is_pending(2));
    let after = c.into_mapper();
    let mut now: Vec<u8> = Vec::new();
    for id in [0u32, 1, 3] {
        now.push(after.read_byte(CLICINTIP_REG_OFFSET(id), 0xFF, 0));
        now.push(after.read_byte(CLICINTIE_REG_OFFSET(id), 0xFF, 0));
        now.push(after.read_byte(CLICINTATTR_REG_OFFSET(id), 0xFF, 0));
        now.push(after.read_byte(CLICINTCTL_REG_OFFSET(id), 0xFF, 0));
    }
    assert_eq!(now, snapshot);
    assert_eq!(after.read_byte(CLICINTATTR_REG_OFFSET(2), CLICINTATTR_TRIG_MASK, CLICINTATTR_TRIG_OFFSET), 1);
}

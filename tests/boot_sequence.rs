use riscv_rt::boot::{
    clic_mtvec_bits, default_mp_hook, default_setup_interrupts, first_step, init_data, next_step,
    zero_bss, BootStep, InterruptController, SectionLayout, SubMode, TrapMode, TrapVectorSetup,
};

fn good_layout() -> SectionLayout {
    SectionLayout { sbss: 0x8000_0100, ebss: 0x8000_0200, sdata: 0x8000_0000, edata: 0x8000_0100, sidata: 0x2000_4000 }
}

fn run(hartid: usize, max: usize, layout: &SectionLayout, elected: bool) -> Vec<BootStep> {
    let mut steps = vec![first_step(hartid, max, layout)];
    while let Some(s) = next_step(*steps.last().unwrap(), elected) {
        steps.push(s);
    }
    steps
}

#[test]
fn default_hook_elects_only_hart_zero() {
    assert!(default_mp_hook(0));
    assert!(!default_mp_hook(1));
    assert!(!default_mp_hook(usize::MAX));
    let elected: Vec<usize> = (0..8usize).filter(|h| default_mp_hook(*h)).collect();
    assert_eq!(elected, vec![0]);
}

#[test]
fn zero_bss_clears_region_only() {
    let mut mem = vec![7u32, 8, 9, 10, 11];
    zero_bss(&mut mem, 1, 4);
    assert_eq!(mem, vec![7, 0, 0, 0, 11]);
    zero_bss(&mut mem, 1, 4);
    assert_eq!(mem, vec![7, 0, 0, 0, 11]);
}

#[test]
fn zero_bss_empty_region_changes_nothing() {
    let mut mem = vec![1u32, 2, 3];
    zero_bss(&mut mem, 2, 2);
    assert_eq!(mem, vec![1, 2, 3]);
    let mut none: Vec<u32> = Vec::new();
    zero_bss(&mut none, 0, 0);
    assert!(none.is_empty());
}

#[test]
fn init_data_copies_image() {
    let image = [0xDEAD_BEEFu32, 1, 2, 0xFFFF_FFFF];
    let mut data = [0u32; 4];
    init_data(&mut data, &image);
    assert_eq!(data, image);
    let mut empty: [u32; 0] = [];
    init_data(&mut empty, &[]);
    assert_eq!(empty.len(), 0);
}

#[test]
fn layout_validation() {
    let l = good_layout();
    assert!(l.is_valid());
    assert_eq!(l.bss_words(), 0x40);
    assert_eq!(l.data_words(), 0x40);
    let backwards = SectionLayout { ebss: 0x8000_0000, ..l };
    assert!(!backwards.is_valid());
    let overlapping = SectionLayout { sidata: 0x8000_0080, ..l };
    assert!(!overlapping.is_valid());
    let misaligned = SectionLayout { sbss: 0x8000_0102, ..l };
    assert!(!misaligned.is_valid());
    let empty_data = SectionLayout { edata: 0x8000_0000, sidata: 0x8000_0000, ..l };
    assert!(empty_data.is_valid());
}

#[test]
fn elected_hart_prepares_memory() {
    let steps = run(0, 3, &good_layout(), true);
    assert_eq!(
        steps,
        vec![
            BootStep::Elect,
            BootStep::PreInit,
            BootStep::ZeroBss,
            BootStep::InitData,
            BootStep::SetupInterrupts,
            BootStep::EnterMain
        ]
    );
}

#[test]
fn other_harts_skip_memory_preparation() {
    let steps = run(2, 3, &good_layout(), false);
    assert_eq!(steps, vec![BootStep::Elect, BootStep::SetupInterrupts, BootStep::EnterMain]);
    assert_eq!(steps.iter().filter(|s| **s == BootStep::Elect).count(), 1);
}

#[test]
fn out_of_range_hart_or_bad_layout_aborts() {
    assert_eq!(run(4, 3, &good_layout(), true), vec![BootStep::Abort]);
    let bad = SectionLayout { sbss: 0x8000_0300, ..good_layout() };
    assert_eq!(run(0, 3, &bad, true), vec![BootStep::Abort]);
}

#[test]
fn setup_for_each_controller() {
    assert_eq!(
        default_setup_interrupts(InterruptController::Clint, 0x2000_0100, 0x2000_0200, 0x2000_0400),
        TrapVectorSetup { address: 0x2000_0100, mode: TrapMode::Direct, submode: SubMode::Default, vector_table: None }
    );
    assert_eq!(
        default_setup_interrupts(InterruptController::Clic { nxti: true }, 0x2000_0100, 0x2000_0200, 0x2000_0400),
        TrapVectorSetup { address: 0x2000_0200, mode: TrapMode::Clic, submode: SubMode::Nxti, vector_table: Some(0x2000_0400) }
    );
    assert_eq!(
        default_setup_interrupts(InterruptController::Clic { nxti: false }, 0x2000_0100, 0x2000_0200, 0x2000_0400),
        TrapVectorSetup { address: 0x2000_0100, mode: TrapMode::Clic, submode: SubMode::Default, vector_table: Some(0x2000_0400) }
    );
}

#[test]
fn clic_mode_trap_vector_value() {
    assert_eq!(clic_mtvec_bits(0x2000_0140, SubMode::Default), 0x2000_0143);
    assert_eq!(clic_mtvec_bits(0x2000_017C, SubMode::Default), 0x2000_0143);
    assert_eq!(clic_mtvec_bits(0x2000_0140, SubMode::Nxti), 0x2000_0147);
}

use xcpu::instruction::Instruction;
use xcpu::processor::{Ignore, InterruptHandler, Processor};
use xcpu::signal::Signal;

/// A running processor without handlers that holds `bytes`.
fn loaded(bytes: &[u8]) -> Processor<Ignore> {
    let mut cpu = Processor::new();
    cpu.load(bytes);
    cpu.m_status = true;
    cpu
}

/// A handler that counts its calls in register 15 and notes in register
/// 14 where the program counter stood, and in register 13 its number.
#[derive(Clone, Copy)]
struct Count;

impl InterruptHandler for Count {
    fn handle(&self, cpu: &mut Processor<Self>, number: u8) {
        cpu.m_registers[15] += 1;
        cpu.m_registers[14] = cpu.getpc() as i64;
        cpu.m_registers[13] = number as i64;
    }
}

/// A handler that does one of two things, to tell handlers apart.
#[derive(Clone, Copy)]
enum Mark {
    Halt,
    Write(i64),
}

impl InterruptHandler for Mark {
    fn handle(&self, cpu: &mut Processor<Self>, _number: u8) {
        match self {
            Mark::Halt => cpu.halt(),
            Mark::Write(value) => cpu.m_registers[0] = *value,
        }
    }
}

#[test]
fn new_processor_is_empty_and_halted() {
    let cpu: Processor<Ignore> = Processor::new();
    assert!(cpu.m_memory.is_empty());
    assert_eq!(cpu.getpc(), 0);
    assert!(!cpu.m_status);
    assert!(!cpu.is_running());
    assert_eq!(cpu.m_registers, [0i64; 16]);
    assert!(cpu.m_stack.is_empty());
    assert!(cpu.m_intlisteners.is_empty());
}

#[test]
fn push_byte_appends() {
    let mut cpu: Processor<Ignore> = Processor::new();
    cpu.push_byte(Instruction::LOAD1B.opcode());
    cpu.push_byte(0);
    cpu.push_byte(4);
    assert_eq!(cpu.m_memory, vec![1, 0, 4]);
    assert_eq!(cpu.getpc(), 0);
}

#[test]
fn load_appends_in_order() {
    let mut cpu: Processor<Ignore> = Processor::new();
    cpu.push_byte(9);
    cpu.load(&[1, 2, 3]);
    cpu.load(&[]);
    cpu.load(&[255]);
    assert_eq!(cpu.m_memory, vec![9, 1, 2, 3, 255]);
    assert_eq!(cpu.getpc(), 0);
    assert!(!cpu.is_running());
}

#[test]
fn get_byte_fetches_and_advances() {
    let mut cpu = loaded(&[7, 8, 9]);
    assert_eq!(cpu.get_byte(), 7);
    assert_eq!(cpu.getpc(), 1);
    assert_eq!(cpu.get_byte(), 8);
    assert_eq!(cpu.get_byte(), 9);
    assert_eq!(cpu.getpc(), 3);
}

#[test]
fn get_bytes_fetches_a_number_and_advances() {
    let mut cpu = loaded(&[0x2C, 0x0F, 0x01, 0xF4, 0x01]);
    assert_eq!(cpu.get_bytes(3), 69420);
    assert_eq!(cpu.getpc(), 3);
    assert_eq!(cpu.get_bytes(2), 500);
    assert_eq!(cpu.getpc(), 5);
    assert_eq!(cpu.get_bytes(0), 0);
    assert_eq!(cpu.getpc(), 5);
}

#[test]
fn halt_clears_the_status_only() {
    let mut cpu = loaded(&[0, 0]);
    assert!(cpu.is_running());
    cpu.halt();
    assert!(!cpu.is_running());
    assert_eq!(cpu.getpc(), 0);
    assert_eq!(cpu.m_memory, vec![0, 0]);
}

#[test]
fn three_steps_add_four_and_six() {
    let mut cpu = loaded(&[1, 0, 4, 1, 1, 6, 9, 0, 1, 2]);
    assert_eq!(cpu.process(), Signal::Normal);
    assert_eq!(cpu.process(), Signal::Normal);
    assert_eq!(cpu.process(), Signal::Normal);
    assert_eq!(cpu.m_registers[0], 4);
    assert_eq!(cpu.m_registers[1], 6);
    assert_eq!(cpu.m_registers[2], 10);
    assert_eq!(cpu.getpc(), 10);
    assert!(cpu.is_running());
}

#[test]
fn five_hundred_times_ten_is_five_thousand() {
    let mut cpu = loaded(&[1, 0, 4, 1, 1, 6, 9, 0, 1, 2, 2, 0, 0xF4, 0x01, 11, 0, 2, 1]);
    for _ in 0..5 {
        assert_eq!(cpu.process(), Signal::Normal);
    }
    assert_eq!(cpu.m_registers[0], 500);
    assert_eq!(cpu.m_registers[2], 10);
    assert_eq!(cpu.m_registers[1], 5000);
}

#[test]
fn end_alone_halts_after_one_step() {
    let mut cpu = loaded(&[Instruction::END.opcode()]);
    let signal = cpu.process();
    assert_eq!(signal, Signal::Terminated);
    assert!(!signal.is_fault());
    assert!(!cpu.is_running());
    assert_eq!(cpu.getpc(), 1);
}

#[test]
fn stepping_past_the_end_exhausts_the_program() {
    let mut cpu = loaded(&[0]);
    assert_eq!(cpu.process(), Signal::Normal);
    assert!(cpu.is_running());
    assert_eq!(cpu.process(), Signal::ProgramExhausted);
    assert!(!cpu.is_running());
    assert_eq!(cpu.getpc(), 1);
    assert_eq!(cpu.process(), Signal::ProgramExhausted);
    assert_eq!(cpu.getpc(), 1);
}

#[test]
fn empty_memory_is_exhausted_at_once() {
    let mut cpu = loaded(&[]);
    assert_eq!(cpu.process(), Signal::ProgramExhausted);
    assert!(!cpu.is_running());
    assert_eq!(cpu.getpc(), 0);
}

#[test]
fn operands_cut_short_exhaust_the_program() {
    let mut cpu = loaded(&[1, 3]);
    assert_eq!(cpu.process(), Signal::ProgramExhausted);
    assert!(!cpu.is_running());
    assert_eq!(cpu.getpc(), 2);
    assert_eq!(cpu.m_registers, [0i64; 16]);

    let mut cpu = loaded(&[17, 1, 2, 3, 4, 5, 6, 7]);
    assert_eq!(cpu.process(), Signal::ProgramExhausted);
    assert!(!cpu.is_running());
    assert_eq!(cpu.getpc(), 8);
    assert!(cpu.m_stack.is_empty());

    let mut cpu = loaded(&[9, 0, 1]);
    assert_eq!(cpu.process(), Signal::ProgramExhausted);
    assert_eq!(cpu.getpc(), 3);
}

#[test]
fn cut_short_operands_come_before_the_register_check() {
    let mut cpu = loaded(&[2, 200, 1]);
    assert_eq!(cpu.process(), Signal::ProgramExhausted);
    assert_eq!(cpu.getpc(), 3);
}

#[test]
fn unknown_opcode_is_skipped_alone() {
    let mut cpu = loaded(&[22, 255, 1, 0, 9]);
    assert_eq!(cpu.process(), Signal::BadOpcode);
    assert!(cpu.is_running());
    assert_eq!(cpu.getpc(), 1);
    assert_eq!(cpu.process(), Signal::BadOpcode);
    assert!(cpu.is_running());
    assert_eq!(cpu.getpc(), 2);
    assert_eq!(cpu.process(), Signal::Normal);
    assert_eq!(cpu.m_registers[0], 9);
}

#[test]
fn cpuid_decodes_and_acts_as_a_bad_opcode() {
    let mut cpu = loaded(&[Instruction::CPUID.opcode(), 0]);
    assert_eq!(cpu.process(), Signal::BadOpcode);
    assert!(cpu.is_running());
    assert_eq!(cpu.getpc(), 1);
    assert_eq!(cpu.m_registers, [0i64; 16]);
}

#[test]
fn nop_only_advances() {
    let mut cpu = loaded(&[0, 0]);
    assert_eq!(cpu.process(), Signal::Normal);
    assert_eq!(cpu.getpc(), 1);
    assert_eq!(cpu.m_registers, [0i64; 16]);
    assert!(cpu.is_running());
}

#[test]
fn process_does_not_ask_for_the_status() {
    let mut cpu: Processor<Ignore> = Processor::new();
    cpu.load(&[1, 5, 77]);
    assert_eq!(cpu.process(), Signal::Normal);
    assert_eq!(cpu.m_registers[5], 77);
    assert!(!cpu.is_running());
}

#[test]
fn load_of_every_width_into_every_register() {
    let immediate = [0x11u8, 0x22, 0x33, 0x44, 0x55, 0x66, 0x77, 0x08];
    let expected: [i64; 8] = [
        0x11,
        0x2211,
        0x33_2211,
        0x4433_2211,
        0x55_4433_2211,
        0x6655_4433_2211,
        0x77_6655_4433_2211,
        0x0877_6655_4433_2211,
    ];
    for reg in 0..16u8 {
        for width in 1..=8usize {
            let mut bytes = vec![width as u8, reg];
            bytes.extend_from_slice(&immediate[..width]);
            let mut cpu = loaded(&bytes);
            cpu.m_registers = [-1; 16];
            assert_eq!(cpu.process(), Signal::Normal);
            for other in 0..16usize {
                if other == reg as usize {
                    assert_eq!(cpu.m_registers[other], expected[width - 1]);
                } else {
                    assert_eq!(cpu.m_registers[other], -1);
                }
            }
            assert_eq!(cpu.getpc(), 2 + width as u64);
            assert!(cpu.is_running());
        }
    }
}

#[test]
fn load_does_not_sign_extend() {
    let mut cpu = loaded(&[1, 0, 0xFF, 4, 1, 0xFF, 0xFF, 0xFF, 0xFF, 7, 2, 255, 255, 255, 255, 255, 255, 255]);
    assert_eq!(cpu.process(), Signal::Normal);
    assert_eq!(cpu.process(), Signal::Normal);
    assert_eq!(cpu.process(), Signal::Normal);
    assert_eq!(cpu.m_registers[0], 255);
    assert_eq!(cpu.m_registers[1], 0xFFFF_FFFF);
    assert_eq!(cpu.m_registers[2], 0x00FF_FFFF_FFFF_FFFF);
}

#[test]
fn load_of_eight_bytes_keeps_the_bits() {
    let mut cpu = loaded(&[8, 3, 0xFE, 0xFF, 0xFF, 0xFF, 0xFF, 0xFF, 0xFF, 0xFF, 8, 4, 0, 0, 0, 0, 0, 0, 0, 0x80]);
    assert_eq!(cpu.process(), Signal::Normal);
    assert_eq!(cpu.process(), Signal::Normal);
    assert_eq!(cpu.m_registers[3], -2);
    assert_eq!(cpu.m_registers[4], i64::MIN);
}

#[test]
fn load_into_a_register_that_is_not_there_faults() {
    let mut cpu = loaded(&[1, 16, 4, 0]);
    assert_eq!(cpu.process(), Signal::RegisterFault);
    assert!(!cpu.is_running());
    assert_eq!(cpu.getpc(), 3);
    assert_eq!(cpu.m_registers, [0i64; 16]);
}

#[test]
fn every_register_operand_is_checked() {
    for bytes in [
        vec![9u8, 16, 0, 0],
        vec![9, 0, 16, 0],
        vec![9, 0, 0, 16],
        vec![10, 255, 0, 0],
        vec![11, 0, 0, 99],
        vec![12, 0, 17, 0],
        vec![13, 16],
        vec![14, 16, 0],
        vec![14, 0, 16],
        vec![15, 0, 200],
        vec![16, 16, 16],
    ] {
        let mut cpu = loaded(&bytes);
        cpu.m_registers = [3; 16];
        assert_eq!(cpu.process(), Signal::RegisterFault);
        assert!(!cpu.is_running());
        assert_eq!(cpu.getpc(), bytes.len() as u64);
        assert_eq!(cpu.m_registers, [3i64; 16]);
    }
}

#[test]
fn arithmetic_reads_two_registers_and_writes_a_third() {
    let mut cpu = loaded(&[9, 1, 2, 3, 10, 1, 2, 4, 11, 1, 2, 5, 12, 1, 2, 6]);
    cpu.m_registers[1] = -7;
    cpu.m_registers[2] = 2;
    for _ in 0..4 {
        assert_eq!(cpu.process(), Signal::Normal);
    }
    assert_eq!(cpu.m_registers[1], -7);
    assert_eq!(cpu.m_registers[2], 2);
    assert_eq!(cpu.m_registers[3], -5);
    assert_eq!(cpu.m_registers[4], -9);
    assert_eq!(cpu.m_registers[5], -14);
    assert_eq!(cpu.m_registers[6], -3);
    assert_eq!(cpu.getpc(), 16);
}

#[test]
fn arithmetic_depends_on_its_sources_alone() {
    for opcode in 9..=12u8 {
        let mut first = loaded(&[opcode, 4, 5, 6]);
        first.m_registers[4] = 120;
        first.m_registers[5] = -7;
        let mut second = loaded(&[0, 0, opcode, 4, 5, 6]);
        second.m_registers = [1000; 16];
        second.m_registers[4] = 120;
        second.m_registers[5] = -7;
        second.m_program_counter = 2;
        second.m_stack.push(77);
        assert_eq!(first.process(), second.process());
        assert_eq!(first.m_registers[6], second.m_registers[6]);
        for other in 0..16 {
            if other != 6 {
                assert_eq!(second.m_registers[other], if other == 4 { 120 } else if other == 5 { -7 } else { 1000 });
            }
        }
        assert_eq!(second.m_stack, vec![77]);
    }
}

#[test]
fn arithmetic_may_write_one_of_its_sources() {
    let mut cpu = loaded(&[9, 0, 0, 0, 11, 0, 1, 1]);
    cpu.m_registers[0] = 21;
    cpu.m_registers[1] = 2;
    assert_eq!(cpu.process(), Signal::Normal);
    assert_eq!(cpu.m_registers[0], 42);
    assert_eq!(cpu.process(), Signal::Normal);
    assert_eq!(cpu.m_registers[1], 84);
}

#[test]
fn overflow_wraps_and_goes_on() {
    let mut cpu = loaded(&[9, 0, 1, 2, 10, 3, 1, 4, 11, 0, 5, 6, 0]);
    cpu.m_registers[0] = i64::MAX;
    cpu.m_registers[1] = 1;
    cpu.m_registers[3] = i64::MIN;
    cpu.m_registers[5] = 2;
    assert_eq!(cpu.process(), Signal::Overflowed);
    assert_eq!(cpu.m_registers[2], i64::MIN);
    assert!(cpu.is_running());
    assert_eq!(cpu.process(), Signal::Overflowed);
    assert_eq!(cpu.m_registers[4], i64::MAX);
    assert_eq!(cpu.process(), Signal::Overflowed);
    assert_eq!(cpu.m_registers[6], -2);
    assert!(cpu.is_running());
    assert_eq!(cpu.process(), Signal::Normal);
    assert_eq!(cpu.getpc(), 13);
}

#[test]
fn division_rounds_toward_zero() {
    let mut cpu = loaded(&[12, 0, 1, 2, 12, 3, 1, 4, 12, 0, 5, 6, 12, 3, 5, 7]);
    cpu.m_registers[0] = 7;
    cpu.m_registers[1] = 2;
    cpu.m_registers[3] = -7;
    cpu.m_registers[5] = -2;
    for _ in 0..4 {
        assert_eq!(cpu.process(), Signal::Normal);
    }
    assert_eq!(cpu.m_registers[2], 3);
    assert_eq!(cpu.m_registers[4], -3);
    assert_eq!(cpu.m_registers[6], -3);
    assert_eq!(cpu.m_registers[7], 3);
}

#[test]
fn division_by_zero_faults_and_halts() {
    let mut cpu = loaded(&[12, 0, 1, 2, 0]);
    cpu.m_registers[0] = 7;
    cpu.m_registers[2] = 99;
    let before = cpu.m_registers;
    assert_eq!(cpu.process(), Signal::DivisionFault);
    assert!(!cpu.is_running());
    assert_eq!(cpu.m_registers, before);
    assert_eq!(cpu.getpc(), 4);
    assert_eq!(cpu.m_memory, vec![12, 0, 1, 2, 0]);
}

#[test]
fn division_of_the_least_value_by_minus_one_wraps() {
    let mut cpu = loaded(&[12, 0, 1, 2]);
    cpu.m_registers[0] = i64::MIN;
    cpu.m_registers[1] = -1;
    assert_eq!(cpu.process(), Signal::Overflowed);
    assert_eq!(cpu.m_registers[2], i64::MIN);
    assert!(cpu.is_running());
}

#[test]
fn not_flips_in_place() {
    let mut cpu = loaded(&[13, 9, 13, 9]);
    cpu.m_registers[9] = 5;
    assert_eq!(cpu.process(), Signal::Normal);
    assert_eq!(cpu.m_registers[9], -6);
    assert_eq!(cpu.process(), Signal::Normal);
    assert_eq!(cpu.m_registers[9], 5);
    assert_eq!(cpu.getpc(), 4);
}

#[test]
fn bitwise_instructions_write_their_first_register() {
    let mut cpu = loaded(&[14, 0, 3, 15, 1, 3, 16, 2, 3]);
    cpu.m_registers[0] = 12;
    cpu.m_registers[1] = 12;
    cpu.m_registers[2] = 12;
    cpu.m_registers[3] = 10;
    for _ in 0..3 {
        assert_eq!(cpu.process(), Signal::Normal);
    }
    assert_eq!(cpu.m_registers[0], 8);
    assert_eq!(cpu.m_registers[1], 14);
    assert_eq!(cpu.m_registers[2], 6);
    assert_eq!(cpu.m_registers[3], 10);
    assert_eq!(cpu.getpc(), 9);
}

#[test]
fn bitwise_instructions_work_on_negative_values() {
    let mut cpu = loaded(&[14, 0, 3, 15, 1, 3, 16, 2, 3]);
    cpu.m_registers[0] = -1;
    cpu.m_registers[1] = i64::MIN;
    cpu.m_registers[2] = -1;
    cpu.m_registers[3] = 0x0F;
    for _ in 0..3 {
        assert_eq!(cpu.process(), Signal::Normal);
    }
    assert_eq!(cpu.m_registers[0], 0x0F);
    assert_eq!(cpu.m_registers[1], i64::MIN | 0x0F);
    assert_eq!(cpu.m_registers[2], -16);
}

#[test]
fn call_then_ret_comes_back_behind_the_operand() {
    let mut cpu = loaded(&[17, 10, 0, 0, 0, 0, 0, 0, 0, 19, 18]);
    assert_eq!(cpu.process(), Signal::Normal);
    assert_eq!(cpu.getpc(), 10);
    assert_eq!(cpu.m_stack, vec![9]);
    assert_eq!(cpu.process(), Signal::Normal);
    assert_eq!(cpu.getpc(), 9);
    assert!(cpu.m_stack.is_empty());
    assert_eq!(cpu.process(), Signal::Terminated);
}

#[test]
fn nested_calls_unwind_in_reverse_order() {
    let depth: usize = 6;
    let mut bytes = Vec::new();
    // A CALL and a RET every ten bytes; the last block starts with a RET.
    for level in 0..depth {
        bytes.push(17);
        bytes.extend_from_slice(&(10 * (level as u64 + 1)).to_le_bytes());
        bytes.push(if level == 0 { 19 } else { 18 });
    }
    bytes.push(18);
    let mut cpu = loaded(&bytes);
    for level in 0..depth {
        assert_eq!(cpu.process(), Signal::Normal);
        assert_eq!(cpu.getpc(), 10 * (level as u64 + 1));
        assert_eq!(cpu.m_stack.len(), level + 1);
        assert_eq!(*cpu.m_stack.last().unwrap(), 10 * level as u64 + 9);
    }
    for level in (0..depth).rev() {
        assert_eq!(cpu.process(), Signal::Normal);
        assert_eq!(cpu.getpc(), 10 * level as u64 + 9);
        assert_eq!(cpu.m_stack.len(), level);
    }
    assert!(cpu.m_stack.is_empty());
    assert_eq!(cpu.getpc(), 9);
    assert_eq!(cpu.process(), Signal::Terminated);
    assert_eq!(cpu.m_registers, [0i64; 16]);
}

#[test]
fn call_reads_its_address_least_significant_byte_first() {
    let mut cpu = loaded(&[17, 0x34, 0x12, 0, 0, 0, 0, 0, 0]);
    assert_eq!(cpu.process(), Signal::Normal);
    assert_eq!(cpu.getpc(), 0x1234);
    assert_eq!(cpu.m_stack, vec![9]);
    assert_eq!(cpu.process(), Signal::ProgramExhausted);
    assert!(!cpu.is_running());
}

#[test]
fn call_to_the_first_byte_starts_over() {
    let mut cpu = loaded(&[0, 17, 0, 0, 0, 0, 0, 0, 0, 0]);
    assert_eq!(cpu.process(), Signal::Normal);
    assert_eq!(cpu.process(), Signal::Normal);
    assert_eq!(cpu.getpc(), 0);
    assert_eq!(cpu.m_stack, vec![10]);
}

#[test]
fn call_takes_any_address() {
    let mut cpu = loaded(&[17, 255, 255, 255, 255, 255, 255, 255, 255]);
    assert_eq!(cpu.process(), Signal::Normal);
    assert_eq!(cpu.getpc(), u64::MAX);
    assert_eq!(cpu.process(), Signal::ProgramExhausted);
    assert_eq!(cpu.getpc(), u64::MAX);
}

#[test]
fn ret_on_an_empty_stack_faults() {
    let mut cpu = loaded(&[18, 0]);
    assert_eq!(cpu.process(), Signal::CallStackUnderflow);
    assert!(!cpu.is_running());
    assert_eq!(cpu.getpc(), 1);
    assert!(cpu.m_stack.is_empty());
}

#[test]
fn int_without_a_handler_faults() {
    let mut cpu = loaded(&[21, 7, 0]);
    assert_eq!(cpu.process(), Signal::UnhandledInterrupt);
    assert!(!cpu.is_running());
    assert_eq!(cpu.getpc(), 2);
}

#[test]
fn int_with_another_number_registered_faults() {
    let mut cpu: Processor<Count> = Processor::new();
    cpu.load(&[21, 7]);
    cpu.m_status = true;
    cpu.attach_int_handler(8, Count);
    assert_eq!(cpu.process(), Signal::UnhandledInterrupt);
    assert!(!cpu.is_running());
    assert_eq!(cpu.m_registers, [0i64; 16]);
}

#[test]
fn int_calls_its_handler_once_each_time() {
    let mut cpu: Processor<Count> = Processor::new();
    cpu.load(&[21, 7, 0, 21, 7, 21, 200, 19]);
    cpu.m_status = true;
    cpu.attach_int_handler(7, Count);
    cpu.attach_int_handler(200, Count);
    assert_eq!(cpu.process(), Signal::Normal);
    assert_eq!(cpu.m_registers[15], 1);
    assert_eq!(cpu.m_registers[14], 2);
    assert_eq!(cpu.m_registers[13], 7);
    assert_eq!(cpu.process(), Signal::Normal);
    assert_eq!(cpu.m_registers[15], 1);
    assert_eq!(cpu.process(), Signal::Normal);
    assert_eq!(cpu.m_registers[15], 2);
    assert_eq!(cpu.m_registers[14], 5);
    assert_eq!(cpu.process(), Signal::Normal);
    assert_eq!(cpu.m_registers[15], 3);
    assert_eq!(cpu.m_registers[14], 7);
    assert_eq!(cpu.m_registers[13], 200);
    assert!(cpu.is_running());
    assert_eq!(cpu.process(), Signal::Terminated);
    assert_eq!(cpu.m_registers[15], 3);
}

#[test]
fn a_handler_may_halt_the_processor() {
    let mut cpu: Processor<Mark> = Processor::new();
    cpu.load(&[21, 1, 0]);
    cpu.m_status = true;
    cpu.attach_int_handler(1, Mark::Halt);
    assert_eq!(cpu.process(), Signal::Normal);
    assert!(!cpu.is_running());
    assert_eq!(cpu.getpc(), 2);
}

#[test]
fn attaching_again_replaces_the_handler() {
    let mut cpu: Processor<Mark> = Processor::new();
    cpu.load(&[21, 1, 21, 1]);
    cpu.m_status = true;
    cpu.attach_int_handler(1, Mark::Write(11));
    assert_eq!(cpu.process(), Signal::Normal);
    assert_eq!(cpu.m_registers[0], 11);
    cpu.attach_int_handler(1, Mark::Write(22));
    assert_eq!(cpu.m_intlisteners.len(), 1);
    assert_eq!(cpu.process(), Signal::Normal);
    assert_eq!(cpu.m_registers[0], 22);
    assert!(cpu.is_running());
}

#[test]
fn the_handler_that_ignores_changes_nothing() {
    let mut cpu: Processor<Ignore> = Processor::new();
    cpu.load(&[21, 0, 19]);
    cpu.m_status = true;
    cpu.attach_int_handler(0, Ignore);
    assert_eq!(cpu.process(), Signal::Normal);
    assert!(cpu.is_running());
    assert_eq!(cpu.getpc(), 2);
    assert_eq!(cpu.m_registers, [0i64; 16]);
    assert!(cpu.m_stack.is_empty());
}

#[test]
fn dump_registers_lists_what_is_not_zero() {
    let mut cpu = loaded(&[]);
    assert_eq!(cpu.dump_registers(), vec![]);
    cpu.m_registers[15] = 72;
    cpu.m_registers[2] = -10;
    cpu.m_registers[0] = 4;
    assert_eq!(cpu.dump_registers(), vec![(0, 4), (2, -10), (15, 72)]);
    cpu.m_registers = [1; 16];
    assert_eq!(cpu.dump_registers().len(), 16);
}

#[test]
fn dump_stack_starts_at_the_top() {
    let mut cpu = loaded(&[]);
    assert_eq!(cpu.dump_stack(), Vec::<u64>::new());
    cpu.m_stack.push(9);
    cpu.m_stack.push(29);
    cpu.m_stack.push(49);
    assert_eq!(cpu.dump_stack(), vec![49, 29, 9]);
    assert_eq!(cpu.m_stack, vec![9, 29, 49]);
}

#[test]
fn emit_signal_pairs_the_counter_with_the_signal() {
    let mut cpu = loaded(&[0, 0, 0]);
    assert_eq!(cpu.emit_signal(Signal::BadOpcode), (0, Signal::BadOpcode));
    cpu.process();
    cpu.process();
    assert_eq!(cpu.emit_signal(Signal::Terminated), (2, Signal::Terminated));
}

#[test]
fn snapshot_copies_what_can_be_read() {
    let mut cpu = loaded(&[17, 9, 0, 0, 0, 0, 0, 0, 0, 1, 4, 33]);
    cpu.process();
    cpu.process();
    let copy = cpu.snapshot();
    assert_eq!(copy.memory, cpu.m_memory);
    assert_eq!(copy.pc, 12);
    assert_eq!(copy.stack, vec![9]);
    assert_eq!(copy.registers[4], 33);
    assert_eq!(copy.registers, cpu.m_registers);
    assert!(copy.running);
    cpu.process();
    assert_eq!(copy.pc, 12);
    assert!(copy.running);
    assert!(!cpu.is_running());
}

use plang_rust::bytecode::{Bytecode, Instr};
use plang_rust::interp::run;
use plang_rust::table::Table;

fn image(code: Vec<Instr>) -> Bytecode {
    let mut labels = Table::new();
    labels.insert(&"global".to_string(), &"main".to_string(), 0usize);
    Bytecode { bytecode: code, symbols: Table::new(), labels }
}

#[test]
fn jump_if_true_takes_the_branch() {
    let bc = image(vec![
        Instr::PushInt(1),
        Instr::PushInt(1),
        Instr::Eqeq,
        Instr::JumpIfTrue(6),
        Instr::PushInt(111),
        Instr::Exit,
        Instr::PushInt(222),
        Instr::Exit,
    ]);
    assert_eq!(run(bc), "222");
}

#[test]
fn jump_if_true_falls_through() {
    let bc = image(vec![
        Instr::PushInt(1),
        Instr::PushInt(2),
        Instr::Eqeq,
        Instr::JumpIfTrue(6),
        Instr::PushInt(111),
        Instr::Exit,
        Instr::PushInt(222),
        Instr::Exit,
    ]);
    assert_eq!(run(bc), "111");
}

#[test]
fn unconditional_jump() {
    let bc = image(vec![
        Instr::Jump(2),
        Instr::PushInt(111),
        Instr::PushInt(222),
        Instr::Exit,
    ]);
    assert_eq!(run(bc), "222");
}

#[test]
fn falling_off_the_end_publishes_the_top() {
    let bc = image(vec![Instr::PushInt(7)]);
    assert_eq!(run(bc), "7");
}

#[test]
fn reserved_opcode_publishes_nothing() {
    let bc = image(vec![Instr::Swap, Instr::Exit]);
    assert_eq!(run(bc), "");
}

#[test]
fn stack_underflow_publishes_nothing() {
    let bc = image(vec![Instr::Pop, Instr::Exit]);
    assert_eq!(run(bc), "");
}

#[test]
fn string_push_and_exit() {
    let bc = image(vec![Instr::PushStr("out".to_string()), Instr::Exit]);
    assert_eq!(run(bc), "out");
}

use chip8::stack::Stack;

#[test]
fn first_stack_test() {
    let mut stack = Stack::new();
    let _ = stack.push(0x84);
    assert_eq!(0x84, stack.pop().unwrap());
}

#[test]
fn second_stack_test() {
    let mut stack = Stack::new();
    assert_eq!(0, stack.size());
    let _ = stack.push(0x84);
    assert_eq!(1, stack.size());
    let _ = stack.push(0x84);
    assert_eq!(2, stack.size());
}

#[test]
fn third_stack_test() {
    let mut stack = Stack::new();
    for i in 0..15 {
        let _ = stack.push(i);
    }
    assert_eq!(Err("Stack is full!"), stack.push(16));
}

#[test]
fn fourth_stack_test() {
    let mut stack = Stack::new();
    let _ = stack.push(0x1);
    let _ = stack.push(0x2);
    let _ = stack.push(0x3);

    assert_eq!(0x3, stack.pop().unwrap());
    assert_eq!(0x2, stack.pop().unwrap());
    assert_eq!(0x1, stack.pop().unwrap());
    assert_eq!(Err("Empty stack!"), stack.pop());
}

#[test]
#[should_panic]
fn fifth_stack_test() {
    let mut stack = Stack::new();
    for _ in 0..16 {
        let res = stack.push(0);
        match res {
            Ok(_) => {}
            Err(e) => panic!("Done panicked: {}", e),
        }
    }
}

#[test]
fn pop_restores_after_push() {
    let mut stack = Stack::new();
    let _ = stack.push(7);
    let _ = stack.push(9);
    assert_eq!(Ok(()), stack.push(0xABC));
    assert_eq!(3, stack.size());
    assert_eq!(Ok(0xABC), stack.pop());
    assert_eq!(2, stack.size());
    assert_eq!(Ok(9), stack.pop());
    assert_eq!(Ok(7), stack.pop());
}

#[test]
fn full_stack_is_unchanged_by_push() {
    let mut stack = Stack::new();
    for i in 0..15u16 {
        assert_eq!(Ok(()), stack.push(i));
    }
    assert_eq!(15, stack.size());
    assert_eq!(Err("Stack is full!"), stack.push(99));
    assert_eq!(15, stack.size());
    assert_eq!(Ok(14), stack.pop());
}

#[test]
fn empty_pop_leaves_stack_usable() {
    let mut stack = Stack::new();
    assert_eq!(Err("Empty stack!"), stack.pop());
    assert_eq!(0, stack.size());
    assert_eq!(Ok(()), stack.push(5));
    assert_eq!(Ok(5), stack.pop());
}

use chip8::stack::Stack;

#[test]
fn new_stack_is_empty() {
    let s: Stack<u16> = Stack::new();
    assert!(s.is_empty());
    assert_eq!(s.length(), 0);
    assert_eq!(s.peek(), None);
}

#[test]
fn push_then_pop_returns_items_in_reverse_order() {
    let mut s: Stack<usize> = Stack::new();
    s.push(0x202);
    s.push(0x310);
    s.push(0x4A0);
    assert_eq!(s.length(), 3);
    assert!(!s.is_empty());
    assert_eq!(s.pop(), Some(0x4A0));
    assert_eq!(s.pop(), Some(0x310));
    assert_eq!(s.pop(), Some(0x202));
    assert_eq!(s.pop(), None);
    assert!(s.is_empty());
}

#[test]
fn pop_on_empty_stack_gives_none_and_changes_nothing() {
    let mut s: Stack<u8> = Stack::new();
    assert_eq!(s.pop(), None);
    assert_eq!(s.length(), 0);
    s.push(7);
    assert_eq!(s.length(), 1);
}

#[test]
fn peek_shows_the_top_without_removing_it() {
    let mut s: Stack<u32> = Stack::new();
    s.push(1);
    s.push(2);
    assert_eq!(s.peek(), Some(&2));
    assert_eq!(s.length(), 2);
    assert_eq!(s.pop(), Some(2));
    assert_eq!(s.peek(), Some(&1));
}

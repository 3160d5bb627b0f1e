use shared_handles::channel::{channel, Channel};

#[test]
fn one_shot_channel_delivers() {
    let mut ch = Channel::new();
    assert!(!ch.is_ready());
    ch.send("hello world!");
    assert!(ch.is_ready());
    assert_eq!(ch.receive(), "hello world!");
    assert!(!ch.is_ready());
}

#[test]
fn split_channel_delivers() {
    let (sender, mut receiver) = channel();
    assert!(!receiver.is_ready());
    sender.send(&mut receiver, "Hello World");
    assert!(receiver.is_ready());
    assert_eq!(receiver.receive(), "Hello World");
}

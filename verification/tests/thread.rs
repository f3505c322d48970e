use link_core::thread::{Error, ReplyTo, Status, Thread};

#[test]
fn check_view_of_new() {
    assert!(Thread::new("New thread").view() == Ok(&Status::Live("New thread")));
}

#[test]
fn check_root_followed_by_view() {
    let thread = Thread::new("New thread");
    assert!(*thread.view().unwrap() == Status::Live("New thread"));
}

#[test]
fn check_deleting_a_replied_comment_is_noop() {
    let mut thread = Thread::new("New thread");
    let old_thread = thread.clone();
    thread.reply("New comment", ReplyTo::Main);
    thread.delete().expect("Error");
    thread.prune();
    assert!(thread == old_thread);
}

#[test]
fn check_deleting_root_should_not_be_possible() {
    assert!(Thread::new("New thread").delete() == Err(Error::DeleteFirstMain));
}

#[test]
fn check_new_followed_by_edit_is_same_as_editing_followed_by_new() {
    let prepend = |mut body: String| {
        body.insert_str(0, "edit: ");
        body
    };
    let mut lhs = Thread::new(String::from("new thread"));
    lhs.edit(prepend).expect("Edit failed");
    let rhs = Thread::new(prepend(String::from("new thread")));
    assert!(lhs == rhs);
}

#[test]
fn navigation_follows_replies() {
    let mut thread = Thread::new("root");
    thread.reply("first main", ReplyTo::Main);
    thread.reply("reply to first", ReplyTo::Thread);
    assert_eq!(thread.view(), Ok(&Status::Live("reply to first")));
    thread.previous_reply(ReplyTo::Thread).unwrap();
    assert_eq!(thread.view(), Ok(&Status::Live("first main")));
    // One more step within the reply thread lands on the main-thread item
    // itself, and from there the main thread leads back to the root.
    thread.previous_reply(ReplyTo::Thread).unwrap();
    assert_eq!(thread.view(), Ok(&Status::Live("first main")));
    thread.previous_reply(ReplyTo::Main).unwrap();
    assert_eq!(thread.view(), Ok(&Status::Live("root")));
    thread.next_reply(ReplyTo::Main).unwrap();
    assert_eq!(thread.view(), Ok(&Status::Live("first main")));
    thread.next_reply(ReplyTo::Thread).unwrap();
    assert_eq!(thread.view(), Ok(&Status::Live("reply to first")));
}

#[test]
fn navigation_errors() {
    let mut empty = Thread::new("root");
    assert_eq!(empty.previous_reply(ReplyTo::Main), Err(Error::PreviousMainOutOfBounds));
    assert_eq!(empty.next_reply(ReplyTo::Main), Err(Error::NextMainOutOfBounds));

    let mut thread = Thread::new("root");
    thread.reply("only main", ReplyTo::Main);
    assert_eq!(thread.next_reply(ReplyTo::Main), Err(Error::NextMainOutOfBounds));
    assert_eq!(thread.next_reply(ReplyTo::Thread), Err(Error::NextRepliesOutOfBound));
    // Not at the first main item, a thread-wise step back has no reply
    // thread to move in.
    thread.reply("second main", ReplyTo::Main);
    assert_eq!(thread.previous_reply(ReplyTo::Thread), Err(Error::PreviousThreadOnMain));

    let mut with_reply = Thread::new("root");
    with_reply.reply("main", ReplyTo::Main);
    with_reply.reply("reply", ReplyTo::Thread);
    assert_eq!(with_reply.next_reply(ReplyTo::Thread), Err(Error::NextRepliesOutOfBound));
    assert_eq!(with_reply.previous_reply(ReplyTo::Main), Err(Error::PreviousMainOutOfBounds));
}

#[test]
fn delete_marks_dead_in_place() {
    let mut thread = Thread::new("root");
    thread.reply("first", ReplyTo::Main);
    thread.reply("second", ReplyTo::Main);
    thread.delete().unwrap();
    assert_eq!(thread.view(), Ok(&Status::Dead("second")));
    thread.previous_reply(ReplyTo::Main).unwrap();
    assert_eq!(thread.view(), Ok(&Status::Live("first")));
}

#[test]
fn status_accessors() {
    let live = Status::Live(5);
    assert_eq!(live.get(), &5);
    assert_eq!(live.live(), Some(&5));
    assert_eq!(live.dead(), None);
    let dead = Status::Dead(6);
    assert_eq!(dead.get(), &6);
    assert_eq!(dead.live(), None);
    assert_eq!(dead.dead(), Some(&6));
}

#[test]
fn expand_from_root_lists_main_thread() {
    let mut thread = Thread::new("root");
    thread.reply("a", ReplyTo::Main);
    thread.reply("a1", ReplyTo::Thread);
    thread.reply("b", ReplyTo::Main);
    thread.root();
    let expanded = thread.expand();
    assert_eq!(expanded.len(), 3);
    assert_eq!(expanded.get(0), &Status::Live("root"));
    assert_eq!(expanded.get(1), &Status::Live("a"));
    assert_eq!(expanded.get(2), &Status::Live("b"));
}

#[test]
fn expand_from_reply_lists_whole_group() {
    let mut thread = Thread::new("root");
    thread.reply("a", ReplyTo::Main);
    thread.reply("a1", ReplyTo::Thread);
    thread.reply("a2", ReplyTo::Thread);
    let expanded = thread.expand();
    assert_eq!(expanded.len(), 3);
    assert_eq!(expanded.get(0), &Status::Live("a"));
    assert_eq!(expanded.get(1), &Status::Live("a1"));
    assert_eq!(expanded.get(2), &Status::Live("a2"));
}

#[test]
fn prune_drops_dead_replies_and_empty_groups() {
    let mut thread = Thread::new("root");
    thread.reply("keep", ReplyTo::Main);
    thread.reply("drop", ReplyTo::Main);
    thread.delete().unwrap();
    thread.prune();
    let expanded = thread.expand();
    assert_eq!(expanded.len(), 2);
    assert_eq!(expanded.get(0), &Status::Live("root"));
    assert_eq!(expanded.get(1), &Status::Live("keep"));
}

#[test]
fn edit_keeps_deleted_items_dead() {
    let mut thread = Thread::new("root");
    thread.reply("note", ReplyTo::Main);
    thread.delete().unwrap();
    thread.edit(|_: &str| "rewritten").unwrap();
    assert_eq!(thread.view(), Ok(&Status::Dead("rewritten")));
}

use book_exercises::blog::{Post, State};

#[test]
fn a_post_shows_its_text_once_published() {
    let mut post = Post::new();

    post.add_text("I ate a salad for lunch today");
    assert_eq!("", post.content());

    post.request_review();
    assert_eq!("", post.content());

    post.approve();
    assert_eq!("I ate a salad for lunch today", post.content());
}

#[test]
fn approving_a_draft_changes_nothing() {
    let mut post = Post::new();
    post.add_text("draft");
    post.approve();
    assert_eq!(post.current_state(), State::Draft);
    assert_eq!(post.content(), "");
    post.request_review();
    assert_eq!(post.current_state(), State::PendingReview);
    post.request_review();
    assert_eq!(post.current_state(), State::PendingReview);
    post.approve();
    assert_eq!(post.current_state(), State::Published);
    post.request_review();
    post.approve();
    assert_eq!(post.current_state(), State::Published);
    assert_eq!(post.content(), "draft");
}

#[test]
fn text_is_added_in_every_state() {
    let mut post = Post::new();
    assert_eq!(post.current_state(), State::Draft);
    post.add_text("a");
    post.request_review();
    post.add_text("b");
    post.approve();
    post.add_text("c");
    assert_eq!(post.content(), "abc");
}

#[test]
fn states_step_as_the_review_goes() {
    assert_eq!(State::Draft.request_review(), State::PendingReview);
    assert_eq!(State::PendingReview.request_review(), State::PendingReview);
    assert_eq!(State::Published.request_review(), State::Published);
    assert_eq!(State::Draft.approve(), State::Draft);
    assert_eq!(State::PendingReview.approve(), State::Published);
    assert_eq!(State::Published.approve(), State::Published);
}

use workbench::blog;
use workbench::blog2;
use workbench::blog3;

#[test]
fn state_post_shows_content_only_when_published() {
    let mut post = blog::Post::new();
    post.add_text("I ate state salad for lunch today");
    assert_eq!("", post.content());
    post.request_review();
    assert_eq!("", post.content());
    post.approve();
    assert_eq!("I ate state salad for lunch today", post.content());
}

#[test]
fn state_post_is_not_approved_before_review() {
    let mut post = blog::Post::new();
    post.add_text("draft");
    post.approve();
    assert_eq!("", post.content());
    post.approve();
    assert_eq!("", post.content());
    post.request_review();
    post.request_review();
    assert_eq!("", post.content());
    post.approve();
    assert_eq!("draft", post.content());
    post.request_review();
    post.approve();
    assert_eq!("draft", post.content());
}

#[test]
fn state_post_takes_text_at_every_stage() {
    let mut post = blog::Post::new();
    post.add_text("a");
    post.request_review();
    post.add_text("b");
    post.approve();
    post.add_text("c");
    assert_eq!("abc", post.content());
}

#[test]
fn enum_post_shows_content_only_when_published() {
    let mut post = blog2::Post::new();
    post.add_text("I ate enum salad for lunch today");
    assert_eq!("", post.content());
    post.request_review();
    assert_eq!("", post.content());
    post.approve();
    assert_eq!("I ate enum salad for lunch today", post.content());
}

#[test]
fn enum_post_takes_text_only_as_a_draft() {
    let mut post = blog2::Post::new();
    post.add_text("a");
    post.add_text("b");
    post.request_review();
    post.add_text("c");
    post.approve();
    post.add_text("d");
    assert_eq!("ab", post.content());
}

#[test]
fn enum_post_is_not_approved_before_review() {
    let mut post = blog2::Post::new();
    post.add_text("draft");
    post.approve();
    assert_eq!("", post.content());
    post.request_review();
    post.approve();
    assert_eq!("draft", post.content());
    post.request_review();
    post.approve();
    assert_eq!("draft", post.content());
}

#[test]
fn typed_post_carries_its_text_through_the_stages() {
    let mut post_draft = blog3::Post::new();
    post_draft.add_text("I ate type salad for lunch today");
    let pending_review_post = post_draft.request_review();
    let post = pending_review_post.approve();
    assert_eq!("I ate type salad for lunch today", post.content());
}

#[test]
fn typed_post_appends_text_in_order() {
    let mut draft = blog3::Post::new();
    draft.add_text("one ");
    draft.add_text("");
    draft.add_text("two");
    assert_eq!("one two", draft.request_review().approve().content());
    assert_eq!("", blog3::Post::new().request_review().approve().content());
}

//! A blog post whose stage is its type: a draft can take text, a draft under
//! review can only be approved, and only an approved post shows its content.

use vstd::prelude::*;
use vstd::string::StringExecFns;

verus! {

/// A published post.
pub struct Post {
    content: String,
}

/// A post that is being written.
pub struct PostDraft {
    content: String,
}

/// A draft that waits for approval.
pub struct PendingReview {
    content: String,
}

impl View for Post {
    type V = Seq<char>;

    closed spec fn view(&self) -> Seq<char> {
        self.content@
    }
}

impl View for PostDraft {
    type V = Seq<char>;

    closed spec fn view(&self) -> Seq<char> {
        self.content@
    }
}

impl View for PendingReview {
    type V = Seq<char>;

    closed spec fn view(&self) -> Seq<char> {
        self.content@
    }
}

impl Post {
    /// An empty draft: every post begins as one.
    pub fn new() -> (draft: PostDraft)
        ensures
            draft@ == Seq::<char>::empty(),
    {
        PostDraft { content: String::new() }
    }

    /// The text of the post.
    pub fn content(&self) -> (text: &str)
        ensures
            text@ == self@,
    {
        self.content.as_str()
    }
}

impl PostDraft {
    /// Adds `text` at the end of the draft.
    pub fn add_text(&mut self, text: &str)
        ensures
            final(self)@ == old(self)@ + text@,
    {
        self.content.append(text);
    }

    /// Hands the draft in for review, with its text as it is.
    pub fn request_review(self) -> (pending: PendingReview)
        ensures
            pending@ == self@,
    {
        PendingReview { content: self.content }
    }
}

impl PendingReview {
    /// Approves the draft: it becomes a post with the same text.
    pub fn approve(self) -> (post: Post)
        ensures
            post@ == self@,
    {
        Post { content: self.content }
    }
}

} // verus!

//! A blog post whose stages are the variants of one enum. A draft takes text;
//! a post that is published carries the text it was approved with.

use vstd::prelude::*;
use vstd::string::StringExecFns;

verus! {

/// The stage of a post, with what that stage carries.
enum State {
    Draft(String),
    PendingReview(String),
    Published(String),
}

/// The stages of a post's life.
#[derive(Clone, Copy, Debug, PartialEq, Eq, Structural)]
pub enum Stage {
    Draft,
    PendingReview,
    Published,
}

/// A blog post.
pub struct Post {
    state: State,
    content: String,
}

/// The mathematical content of a [`Post`].
pub struct PostView {
    pub stage: Stage,
    /// The text written into the post.
    pub text: Seq<char>,
    /// What a reader sees: the text the post was published with, nothing
    /// before.
    pub visible: Seq<char>,
}

impl View for Post {
    type V = PostView;

    closed spec fn view(&self) -> PostView {
        PostView {
            stage: match self.state {
                State::Draft(_) => Stage::Draft,
                State::PendingReview(_) => Stage::PendingReview,
                State::Published(_) => Stage::Published,
            },
            text: self.content@,
            visible: match self.state {
                State::Published(shown) => shown@,
                _ => Seq::empty(),
            },
        }
    }
}

impl PostView {
    /// The post after text was offered to it: a draft takes it, any other
    /// stage lets it pass.
    pub open spec fn with_text(self, text: Seq<char>) -> PostView {
        if self.stage == Stage::Draft {
            PostView { text: self.text + text, ..self }
        } else {
            self
        }
    }

    /// The post after a review was requested: a draft goes under review, any
    /// other stage stays.
    pub open spec fn reviewed(self) -> PostView {
        if self.stage == Stage::Draft {
            PostView { stage: Stage::PendingReview, ..self }
        } else {
            self
        }
    }

    /// The post after it was approved: a draft under review is published
    /// with its text, any other stage stays.
    pub open spec fn approved(self) -> PostView {
        if self.stage == Stage::PendingReview {
            PostView { stage: Stage::Published, visible: self.text, ..self }
        } else {
            self
        }
    }
}

impl Post {
    /// An empty draft.
    pub fn new() -> (post: Post)
        ensures
            post@ == (PostView {
                stage: Stage::Draft,
                text: Seq::empty(),
                visible: Seq::empty(),
            }),
    {
        Post { state: State::Draft(String::new()), content: String::new() }
    }

    /// Adds `text` at the end of a draft; at any other stage nothing changes.
    pub fn add_text(&mut self, text: &str)
        ensures
            final(self)@ == old(self)@.with_text(text@),
    {
        match self.state {
            State::Draft(_) => {
                self.content.append(text);
            },
            _ => {},
        }
    }

    /// Hands a draft in for review; at any other stage nothing changes.
    pub fn request_review(&mut self)
        ensures
            final(self)@ == old(self)@.reviewed(),
    {
        match self.state {
            State::Draft(_) => {
                self.state = State::PendingReview(String::new());
            },
            _ => {},
        }
    }

    /// Publishes a draft under review; at any other stage nothing changes.
    pub fn approve(&mut self)
        ensures
            final(self)@ == old(self)@.approved(),
    {
        match self.state {
            State::PendingReview(_) => {
                self.state = State::Published(self.content.clone());
            },
            _ => {},
        }
    }

    /// What a reader sees of the post.
    pub fn content(&self) -> (text: &str)
        ensures
            text@ == self@.visible,
    {
        match &self.state {
            State::Published(shown) => shown.as_str(),
            _ => {
                proof {
                    reveal_strlit("");
                }
                ""
            },
        }
    }
}

/// A post shows nothing until it was handed in and then approved, in that
/// order, and then it shows all that was written while it was a draft.
pub proof fn law_only_reviewed_posts_are_published(post: PostView, text: Seq<char>)
    requires
        post.stage == Stage::Draft,
        post.visible == Seq::<char>::empty(),
    ensures
        post.approved().visible == Seq::<char>::empty(),
        post.approved().reviewed().visible == Seq::<char>::empty(),
        post.with_text(text).reviewed().approved().visible == post.text + text,
        post.reviewed().with_text(text).approved().visible == post.text,
{
}

} // verus!

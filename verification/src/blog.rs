//! A blog post that moves through its stages by handing each request to the
//! state it is in: a draft is handed in for review, a draft under review is
//! approved, and only a published post shows its content.

use vstd::prelude::*;
use vstd::string::StringExecFns;

verus! {

/// The state a post is in. Each state answers the requests in its own way.
#[derive(Clone, Copy, Debug, PartialEq, Eq, Structural)]
pub enum State {
    Draft,
    PendingReview,
    Published,
}

impl State {
    /// The state that follows when a review is requested.
    pub open spec fn reviewed(self) -> State {
        match self {
            State::Draft => State::PendingReview,
            other => other,
        }
    }

    /// The state that follows when the post is approved.
    pub open spec fn approved(self) -> State {
        match self {
            State::PendingReview => State::Published,
            other => other,
        }
    }

    /// A draft goes under review; the other states stay as they are.
    fn request_review(self) -> (next: State)
        ensures
            next == self.reviewed(),
    {
        match self {
            State::Draft => State::PendingReview,
            State::PendingReview => State::PendingReview,
            State::Published => State::Published,
        }
    }

    /// A draft under review is published; the other states stay as they are:
    /// no post is approved before a review was requested.
    fn approve(self) -> (next: State)
        ensures
            next == self.approved(),
    {
        match self {
            State::Draft => State::Draft,
            State::PendingReview => State::Published,
            State::Published => State::Published,
        }
    }

    /// What a post in this state shows: its text once published, nothing
    /// before.
    fn content<'a>(&self, post: &'a Post) -> (text: &'a str)
        ensures
            text@ == if *self == State::Published {
                post@.text
            } else {
                Seq::<char>::empty()
            },
    {
        match self {
            State::Published => post.content.as_str(),
            _ => {
                proof {
                    reveal_strlit("");
                }
                ""
            },
        }
    }
}

/// A blog post.
pub struct Post {
    state: State,
    content: String,
}

/// The mathematical content of a [`Post`].
pub struct PostView {
    pub state: State,
    /// Everything written into the post, shown or not.
    pub text: Seq<char>,
}

impl View for Post {
    type V = PostView;

    closed spec fn view(&self) -> PostView {
        PostView { state: self.state, text: self.content@ }
    }
}

impl PostView {
    /// What a reader sees: the text once the post is published, nothing
    /// before.
    pub open spec fn visible(self) -> Seq<char> {
        if self.state == State::Published {
            self.text
        } else {
            Seq::empty()
        }
    }
}

impl Post {
    /// An empty draft.
    pub fn new() -> (post: Post)
        ensures
            post@ == (PostView { state: State::Draft, text: Seq::empty() }),
    {
        Post { state: State::Draft, content: String::new() }
    }

    /// Adds `text` at the end of the post, whatever its state.
    pub fn add_text(&mut self, text: &str)
        ensures
            final(self)@ == (PostView { text: old(self)@.text + text@, ..old(self)@ }),
    {
        self.content.append(text);
    }

    /// Hands a draft in for review; in any other state nothing changes.
    pub fn request_review(&mut self)
        ensures
            final(self)@ == (PostView { state: old(self)@.state.reviewed(), ..old(self)@ }),
    {
        self.state = self.state.request_review();
    }

    /// Publishes a draft under review; in any other state nothing changes.
    pub fn approve(&mut self)
        ensures
            final(self)@ == (PostView { state: old(self)@.state.approved(), ..old(self)@ }),
    {
        self.state = self.state.approve();
    }

    /// What a reader sees of the post.
    pub fn content(&self) -> (text: &str)
        ensures
            text@ == self@.visible(),
    {
        self.state.content(self)
    }
}

} // verus!

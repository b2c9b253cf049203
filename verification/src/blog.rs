//! A blog post on its way from draft through review to publication. Its
//! text can be read only once the post is published.

use vstd::prelude::*;
use vstd::string::StringExecFns;

verus! {

/// Where a post stands.
#[derive(Clone, Copy, Debug, PartialEq, Eq, Structural)]
pub enum State {
    Draft,
    PendingReview,
    Published,
}

impl State {
    /// The state after a review was requested: a draft is then pending
    /// review, and nothing else changes.
    pub open spec fn after_request(self) -> State {
        match self {
            State::Draft => State::PendingReview,
            State::PendingReview => State::PendingReview,
            State::Published => State::Published,
        }
    }

    /// The state after an approval: a post pending review is then
    /// published, and nothing else changes.
    pub open spec fn after_approval(self) -> State {
        match self {
            State::Draft => State::Draft,
            State::PendingReview => State::Published,
            State::Published => State::Published,
        }
    }

    /// The state after a review was requested.
    pub fn request_review(self) -> (next: State)
        ensures
            next == self.after_request(),
    {
        match self {
            State::Draft => State::PendingReview,
            State::PendingReview => State::PendingReview,
            State::Published => State::Published,
        }
    }

    /// The state after an approval.
    pub fn approve(self) -> (next: State)
        ensures
            next == self.after_approval(),
    {
        match self {
            State::Draft => State::Draft,
            State::PendingReview => State::Published,
            State::Published => State::Published,
        }
    }
}

/// A post: its state and the text written so far.
pub struct Post {
    state: State,
    content: String,
}

impl Post {
    /// Where the post stands.
    pub closed spec fn state(&self) -> State {
        self.state
    }

    /// The text written so far, whether it can be read or not.
    pub closed spec fn text(&self) -> Seq<char> {
        self.content@
    }

    /// What a reader sees: the text of a published post, and nothing of
    /// any other.
    pub open spec fn visible(&self) -> Seq<char> {
        if self.state() == State::Published {
            self.text()
        } else {
            Seq::empty()
        }
    }

    /// An empty draft.
    pub fn new() -> (post: Post)
        ensures
            post.state() == State::Draft,
            post.text() == Seq::<char>::empty(),
    {
        Post { state: State::Draft, content: String::new() }
    }

    /// Adds `text` to the end of the post, whatever its state.
    pub fn add_text(&mut self, text: &str)
        ensures
            final(self).text() == old(self).text() + text@,
            final(self).state() == old(self).state(),
    {
        self.content.append(text);
    }

    /// What a reader sees of the post.
    pub fn content(&self) -> (shown: &str)
        ensures
            shown@ == self.visible(),
    {
        match self.state {
            State::Published => self.content.as_str(),
            _ => {
                proof {
                    reveal_strlit("");
                    assert(""@ == Seq::<char>::empty());
                }
                ""
            },
        }
    }

    /// Asks for a review of the post.
    pub fn request_review(&mut self)
        ensures
            final(self).state() == old(self).state().after_request(),
            final(self).text() == old(self).text(),
    {
        self.state = self.state.request_review();
    }

    /// Approves the post.
    pub fn approve(&mut self)
        ensures
            final(self).state() == old(self).state().after_approval(),
            final(self).text() == old(self).text(),
    {
        self.state = self.state.approve();
    }

    /// The state of the post.
    pub fn current_state(&self) -> (state: State)
        ensures
            state == self.state(),
    {
        self.state
    }
}

/// A post is published only by an approval that follows a request for
/// review: approving a draft changes nothing, and no step takes a
/// published post back.
pub proof fn lemma_publication_needs_review(state: State)
    ensures
        State::Draft.after_approval() == State::Draft,
        State::Draft.after_request().after_approval() == State::Published,
        state.after_approval() == State::Published ==> state != State::Draft,
        State::Published.after_request() == State::Published,
        State::Published.after_approval() == State::Published,
        state.after_request().after_request() == state.after_request(),
        state.after_approval().after_approval() == state.after_approval(),
{
}

} // verus!

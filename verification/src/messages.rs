//! Chat messages and the log that numbers and keeps them.

use std::sync::Arc;
use vstd::prelude::*;

verus! {

/// What a message says, as plain values.
pub struct MessageView {
    pub index: nat,
    pub user: Seq<char>,
    pub message: Seq<char>,
}

/// One chat message: who said what, and its place in the log.
#[derive(Debug, PartialEq, Eq)]
pub struct MessagePayload {
    pub index: usize,
    pub user: Arc<String>,
    pub message: Arc<String>,
}

impl View for MessagePayload {
    type V = MessageView;

    open spec fn view(&self) -> MessageView {
        MessageView { index: self.index as nat, user: self.user@, message: self.message@ }
    }
}

impl MessagePayload {
    /// The message that `user` posts as number `index`.
    pub fn new(user: String, message: String, index: usize) -> (payload: Self)
        ensures
            payload.index == index,
            *payload.user == user,
            *payload.message == message,
    {
        MessagePayload { index, user: Arc::new(user), message: Arc::new(message) }
    }
}

impl Clone for MessagePayload {
    /// A second handle on the same message; the texts are shared, not copied.
    fn clone(&self) -> (copy: Self)
        ensures
            copy == *self,
    {
        MessagePayload {
            index: self.index,
            user: self.user.clone(),
            message: self.message.clone(),
        }
    }
}

/// What a sequence of messages says, message by message.
pub open spec fn views_of(messages: Seq<MessagePayload>) -> Seq<MessageView> {
    messages.map_values(|m: MessagePayload| m@)
}

/// Every message of the log carries its own position as its index: the
/// indices start at 0, rise by one, and leave no gap.
pub open spec fn numbered(log: Seq<MessageView>) -> bool {
    forall|i: int| 0 <= i < log.len() ==> (#[trigger] log[i]).index == i
}

/// The log after `user` has posted `message` to it: the new message gets the
/// next free index and goes to the end.
pub open spec fn posted(log: Seq<MessageView>, user: Seq<char>, message: Seq<char>) -> Seq<
    MessageView,
> {
    log.push(MessageView { index: log.len(), user, message })
}

/// The log after each of `posts`, a pair of user and text, has been posted to
/// it in turn.
pub open spec fn posted_all(log: Seq<MessageView>, posts: Seq<(Seq<char>, Seq<char>)>) -> Seq<
    MessageView,
>
    decreases posts.len(),
{
    if posts.len() == 0 {
        log
    } else {
        posted(posted_all(log, posts.drop_last()), posts.last().0, posts.last().1)
    }
}

/// The append-only log of all messages, in the order of their indices.
#[derive(Debug)]
pub struct Messages {
    messages: Vec<MessagePayload>,
}

impl View for Messages {
    type V = Seq<MessageView>;

    closed spec fn view(&self) -> Seq<MessageView> {
        views_of(self.messages@)
    }
}

impl Messages {
    #[verifier::type_invariant]
    spec fn in_sequence(&self) -> bool {
        numbered(views_of(self.messages@))
    }

    /// An empty log; the first message will be number 0.
    pub fn new() -> (log: Self)
        ensures
            log@ == Seq::<MessageView>::empty(),
    {
        let log = Messages { messages: Vec::new() };
        assert(views_of(log.messages@) =~= Seq::<MessageView>::empty());
        log
    }

    /// Appends what `user` says, and returns the message as it was stored,
    /// with the index it was given: the number of messages stored before.
    pub fn send(&mut self, user: &str, message: &str) -> (payload: MessagePayload)
        ensures
            final(self)@ == posted(old(self)@, user@, message@),
            payload@ == final(self)@.last(),
            numbered(final(self)@),
    {
        proof {
            use_type_invariant(&*self);
        }
        let index = self.messages.len();
        let payload = MessagePayload::new(user.to_owned(), message.to_owned(), index);
        let stored = payload.clone();
        proof {
            assert(views_of(self.messages@.push(stored)) =~= posted(
                views_of(self.messages@),
                user@,
                message@,
            ));
        }
        // The messages are taken out to be changed and put back numbered, so
        // that the log is numbered at every moment.
        let mut messages: Vec<MessagePayload> = Vec::new();
        core::mem::swap(&mut self.messages, &mut messages);
        messages.push(stored);
        self.messages = messages;
        payload
    }

    /// All messages in the order of their indices.
    pub fn list(&self) -> (messages: Vec<MessagePayload>)
        ensures
            views_of(messages@) == self@,
            numbered(views_of(messages@)),
    {
        proof {
            use_type_invariant(self);
        }
        let messages = self.messages.clone();
        proof {
            assert(views_of(messages@) =~= views_of(self.messages@));
        }
        messages
    }
}

/// Posting to a numbered log leaves it numbered, whatever is posted.
pub proof fn lemma_posted_all_numbered(log: Seq<MessageView>, posts: Seq<(Seq<char>, Seq<char>)>)
    requires
        numbered(log),
    ensures
        numbered(posted_all(log, posts)),
        posted_all(log, posts).len() == log.len() + posts.len(),
        forall|i: int| 0 <= i < log.len() ==> posted_all(log, posts)[i] == log[i],
        forall|i: int|
            log.len() <= i < log.len() + posts.len() ==> #[trigger] posted_all(log, posts)[i]
                == (MessageView {
                index: i as nat,
                user: posts[i - log.len()].0,
                message: posts[i - log.len()].1,
            }),
    decreases posts.len(),
{
    if posts.len() > 0 {
        lemma_posted_all_numbered(log, posts.drop_last());
    }
}

/// Any number of posts to an empty log get the indices 0, 1, 2 and so on in
/// the order in which they were made, none twice and none left out, and the
/// log then holds the posts in that order, each with what was posted.
pub proof fn lemma_posts_get_successive_indices(posts: Seq<(Seq<char>, Seq<char>)>)
    ensures
        posted_all(Seq::empty(), posts).len() == posts.len(),
        forall|k: int|
            0 <= k < posts.len() ==> #[trigger] posted_all(Seq::empty(), posts)[k]
                == (MessageView { index: k as nat, user: posts[k].0, message: posts[k].1 }),
{
    lemma_posted_all_numbered(Seq::empty(), posts);
}

} // verus!

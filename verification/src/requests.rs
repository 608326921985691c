//! What the relay is asked and what it answers, and the part of each request
//! that works on the registry or the log.

use vstd::prelude::*;
use crate::messages::MessagePayload;
use crate::messages::Messages;
use crate::messages::numbered;
use crate::messages::posted;
use crate::messages::views_of;
use crate::users::Users;
use crate::users::lists_in_order;
use crate::users::names_of;

verus! {

/// A user asks to sign in.
#[derive(Debug, PartialEq, Eq)]
pub struct SignInRequest {
    pub user: String,
}

/// The answer to a sign-in, which is also what the hub publishes of it.
#[derive(Debug, PartialEq, Eq)]
pub struct SignInResponse {
    pub user: String,
}

impl Clone for SignInResponse {
    fn clone(&self) -> (copy: Self)
        ensures
            copy == *self,
    {
        SignInResponse { user: self.user.clone() }
    }
}

/// The names of all users who have signed in.
#[derive(Debug, PartialEq, Eq)]
pub struct UsersListResponse {
    pub users: Vec<String>,
}

impl Clone for UsersListResponse {
    fn clone(&self) -> (copy: Self)
        ensures
            names_of(copy.users@) == names_of(self.users@),
    {
        let copy = UsersListResponse { users: self.users.clone() };
        assert(names_of(copy.users@) =~= names_of(self.users@));
        copy
    }
}

/// All messages so far.
#[derive(Debug, PartialEq, Eq)]
pub struct MessagesListResponse {
    pub messages: Vec<MessagePayload>,
}

impl Clone for MessagesListResponse {
    fn clone(&self) -> (copy: Self)
        ensures
            views_of(copy.messages@) == views_of(self.messages@),
    {
        let copy = MessagesListResponse { messages: self.messages.clone() };
        assert(views_of(copy.messages@) =~= views_of(self.messages@));
        copy
    }
}

/// A user posts a message.
#[derive(Debug, PartialEq, Eq)]
pub struct MessageSendRequest {
    pub user: String,
    pub message: String,
}

impl Clone for MessageSendRequest {
    fn clone(&self) -> (copy: Self)
        ensures
            copy == *self,
    {
        MessageSendRequest { user: self.user.clone(), message: self.message.clone() }
    }
}

/// The answer to a post: the index that the message was given.
#[derive(Debug, Clone, Copy, PartialEq, Eq)]
pub struct MessageSendResponse {
    pub index: usize,
}

/// Signs the user of `request` in, and returns the answer, which is then to
/// be published. Signing in again changes nothing and is answered the same.
pub fn signin(request: SignInRequest, users: &mut Users) -> (response: SignInResponse)
    ensures
        final(users)@ == old(users)@.insert(request.user@),
        response.user == request.user,
{
    users.add_user(request.user.as_str());
    SignInResponse { user: request.user }
}

/// Answers with the names of all users, in ascending order.
pub fn users_list(users: &Users) -> (response: UsersListResponse)
    ensures
        lists_in_order(names_of(response.users@), users@),
        names_of(response.users@).no_duplicates(),
        response.users.len() == users@.len(),
{
    UsersListResponse { users: users.list() }
}

/// Answers with all messages, in the order of their indices.
pub fn messages_list(messages: &Messages) -> (response: MessagesListResponse)
    ensures
        views_of(response.messages@) == messages@,
        numbered(views_of(response.messages@)),
{
    MessagesListResponse { messages: messages.list() }
}

/// Appends the message of `request` to the log, and returns it as stored,
/// which is then to be published.
pub fn message_send(request: MessageSendRequest, messages: &mut Messages) -> (stored:
    MessagePayload)
    ensures
        final(messages)@ == posted(old(messages)@, request.user@, request.message@),
        stored@ == final(messages)@.last(),
{
    messages.send(request.user.as_str(), request.message.as_str())
}

/// The answer to the post that was stored as `stored`.
pub fn message_sent(stored: &MessagePayload) -> (response: MessageSendResponse)
    ensures
        response.index == stored.index,
{
    MessageSendResponse { index: stored.index }
}

} // verus!

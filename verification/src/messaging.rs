//! Conversations and messages as the crawler records them.
use vstd::prelude::*;

verus! {

pub struct Conversation {
    pub id: String,
    pub thread_url: String,
    pub candidate_name: String,
    pub timestamp: String,
    pub unread: bool,
    pub api_key: String,
    pub enable_ai: bool,
}

impl Conversation {
    pub fn new(
        id: String,
        thread_url: String,
        candidate_name: String,
        timestamp: String,
        unread: bool,
        api_key: String,
        enable_ai: bool,
    ) -> (r: Self)
        ensures
            r == (Conversation { id, thread_url, candidate_name, timestamp, unread, api_key, enable_ai }),
    {
        Conversation { id, thread_url, candidate_name, timestamp, unread, api_key, enable_ai }
    }
}

#[derive(Debug, Clone)]
pub struct InmailConversation {
    pub id: String,
    pub thread_url: String,
    pub candidate_name: String,
    pub unread: bool,
    pub api_key: String,
}

impl InmailConversation {
    pub fn new(
        id: String,
        thread_url: String,
        candidate_name: String,
        unread: bool,
        api_key: String,
    ) -> (r: Self)
        ensures
            r == (InmailConversation { id, thread_url, candidate_name, unread, api_key }),
    {
        InmailConversation { id, thread_url, candidate_name, unread, api_key }
    }

    /// A copy of the conversation.
    pub fn clone_inmail(&self) -> (r: Self)
        ensures
            r == *self,
    {
        InmailConversation {
            id: self.id.clone(),
            thread_url: self.thread_url.clone(),
            candidate_name: self.candidate_name.clone(),
            unread: self.unread,
            api_key: self.api_key.clone(),
        }
    }
}

#[derive(Debug)]
pub struct Message {
    pub message_text: String,
    pub sender: String,
    pub timestamp: String,
    pub url_send_from: String,
    pub url_send_to: String,
    pub received: bool,
}

impl Message {
    pub fn new(
        message_text: String,
        sender: String,
        timestamp: String,
        url_send_from: String,
        url_send_to: String,
        received: bool,
    ) -> (r: Self)
        ensures
            r == (Message { message_text, sender, timestamp, url_send_from, url_send_to, received }),
    {
        Message { message_text, sender, timestamp, url_send_from, url_send_to, received }
    }
}

/// The kinds of scheduled work.
#[derive(Debug, Clone, Copy, PartialEq, Eq, Structural)]
pub enum QueueType {
    Connection,
    Message,
    Inmail,
    Withdraw,
}

} // verus!

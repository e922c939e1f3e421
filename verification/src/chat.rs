//! Saved conversations: who said what, in which mode, and when.

use vstd::prelude::*;
use vstd::string::StringExecFns;
use crate::persistence::{Collection, LoadOutcome, StoreError, StoreErrorView};
use crate::record::{views, Record};
use crate::text::{clone_optional_text, join, optional_text, same_text};

verus! {

/// Who wrote a message.
#[derive(Clone, Copy, Debug, PartialEq, Eq, Structural)]
pub enum Sender {
    User,
    Assistant,
}

impl Sender {
    /// The name under which a sender is stored.
    pub open spec fn spec_name(self) -> Seq<char> {
        match self {
            Sender::User => "user"@,
            Sender::Assistant => "assistant"@,
        }
    }

    /// The sender that a name stands for, if it stands for one.
    pub open spec fn named(name: Seq<char>) -> Option<Sender> {
        if name == Sender::User.spec_name() {
            Some(Sender::User)
        } else if name == Sender::Assistant.spec_name() {
            Some(Sender::Assistant)
        } else {
            None
        }
    }

    pub fn name(self) -> (name: &'static str)
        ensures
            name@ == self.spec_name(),
    {
        match self {
            Sender::User => "user",
            Sender::Assistant => "assistant",
        }
    }

    /// The sender stored under `name`, if `name` is one of the two names.
    pub fn from_name(name: &str) -> (sender: Option<Sender>)
        ensures
            sender == Sender::named(name@),
    {
        if same_text(name, "user") {
            Some(Sender::User)
        } else if same_text(name, "assistant") {
            Some(Sender::Assistant)
        } else {
            None
        }
    }
}

/// The kind of conversation.
#[derive(Clone, Copy, Debug, PartialEq, Eq, Structural)]
pub enum ChatMode {
    Action,
    Walkthrough,
}

impl ChatMode {
    /// The name under which a mode is stored.
    pub open spec fn spec_name(self) -> Seq<char> {
        match self {
            ChatMode::Action => "action"@,
            ChatMode::Walkthrough => "walkthrough"@,
        }
    }

    /// The mode that a name stands for, if it stands for one.
    pub open spec fn named(name: Seq<char>) -> Option<ChatMode> {
        if name == ChatMode::Action.spec_name() {
            Some(ChatMode::Action)
        } else if name == ChatMode::Walkthrough.spec_name() {
            Some(ChatMode::Walkthrough)
        } else {
            None
        }
    }

    pub fn name(self) -> (name: &'static str)
        ensures
            name@ == self.spec_name(),
    {
        match self {
            ChatMode::Action => "action",
            ChatMode::Walkthrough => "walkthrough",
        }
    }

    /// The mode stored under `name`, if `name` is one of the two names.
    pub fn from_name(name: &str) -> (mode: Option<ChatMode>)
        ensures
            mode == ChatMode::named(name@),
    {
        if same_text(name, "action") {
            Some(ChatMode::Action)
        } else if same_text(name, "walkthrough") {
            Some(ChatMode::Walkthrough)
        } else {
            None
        }
    }
}

/// The two sender names differ, so reading back the name of a sender gives
/// that sender.
pub proof fn lemma_sender_names(sender: Sender)
    ensures
        Sender::User.spec_name() != Sender::Assistant.spec_name(),
        Sender::named(sender.spec_name()) == Some(sender),
{
    reveal_strlit("user");
    reveal_strlit("assistant");
    assert("user"@.len() != "assistant"@.len());
}

/// The two mode names differ, so reading back the name of a mode gives that
/// mode.
pub proof fn lemma_mode_names(mode: ChatMode)
    ensures
        ChatMode::Action.spec_name() != ChatMode::Walkthrough.spec_name(),
        ChatMode::named(mode.spec_name()) == Some(mode),
{
    reveal_strlit("action");
    reveal_strlit("walkthrough");
    assert("action"@.len() != "walkthrough"@.len());
}

/// One message of a conversation.
#[derive(Debug, PartialEq, Eq)]
pub struct ChatMessage {
    pub sender: Sender,
    pub content: String,
}

/// The model of a `ChatMessage`.
pub struct ChatMessageView {
    pub sender: Sender,
    pub content: Seq<char>,
}

impl View for ChatMessage {
    type V = ChatMessageView;

    open spec fn view(&self) -> ChatMessageView {
        ChatMessageView { sender: self.sender, content: self.content@ }
    }
}

impl Clone for ChatMessage {
    fn clone(&self) -> (copy: Self)
        ensures
            copy@ == self@,
    {
        ChatMessage { sender: self.sender, content: self.content.clone() }
    }
}

/// The models of a sequence of messages, in order.
pub open spec fn message_views(messages: Seq<ChatMessage>) -> Seq<ChatMessageView> {
    messages.map_values(|m: ChatMessage| m@)
}

/// A conversation as it is kept between sessions.
#[derive(Debug, PartialEq, Eq)]
pub struct RustSavedChat {
    pub id: String,
    /// Milliseconds since the epoch.
    pub timestamp: u64,
    pub mode: ChatMode,
    pub messages: Vec<ChatMessage>,
    pub title: Option<String>,
}

/// The model of a `RustSavedChat`.
pub struct SavedChatView {
    pub id: Seq<char>,
    pub timestamp: u64,
    pub mode: ChatMode,
    pub messages: Seq<ChatMessageView>,
    pub title: Option<Seq<char>>,
}

impl View for RustSavedChat {
    type V = SavedChatView;

    open spec fn view(&self) -> SavedChatView {
        SavedChatView {
            id: self.id@,
            timestamp: self.timestamp,
            mode: self.mode,
            messages: message_views(self.messages@),
            title: optional_text(self.title),
        }
    }
}

impl Clone for RustSavedChat {
    fn clone(&self) -> (copy: Self)
        ensures
            copy@ == self@,
    {
        let mut messages: Vec<ChatMessage> = Vec::new();
        let mut i: usize = 0;
        while i < self.messages.len()
            invariant
                i <= self.messages.len(),
                message_views(messages@) == message_views(self.messages@.take(i as int)),
            decreases self.messages.len() - i,
        {
            let ghost before = messages@;
            messages.push(self.messages[i].clone());
            proof {
                let next = self.messages@[i as int];
                assert(self.messages@.take(i + 1) =~= self.messages@.take(i as int).push(next));
                assert(message_views(messages@) =~= message_views(before).push(next@));
                assert(message_views(self.messages@.take(i + 1)) =~= message_views(
                    self.messages@.take(i as int),
                ).push(next@));
            }
            i += 1;
        }
        proof {
            assert(self.messages@.take(self.messages.len() as int) =~= self.messages@);
        }
        RustSavedChat {
            id: self.id.clone(),
            timestamp: self.timestamp,
            mode: self.mode,
            messages,
            title: clone_optional_text(&self.title),
        }
    }
}

impl Record for RustSavedChat {
    open spec fn key_of(v: SavedChatView) -> Seq<char> {
        v.id
    }

    open spec fn stamp_of(v: SavedChatView) -> u64 {
        v.timestamp
    }

    open spec fn collection() -> Collection {
        Collection::Chats
    }

    fn id(&self) -> (id: &String) {
        &self.id
    }

    fn timestamp(&self) -> (stamp: u64) {
        self.timestamp
    }

    fn duplicate(&self) -> (copy: Self) {
        self.clone()
    }

    fn kind() -> (kind: Collection) {
        Collection::Chats
    }
}

/// A message as it is stored and sent: the sender by name.
#[derive(Debug, PartialEq, Eq)]
pub struct StoredMessage {
    pub sender: String,
    pub content: String,
}

/// The model of a `StoredMessage`.
pub struct StoredMessageView {
    pub sender: Seq<char>,
    pub content: Seq<char>,
}

impl View for StoredMessage {
    type V = StoredMessageView;

    open spec fn view(&self) -> StoredMessageView {
        StoredMessageView { sender: self.sender@, content: self.content@ }
    }
}

/// A conversation as it is stored and sent: mode and senders by name.
#[derive(Debug, PartialEq, Eq)]
pub struct StoredChat {
    pub id: String,
    pub timestamp: u64,
    pub mode: String,
    pub messages: Vec<StoredMessage>,
    pub title: Option<String>,
}

/// The model of a `StoredChat`.
pub struct StoredChatView {
    pub id: Seq<char>,
    pub timestamp: u64,
    pub mode: Seq<char>,
    pub messages: Seq<StoredMessageView>,
    pub title: Option<Seq<char>>,
}

impl View for StoredChat {
    type V = StoredChatView;

    open spec fn view(&self) -> StoredChatView {
        StoredChatView {
            id: self.id@,
            timestamp: self.timestamp,
            mode: self.mode@,
            messages: views(self.messages@),
            title: optional_text(self.title),
        }
    }
}

/// The message that a stored message stands for, if its sender is known.
pub open spec fn message_read(stored: StoredMessageView) -> Option<ChatMessageView> {
    match Sender::named(stored.sender) {
        Some(sender) => Some(ChatMessageView { sender, content: stored.content }),
        None => None,
    }
}

/// Every stored message names a known sender.
pub open spec fn senders_known(stored: Seq<StoredMessageView>) -> bool {
    forall|i: int| 0 <= i < stored.len() ==> message_read(#[trigger] stored[i]) is Some
}

/// The messages that stored messages stand for, where every sender is known.
pub open spec fn messages_read(stored: Seq<StoredMessageView>) -> Seq<ChatMessageView> {
    stored.map_values(|m: StoredMessageView| message_read(m)->Some_0)
}

/// The conversation that a stored conversation stands for: the same
/// identifier, timestamp, title and contents, with the mode and each sender
/// read from its name. There is none if the mode or a sender is not one of
/// the known names.
pub open spec fn chat_read(stored: StoredChatView) -> Option<SavedChatView> {
    match ChatMode::named(stored.mode) {
        Some(mode) => if senders_known(stored.messages) {
            Some(
                SavedChatView {
                    id: stored.id,
                    timestamp: stored.timestamp,
                    mode,
                    messages: messages_read(stored.messages),
                    title: stored.title,
                },
            )
        } else {
            None
        },
        None => None,
    }
}

/// How a message is stored.
pub open spec fn message_stored(message: ChatMessageView) -> StoredMessageView {
    StoredMessageView { sender: message.sender.spec_name(), content: message.content }
}

/// How a conversation is stored.
pub open spec fn chat_stored(chat: SavedChatView) -> StoredChatView {
    StoredChatView {
        id: chat.id,
        timestamp: chat.timestamp,
        mode: chat.mode.spec_name(),
        messages: chat.messages.map_values(|m: ChatMessageView| message_stored(m)),
        title: chat.title,
    }
}

/// A stored conversation reads back as the conversation it was made from.
pub proof fn lemma_stored_chat_reads_back(chat: SavedChatView)
    ensures
        chat_read(chat_stored(chat)) == Some(chat),
{
    let stored = chat_stored(chat);
    lemma_mode_names(chat.mode);
    assert forall|i: int| 0 <= i < stored.messages.len() implies message_read(
        #[trigger] stored.messages[i],
    ) == Some(chat.messages[i]) by {
        lemma_sender_names(chat.messages[i].sender);
    }
    assert(messages_read(stored.messages) =~= chat.messages);
}

/// The message told when a conversation names an unknown sender or mode.
pub open spec fn unreadable_message(id: Seq<char>) -> Seq<char> {
    "Chat with ID "@ + id + " names an unknown sender or mode"@
}

/// Reads stored messages, if every sender is known.
fn read_messages(stored: &Vec<StoredMessage>) -> (messages: Option<Vec<ChatMessage>>)
    ensures
        messages is Some <==> senders_known(views(stored@)),
        messages is Some ==> message_views(messages->Some_0@) == messages_read(views(stored@)),
{
    let mut messages: Vec<ChatMessage> = Vec::new();
    let mut i: usize = 0;
    while i < stored.len()
        invariant
            i <= stored.len(),
            messages@.len() == i,
            forall|k: int| 0 <= k < i ==> message_read(#[trigger] views(stored@)[k]) == Some(messages@[k]@),
        decreases stored.len() - i,
    {
        let ghost next = views(stored@)[i as int];
        proof {
            assert(next == stored@[i as int]@);
        }
        match Sender::from_name(stored[i].sender.as_str()) {
            Some(sender) => {
                messages.push(ChatMessage { sender, content: stored[i].content.clone() });
            },
            None => {
                proof {
                    assert(message_read(next) is None);
                }
                return None;
            },
        }
        i += 1;
    }
    proof {
        assert(message_views(messages@) =~= messages_read(views(stored@)));
    }
    Some(messages)
}

/// How reading a stored conversation is reported: the conversation, or the
/// error that names it.
pub open spec fn chat_read_report(stored: StoredChatView) -> Result<SavedChatView, StoreErrorView> {
    match chat_read(stored) {
        Some(chat) => Ok(chat),
        None => Err(StoreErrorView::Serialization(unreadable_message(stored.id))),
    }
}

/// Reads a stored conversation. One that names an unknown sender or mode is
/// refused.
pub fn read_chat(stored: &StoredChat) -> (chat: Result<RustSavedChat, StoreError>)
    ensures
        match chat {
            Ok(c) => chat_read_report(stored@) == Ok::<SavedChatView, StoreErrorView>(c@),
            Err(e) => chat_read_report(stored@) == Err::<SavedChatView, StoreErrorView>(e@),
        },
{
    let mode = ChatMode::from_name(stored.mode.as_str());
    let messages = read_messages(&stored.messages);
    match (mode, messages) {
        (Some(mode), Some(messages)) => Ok(
            RustSavedChat {
                id: stored.id.clone(),
                timestamp: stored.timestamp,
                mode,
                messages,
                title: clone_optional_text(&stored.title),
            },
        ),
        _ => {
            let mut message = join("Chat with ID ", stored.id.as_str());
            message.append(" names an unknown sender or mode");
            Err(StoreError::Serialization(message))
        },
    }
}

/// Every stored conversation names known senders and a known mode.
pub open spec fn chats_readable(stored: Seq<StoredChatView>) -> bool {
    forall|i: int| 0 <= i < stored.len() ==> chat_read(#[trigger] stored[i]) is Some
}

/// The conversations that stored conversations stand for, where each is
/// readable.
pub open spec fn chats_read(stored: Seq<StoredChatView>) -> Seq<SavedChatView> {
    stored.map_values(|c: StoredChatView| chat_read(c)->Some_0)
}

/// Reads the conversations of a file. A file in which one conversation names
/// an unknown sender or mode counts as malformed as a whole.
pub fn read_chats(stored: &Vec<StoredChat>) -> (outcome: LoadOutcome<Vec<RustSavedChat>>)
    ensures
        match outcome {
            LoadOutcome::Parsed(chats) => chats_readable(views(stored@)) && views(chats@)
                == chats_read(views(stored@)),
            LoadOutcome::Malformed => !chats_readable(views(stored@)),
            _ => false,
        },
{
    let mut chats: Vec<RustSavedChat> = Vec::new();
    let mut i: usize = 0;
    while i < stored.len()
        invariant
            i <= stored.len(),
            chats@.len() == i,
            forall|k: int| 0 <= k < i ==> chat_read(#[trigger] views(stored@)[k]) == Some(chats@[k]@),
        decreases stored.len() - i,
    {
        proof {
            assert(views(stored@)[i as int] == stored@[i as int]@);
        }
        match read_chat(&stored[i]) {
            Ok(chat) => {
                chats.push(chat);
            },
            Err(_) => {
                proof {
                    assert(chat_read(views(stored@)[i as int]) is None);
                }
                return LoadOutcome::Malformed;
            },
        }
        i += 1;
    }
    proof {
        assert(views(chats@) =~= chats_read(views(stored@)));
    }
    LoadOutcome::Parsed(chats)
}

/// Puts a conversation into the form in which it is stored and sent.
pub fn store_chat(chat: &RustSavedChat) -> (stored: StoredChat)
    ensures
        stored@ == chat_stored(chat@),
{
    let mut messages: Vec<StoredMessage> = Vec::new();
    let mut i: usize = 0;
    while i < chat.messages.len()
        invariant
            i <= chat.messages.len(),
            messages@.len() == i,
            forall|k: int| 0 <= k < i ==> (#[trigger] messages@[k])@ == message_stored(chat.messages@[k]@),
        decreases chat.messages.len() - i,
    {
        let message = &chat.messages[i];
        messages.push(
            StoredMessage {
                sender: String::from_str(message.sender.name()),
                content: message.content.clone(),
            },
        );
        i += 1;
    }
    proof {
        assert(views(messages@) =~= message_views(chat.messages@).map_values(
            |m: ChatMessageView| message_stored(m),
        ));
    }
    StoredChat {
        id: chat.id.clone(),
        timestamp: chat.timestamp,
        mode: String::from_str(chat.mode.name()),
        messages,
        title: clone_optional_text(&chat.title),
    }
}

} // verus!

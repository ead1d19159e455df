//! Data model: messages, reactions, contacts, operators, the user profile
//! and the background settings, together with their mathematical views.

use vstd::prelude::*;

verus! {

/// What kind of chat entry a message is.
#[derive(Clone, Copy, Debug, PartialEq, Eq, Structural)]
pub enum MessageKind {
    Normal,
    Status,
    Image,
    Sticker,
}

/// A reaction attached to a message.
pub struct MessageReaction {
    pub content: String,
    pub sender_id: u64,
}

/// One chat message inside a contact's ordered list.
pub struct Message {
    pub id: u64,
    pub sender_id: u64,
    pub content: String,
    pub kind: MessageKind,
    pub animate: bool,
    pub reactions: Vec<MessageReaction>,
}

/// Mathematical view of a reaction.
#[verifier::ext_equal]
pub ghost struct ReactionView {
    pub content: Seq<char>,
    pub sender_id: u64,
}

/// Mathematical view of a message.
#[verifier::ext_equal]
pub ghost struct MessageView {
    pub id: u64,
    pub sender_id: u64,
    pub content: Seq<char>,
    pub kind: MessageKind,
    pub animate: bool,
    pub reactions: Seq<ReactionView>,
}

impl View for MessageReaction {
    type V = ReactionView;

    open spec fn view(&self) -> ReactionView {
        ReactionView { content: self.content@, sender_id: self.sender_id }
    }
}

impl DeepView for MessageReaction {
    type V = ReactionView;

    open spec fn deep_view(&self) -> ReactionView {
        self.view()
    }
}

impl View for Message {
    type V = MessageView;

    open spec fn view(&self) -> MessageView {
        MessageView {
            id: self.id,
            sender_id: self.sender_id,
            content: self.content@,
            kind: self.kind,
            animate: self.animate,
            reactions: self.reactions.deep_view(),
        }
    }
}

impl DeepView for Message {
    type V = MessageView;

    open spec fn deep_view(&self) -> MessageView {
        self.view()
    }
}

impl Clone for MessageReaction {
    fn clone(&self) -> (r: Self)
        ensures
            r@ == self@,
    {
        MessageReaction { content: self.content.clone(), sender_id: self.sender_id }
    }
}

/// Copies a reaction list; the copy has the same view, element by element.
pub fn clone_reactions(reactions: &Vec<MessageReaction>) -> (r: Vec<MessageReaction>)
    ensures
        r.deep_view() == reactions.deep_view(),
{
    let mut out: Vec<MessageReaction> = Vec::new();
    let n = reactions.len();
    for i in 0..n
        invariant
            n == reactions.len(),
            out.len() == i,
            forall|k: int| 0 <= k < i ==> out.deep_view()[k] == reactions.deep_view()[k],
    {
        out.push(reactions[i].clone());
    }
    assert(out.deep_view() =~= reactions.deep_view());
    out
}

impl Clone for Message {
    fn clone(&self) -> (r: Self)
        ensures
            r@ == self@,
    {
        Message {
            id: self.id,
            sender_id: self.sender_id,
            content: self.content.clone(),
            kind: self.kind,
            animate: self.animate,
            reactions: clone_reactions(&self.reactions),
        }
    }
}

/// Copies a message list; the copy has the same view, element by element.
pub fn clone_messages(messages: &Vec<Message>) -> (r: Vec<Message>)
    ensures
        r.deep_view() == messages.deep_view(),
{
    let mut out: Vec<Message> = Vec::new();
    let n = messages.len();
    for i in 0..n
        invariant
            n == messages.len(),
            out.len() == i,
            forall|k: int| 0 <= k < i ==> out.deep_view()[k] == messages.deep_view()[k],
    {
        out.push(messages[i].clone());
    }
    assert(out.deep_view() =~= messages.deep_view());
    out
}

/// Copies a list of identifiers.
pub fn clone_ids(ids: &Vec<u64>) -> (r: Vec<u64>)
    ensures
        r@ == ids@,
{
    let mut out: Vec<u64> = Vec::new();
    let n = ids.len();
    for i in 0..n
        invariant
            n == ids.len(),
            out@ =~= ids@.take(i as int),
    {
        out.push(ids[i]);
        assert(out@ =~= ids@.take(i + 1));
    }
    assert(ids@.take(n as int) =~= ids@);
    out
}

/// How the chat header of a contact is drawn.
#[derive(Clone, Copy, Debug, PartialEq, Eq, Structural)]
pub enum ChatHeadStyle {
    Default,
    Alt,
}

/// A conversation partner or group shown in the sidebar.
pub struct Contact {
    pub id: u64,
    pub unread_count: usize,
    pub chat_head_style: ChatHeadStyle,
    pub name: String,
    pub avatar_url: String,
    pub participant_ids: Vec<u64>,
    pub is_group: bool,
}

impl Contact {
    /// Copies the contact; the copy has the same view.
    pub fn clone_contact(&self) -> (r: Self)
        ensures
            r@ == self@,
    {
        Contact {
            id: self.id,
            unread_count: self.unread_count,
            chat_head_style: self.chat_head_style,
            name: self.name.clone(),
            avatar_url: self.avatar_url.clone(),
            participant_ids: clone_ids(&self.participant_ids),
            is_group: self.is_group,
        }
    }
}

/// A participant that can be attributed messages.
pub struct Operator {
    pub id: u64,
    pub name: String,
    pub avatar_url: String,
}

/// The user's own identity.
pub struct UserProfile {
    pub id: u64,
    pub name: String,
    pub avatar_url: String,
}

/// Which background the chat window shows.
#[derive(Clone, Copy, Debug, PartialEq, Eq, Structural)]
pub enum BackgroundMode {
    DotDark,
    DotLight,
    CustomColor,
    CustomImage,
}

/// Background settings of the chat window.
pub struct BackgroundSettings {
    pub mode: BackgroundMode,
    pub custom_color: String,
    pub custom_image: String,
}

/// Mathematical view of a contact.
#[verifier::ext_equal]
pub ghost struct ContactView {
    pub id: u64,
    pub unread_count: usize,
    pub chat_head_style: ChatHeadStyle,
    pub name: Seq<char>,
    pub avatar_url: Seq<char>,
    pub participant_ids: Seq<u64>,
    pub is_group: bool,
}

/// Mathematical view of an operator.
#[verifier::ext_equal]
pub ghost struct OperatorView {
    pub id: u64,
    pub name: Seq<char>,
    pub avatar_url: Seq<char>,
}

/// Mathematical view of the user profile.
#[verifier::ext_equal]
pub ghost struct ProfileView {
    pub id: u64,
    pub name: Seq<char>,
    pub avatar_url: Seq<char>,
}

/// Mathematical view of the background settings.
#[verifier::ext_equal]
pub ghost struct BackgroundView {
    pub mode: BackgroundMode,
    pub custom_color: Seq<char>,
    pub custom_image: Seq<char>,
}

impl View for Contact {
    type V = ContactView;

    open spec fn view(&self) -> ContactView {
        ContactView {
            id: self.id,
            unread_count: self.unread_count,
            chat_head_style: self.chat_head_style,
            name: self.name@,
            avatar_url: self.avatar_url@,
            participant_ids: self.participant_ids@,
            is_group: self.is_group,
        }
    }
}

impl DeepView for Contact {
    type V = ContactView;

    open spec fn deep_view(&self) -> ContactView {
        self.view()
    }
}

impl View for Operator {
    type V = OperatorView;

    open spec fn view(&self) -> OperatorView {
        OperatorView { id: self.id, name: self.name@, avatar_url: self.avatar_url@ }
    }
}

impl DeepView for Operator {
    type V = OperatorView;

    open spec fn deep_view(&self) -> OperatorView {
        self.view()
    }
}

impl View for UserProfile {
    type V = ProfileView;

    open spec fn view(&self) -> ProfileView {
        ProfileView { id: self.id, name: self.name@, avatar_url: self.avatar_url@ }
    }
}

impl View for BackgroundSettings {
    type V = BackgroundView;

    open spec fn view(&self) -> BackgroundView {
        BackgroundView {
            mode: self.mode,
            custom_color: self.custom_color@,
            custom_image: self.custom_image@,
        }
    }
}

impl Default for BackgroundSettings {
    /// The background starts as the dark dotted pattern over `#1a1a1a`.
    fn default() -> (r: Self)
        ensures
            r@.mode == BackgroundMode::DotDark,
            r@.custom_color == "#1a1a1a"@,
            r@.custom_image == Seq::<char>::empty(),
    {
        BackgroundSettings {
            mode: BackgroundMode::DotDark,
            custom_color: String::from_str("#1a1a1a"),
            custom_image: String::new(),
        }
    }
}

impl Default for UserProfile {
    /// A fresh profile is called "Me"; its identifier is 0, below every
    /// identifier the store hands out.
    fn default() -> (r: Self)
        ensures
            r@.id == 0,
            r@.name == "Me"@,
            r@.avatar_url == Seq::<char>::empty(),
    {
        UserProfile { id: 0, name: String::from_str("Me"), avatar_url: String::new() }
    }
}

} // verus!

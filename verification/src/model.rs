//! The platform's objects, reduced to the plain values that ingestion reads.

use vstd::prelude::*;
use crate::message_type::MessageType;

verus! {

/// A copy of an optional text.
pub fn copy_text(text: &Option<String>) -> (copy: Option<String>)
    ensures
        copy == *text,
{
    match text {
        Some(s) => Some(s.clone()),
        None => None,
    }
}

/// A copy of a list of texts.
pub fn copy_texts(texts: &Vec<String>) -> (copy: Vec<String>)
    ensures
        copy@ == texts@,
{
    let mut copy: Vec<String> = Vec::new();
    let mut i: usize = 0;
    while i < texts.len()
        invariant
            i <= texts.len(),
            copy@ == texts@.take(i as int),
        decreases texts.len() - i,
    {
        copy.push(texts[i].clone());
        i += 1;
        assert(texts@.take(i as int) == texts@.take(i - 1).push(texts@[i - 1]));
    }
    assert(texts@.take(texts.len() as int) == texts@);
    copy
}

/// An account on the platform.
#[derive(Debug)]
pub struct User {
    pub id: u64,
    pub username: String,
    pub global_name: Option<String>,
    pub avatar: Option<String>,
    /// Absent means "not a bot".
    pub bot: Option<bool>,
    pub banner: Option<String>,
    pub accent_color: Option<u64>,
    pub flags: Option<u64>,
    pub premium_type: Option<u64>,
    pub public_flags: Option<u64>,
}

impl User {
    /// Whether the account is marked as a bot; an absent mark counts as no.
    pub open spec fn spec_is_bot(&self) -> bool {
        self.bot == Some(true)
    }

    /// Whether the account is marked as a bot; an absent mark counts as no.
    pub fn is_bot(&self) -> (bot: bool)
        ensures
            bot == self.spec_is_bot(),
    {
        match self.bot {
            Some(b) => b,
            None => false,
        }
    }
}

impl Clone for User {
    fn clone(&self) -> (copy: Self)
        ensures
            copy == *self,
    {
        User {
            id: self.id,
            username: self.username.clone(),
            global_name: copy_text(&self.global_name),
            avatar: copy_text(&self.avatar),
            bot: self.bot,
            banner: copy_text(&self.banner),
            accent_color: self.accent_color,
            flags: self.flags,
            premium_type: self.premium_type,
            public_flags: self.public_flags,
        }
    }
}

/// A user's membership of a guild. The user may be missing from it.
#[derive(Debug)]
pub struct Member {
    pub user: Option<User>,
}

/// A file attached to a message.
#[derive(Debug)]
pub struct Attachment {
    pub id: u64,
    pub filename: String,
    pub title: Option<String>,
    pub description: Option<String>,
    /// The media type that the uploader declared, parameters included.
    pub content_type: Option<String>,
    pub size: u64,
    pub url: String,
    pub proxy_url: String,
    pub height: Option<u64>,
    pub width: Option<u64>,
}

impl Clone for Attachment {
    fn clone(&self) -> (copy: Self)
        ensures
            copy == *self,
    {
        Attachment {
            id: self.id,
            filename: self.filename.clone(),
            title: copy_text(&self.title),
            description: copy_text(&self.description),
            content_type: copy_text(&self.content_type),
            size: self.size,
            url: self.url.clone(),
            proxy_url: self.proxy_url.clone(),
            height: self.height,
            width: self.width,
        }
    }
}

/// A list of attachments, copied item by item.
pub fn copy_attachments(items: &Vec<Attachment>) -> (copy: Vec<Attachment>)
    ensures
        copy@ == items@,
{
    let mut copy: Vec<Attachment> = Vec::new();
    let mut i: usize = 0;
    while i < items.len()
        invariant
            i <= items.len(),
            copy@ == items@.take(i as int),
        decreases items.len() - i,
    {
        copy.push(items[i].clone());
        i += 1;
        assert(items@.take(i as int) == items@.take(i - 1).push(items@[i - 1]));
    }
    assert(items@.take(items.len() as int) == items@);
    copy
}

/// A picture or a film that an embed points to.
#[derive(Debug)]
pub struct EmbedMedia {
    pub url: String,
    /// The platform's cached copy, where it has one.
    pub proxy_url: Option<String>,
}

impl Clone for EmbedMedia {
    fn clone(&self) -> (copy: Self)
        ensures
            copy == *self,
    {
        EmbedMedia { url: self.url.clone(), proxy_url: copy_text(&self.proxy_url) }
    }
}

/// A copy of an optional piece of media.
fn copy_media(media: &Option<EmbedMedia>) -> (copy: Option<EmbedMedia>)
    ensures
        copy == *media,
{
    match media {
        Some(m) => Some(m.clone()),
        None => None,
    }
}

/// Rich content attached to a message by a link.
#[derive(Debug)]
pub struct Embed {
    pub image: Option<EmbedMedia>,
    pub thumbnail: Option<EmbedMedia>,
    pub video: Option<EmbedMedia>,
}

impl Clone for Embed {
    fn clone(&self) -> (copy: Self)
        ensures
            copy == *self,
    {
        Embed {
            image: copy_media(&self.image),
            thumbnail: copy_media(&self.thumbnail),
            video: copy_media(&self.video),
        }
    }
}

/// A list of embeds, copied item by item.
pub fn copy_embeds(items: &Vec<Embed>) -> (copy: Vec<Embed>)
    ensures
        copy@ == items@,
{
    let mut copy: Vec<Embed> = Vec::new();
    let mut i: usize = 0;
    while i < items.len()
        invariant
            i <= items.len(),
            copy@ == items@.take(i as int),
        decreases items.len() - i,
    {
        copy.push(items[i].clone());
        i += 1;
        assert(items@.take(i as int) == items@.take(i - 1).push(items@[i - 1]));
    }
    assert(items@.take(items.len() as int) == items@);
    copy
}

/// A message as the platform delivers it.
#[derive(Debug)]
pub struct Message {
    pub id: u64,
    pub channel_id: u64,
    pub author: User,
    pub content: Option<String>,
    /// Milliseconds since the Unix epoch.
    pub edited_timestamp: Option<i64>,
    pub kind: MessageType,
    pub flags: u64,
    /// The id of the message that this one answers, when it answers one.
    pub referenced_message_id: Option<u64>,
    pub mentions: Option<Vec<User>>,
    pub attachments: Vec<Attachment>,
    pub embeds: Vec<Embed>,
}

/// A role of a guild.
#[derive(Debug)]
pub struct Role {
    pub id: u64,
    pub name: Option<String>,
    pub color: u32,
    pub hoist: bool,
    pub position: i32,
    pub permissions: String,
    pub flags: Option<u64>,
    pub icon: Option<String>,
    pub unicode_emoji: Option<String>,
    pub description: Option<String>,
}

/// What a channel allows or denies one role or member.
#[derive(Debug)]
pub struct Overwrite {
    pub id: u64,
    pub kind: u8,
    pub allow: String,
    pub deny: String,
}

impl Clone for Overwrite {
    fn clone(&self) -> (copy: Self)
        ensures
            copy == *self,
    {
        Overwrite {
            id: self.id,
            kind: self.kind,
            allow: self.allow.clone(),
            deny: self.deny.clone(),
        }
    }
}

/// A channel or a thread.
#[derive(Debug)]
pub struct Channel {
    pub id: u64,
    pub kind: u8,
    pub name: Option<String>,
    pub topic: Option<String>,
    pub nsfw: Option<bool>,
    pub position: Option<i64>,
    pub parent_id: Option<u64>,
    pub flags: Option<u64>,
    pub permission_overwrites: Option<Vec<Overwrite>>,
    /// The other side of a private channel.
    pub recipients: Option<Vec<User>>,
}

/// The descriptive part of a guild, present once the guild is fully loaded.
#[derive(Debug)]
pub struct GuildProperties {
    pub name: Option<String>,
    pub icon: Option<String>,
    pub region: Option<String>,
    pub owner_id: u64,
    pub features: Option<Vec<String>>,
    pub premium_tier: u8,
}

/// A guild as a session's initial snapshot lists it.
#[derive(Debug)]
pub struct Guild {
    pub id: u64,
    pub name: Option<String>,
    pub icon: Option<String>,
    pub region: Option<String>,
    pub member_count: Option<u32>,
    pub features: Option<Vec<String>>,
    pub properties: Option<GuildProperties>,
    pub roles: Option<Vec<Role>>,
    pub channels: Option<Vec<Channel>>,
    pub threads: Option<Vec<Channel>>,
}

} // verus!

//! The closed vocabulary of message kinds, with a passthrough for codes that
//! the platform adds later.

use vstd::prelude::*;

verus! {

/// The kind of a message. Every code a message can carry maps to exactly one
/// value: the known kinds have a fixed code each, every other code is kept in
/// `Unknown`.
#[derive(Clone, Copy, Debug, PartialEq, Eq, Structural)]
pub enum MessageType {
    Default,
    RecipientAdd,
    RecipientRemove,
    Call,
    ChannelNameChange,
    ChannelIconChange,
    ChannelPinnedMessage,
    UserJoin,
    GuildBoost,
    GuildBoostTier1,
    GuildBoostTier2,
    GuildBoostTier3,
    ChannelFollowAdd,
    GuildDiscoveryDisqualified,
    GuildDiscoveryRequalified,
    GuildDiscoveryGracePeriodInitialWarning,
    GuildDiscoveryGracePeriodFinalWarning,
    ThreadCreated,
    Reply,
    ChatInputCommand,
    ThreadStarterMessage,
    GuildInviteReminder,
    ContextMenuCommand,
    AutoModerationAction,
    RoleSubscriptionPurchase,
    InteractionPremiumUpsell,
    StageStart,
    StageEnd,
    StageSpeaker,
    StageTopic,
    GuildApplicationPremiumSubscription,
    GuildIncidentAlertModeEnabled,
    GuildIncidentAlertModeDisabled,
    GuildIncidentReportRaid,
    GuildIncidentReportFalseAlarm,
    PurchaseNotification,
    PollResult,
    Unknown(u8),
}

/// Whether `code` is the fixed code of one of the known kinds.
pub open spec fn is_known_code(code: u8) -> bool {
    code <= 12 || (14 <= code <= 29) || code == 31 || code == 32 || (36 <= code <= 39)
        || code == 44 || code == 46
}

impl MessageType {
    /// The code under which this kind is stored.
    pub open spec fn spec_code(self) -> u8 {
        match self {
            MessageType::Default => 0,
            MessageType::RecipientAdd => 1,
            MessageType::RecipientRemove => 2,
            MessageType::Call => 3,
            MessageType::ChannelNameChange => 4,
            MessageType::ChannelIconChange => 5,
            MessageType::ChannelPinnedMessage => 6,
            MessageType::UserJoin => 7,
            MessageType::GuildBoost => 8,
            MessageType::GuildBoostTier1 => 9,
            MessageType::GuildBoostTier2 => 10,
            MessageType::GuildBoostTier3 => 11,
            MessageType::ChannelFollowAdd => 12,
            MessageType::GuildDiscoveryDisqualified => 14,
            MessageType::GuildDiscoveryRequalified => 15,
            MessageType::GuildDiscoveryGracePeriodInitialWarning => 16,
            MessageType::GuildDiscoveryGracePeriodFinalWarning => 17,
            MessageType::ThreadCreated => 18,
            MessageType::Reply => 19,
            MessageType::ChatInputCommand => 20,
            MessageType::ThreadStarterMessage => 21,
            MessageType::GuildInviteReminder => 22,
            MessageType::ContextMenuCommand => 23,
            MessageType::AutoModerationAction => 24,
            MessageType::RoleSubscriptionPurchase => 25,
            MessageType::InteractionPremiumUpsell => 26,
            MessageType::StageStart => 27,
            MessageType::StageEnd => 28,
            MessageType::StageSpeaker => 29,
            MessageType::StageTopic => 31,
            MessageType::GuildApplicationPremiumSubscription => 32,
            MessageType::GuildIncidentAlertModeEnabled => 36,
            MessageType::GuildIncidentAlertModeDisabled => 37,
            MessageType::GuildIncidentReportRaid => 38,
            MessageType::GuildIncidentReportFalseAlarm => 39,
            MessageType::PurchaseNotification => 44,
            MessageType::PollResult => 46,
            MessageType::Unknown(code) => code,
        }
    }

    /// The kind that a code decodes to. A code outside the known set is
    /// carried along in `Unknown`, so decoding never fails.
    pub open spec fn spec_from_code(code: u8) -> MessageType {
        match code {
            0 => MessageType::Default,
            1 => MessageType::RecipientAdd,
            2 => MessageType::RecipientRemove,
            3 => MessageType::Call,
            4 => MessageType::ChannelNameChange,
            5 => MessageType::ChannelIconChange,
            6 => MessageType::ChannelPinnedMessage,
            7 => MessageType::UserJoin,
            8 => MessageType::GuildBoost,
            9 => MessageType::GuildBoostTier1,
            10 => MessageType::GuildBoostTier2,
            11 => MessageType::GuildBoostTier3,
            12 => MessageType::ChannelFollowAdd,
            14 => MessageType::GuildDiscoveryDisqualified,
            15 => MessageType::GuildDiscoveryRequalified,
            16 => MessageType::GuildDiscoveryGracePeriodInitialWarning,
            17 => MessageType::GuildDiscoveryGracePeriodFinalWarning,
            18 => MessageType::ThreadCreated,
            19 => MessageType::Reply,
            20 => MessageType::ChatInputCommand,
            21 => MessageType::ThreadStarterMessage,
            22 => MessageType::GuildInviteReminder,
            23 => MessageType::ContextMenuCommand,
            24 => MessageType::AutoModerationAction,
            25 => MessageType::RoleSubscriptionPurchase,
            26 => MessageType::InteractionPremiumUpsell,
            27 => MessageType::StageStart,
            28 => MessageType::StageEnd,
            29 => MessageType::StageSpeaker,
            31 => MessageType::StageTopic,
            32 => MessageType::GuildApplicationPremiumSubscription,
            36 => MessageType::GuildIncidentAlertModeEnabled,
            37 => MessageType::GuildIncidentAlertModeDisabled,
            38 => MessageType::GuildIncidentReportRaid,
            39 => MessageType::GuildIncidentReportFalseAlarm,
            44 => MessageType::PurchaseNotification,
            46 => MessageType::PollResult,
            _ => MessageType::Unknown(code),
        }
    }

    /// The code stored for this kind, as the 32-bit integer of the message
    /// table's type column.
    pub fn code(&self) -> (code: i32)
        ensures
            code == self.spec_code(),
    {
        let raw: u8 = match self {
            MessageType::Default => 0,
            MessageType::RecipientAdd => 1,
            MessageType::RecipientRemove => 2,
            MessageType::Call => 3,
            MessageType::ChannelNameChange => 4,
            MessageType::ChannelIconChange => 5,
            MessageType::ChannelPinnedMessage => 6,
            MessageType::UserJoin => 7,
            MessageType::GuildBoost => 8,
            MessageType::GuildBoostTier1 => 9,
            MessageType::GuildBoostTier2 => 10,
            MessageType::GuildBoostTier3 => 11,
            MessageType::ChannelFollowAdd => 12,
            MessageType::GuildDiscoveryDisqualified => 14,
            MessageType::GuildDiscoveryRequalified => 15,
            MessageType::GuildDiscoveryGracePeriodInitialWarning => 16,
            MessageType::GuildDiscoveryGracePeriodFinalWarning => 17,
            MessageType::ThreadCreated => 18,
            MessageType::Reply => 19,
            MessageType::ChatInputCommand => 20,
            MessageType::ThreadStarterMessage => 21,
            MessageType::GuildInviteReminder => 22,
            MessageType::ContextMenuCommand => 23,
            MessageType::AutoModerationAction => 24,
            MessageType::RoleSubscriptionPurchase => 25,
            MessageType::InteractionPremiumUpsell => 26,
            MessageType::StageStart => 27,
            MessageType::StageEnd => 28,
            MessageType::StageSpeaker => 29,
            MessageType::StageTopic => 31,
            MessageType::GuildApplicationPremiumSubscription => 32,
            MessageType::GuildIncidentAlertModeEnabled => 36,
            MessageType::GuildIncidentAlertModeDisabled => 37,
            MessageType::GuildIncidentReportRaid => 38,
            MessageType::GuildIncidentReportFalseAlarm => 39,
            MessageType::PurchaseNotification => 44,
            MessageType::PollResult => 46,
            MessageType::Unknown(code) => *code,
        };
        raw as i32
    }

    /// Decodes a code. Total: a code that names no known kind comes back as
    /// `Unknown` with the code inside.
    pub fn from_code(code: u8) -> (kind: MessageType)
        ensures
            kind == Self::spec_from_code(code),
            kind is Unknown <==> !is_known_code(code),
    {
        match code {
            0 => MessageType::Default,
            1 => MessageType::RecipientAdd,
            2 => MessageType::RecipientRemove,
            3 => MessageType::Call,
            4 => MessageType::ChannelNameChange,
            5 => MessageType::ChannelIconChange,
            6 => MessageType::ChannelPinnedMessage,
            7 => MessageType::UserJoin,
            8 => MessageType::GuildBoost,
            9 => MessageType::GuildBoostTier1,
            10 => MessageType::GuildBoostTier2,
            11 => MessageType::GuildBoostTier3,
            12 => MessageType::ChannelFollowAdd,
            14 => MessageType::GuildDiscoveryDisqualified,
            15 => MessageType::GuildDiscoveryRequalified,
            16 => MessageType::GuildDiscoveryGracePeriodInitialWarning,
            17 => MessageType::GuildDiscoveryGracePeriodFinalWarning,
            18 => MessageType::ThreadCreated,
            19 => MessageType::Reply,
            20 => MessageType::ChatInputCommand,
            21 => MessageType::ThreadStarterMessage,
            22 => MessageType::GuildInviteReminder,
            23 => MessageType::ContextMenuCommand,
            24 => MessageType::AutoModerationAction,
            25 => MessageType::RoleSubscriptionPurchase,
            26 => MessageType::InteractionPremiumUpsell,
            27 => MessageType::StageStart,
            28 => MessageType::StageEnd,
            29 => MessageType::StageSpeaker,
            31 => MessageType::StageTopic,
            32 => MessageType::GuildApplicationPremiumSubscription,
            36 => MessageType::GuildIncidentAlertModeEnabled,
            37 => MessageType::GuildIncidentAlertModeDisabled,
            38 => MessageType::GuildIncidentReportRaid,
            39 => MessageType::GuildIncidentReportFalseAlarm,
            44 => MessageType::PurchaseNotification,
            46 => MessageType::PollResult,
            _ => MessageType::Unknown(code),
        }
    }
}

/// Decoding never loses the code: whatever code comes in is the code that
/// the decoded kind is stored under.
pub proof fn lemma_code_survives_decoding(code: u8)
    ensures
        MessageType::spec_from_code(code).spec_code() == code,
{
}

/// A kind built by decoding is given back by decoding its own code. (An
/// `Unknown` that holds a known code is not such a kind: decoding never
/// builds it.)
pub proof fn lemma_decoding_is_stable(kind: MessageType)
    requires
        kind matches MessageType::Unknown(code) ==> !is_known_code(code),
    ensures
        MessageType::spec_from_code(kind.spec_code()) == kind,
{
}

} // verus!

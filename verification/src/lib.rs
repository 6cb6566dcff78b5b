pub mod bounded;
pub mod claims;
pub mod client;
pub mod decimal;
pub mod ids;
pub mod metrics;
pub mod names;
pub mod nonzero;
pub mod plasma;
pub mod quest;
pub mod text;
pub mod time;

pub use claims::keys::{
    ClaimKey, ClaimKeyError, ClaimName, ClaimNameError, GameClaimKey, GameClaimKeyError,
    RealmClaimKey, RealmClaimKeyError, ScopeClaimKey, ScopeClaimKeyError,
};
pub use claims::map::{ClaimMap, ClaimMapKey};
pub use claims::subsets::{
    ClaimFilter, ClaimScope, ClaimSet, ClaimSubset, PublicClaims,
};
pub use claims::values::{ClaimAggregation, ClaimValue, ClaimValueError};
pub use client::dto::LeaderboardScoreDto;
pub use decimal::NumberError;
pub use ids::arena::{ArenaId, ArenaQuery, ArenaToken, InvalidArenaId};
pub use ids::chat::{ChatId, InvalidChatId, MessageNumber};
pub use ids::game::{GameId, InvalidGameId, InvalidInvitationId, InvitationId};
pub use ids::language::{InvalidLanguageId, LanguageId};
pub use ids::metrics::{InvalidRegionId, LifecycleId, PeriodId, RegionId, UserAgentId};
pub use ids::rank::{RankNumber, RankNumberError};
pub use ids::realm::{InvalidRealmId, RealmId};
pub use ids::scene::{InstanceNumber, InvalidSceneId, InvalidTierNumber, SceneId, TierNumber};
pub use ids::server::{InvalidServerId, ServerId, ServerKind, ServerNumber};
pub use ids::tokens::{
    ClientHash, CohortId, ReconnectionToken, ServerToken, SessionId, SessionToken, SkuId,
};
pub use ids::visitor::{PlayerId, TeamId, TeamToken, UserId, VisitorId};
pub use metrics::discrete::{
    DiscreteExtremaMetricAccumulator, DiscreteMetricAccumulator, DiscreteMetricSummary,
    DistinctCountMetricSummary,
};
pub use metrics::histogram::{HistogramMetricAccumulator, HistogramSlot, MedianBucket};
pub use metrics::navigation::NavigationMetricsDto;
pub use metrics::ratio::RatioMetricAccumulator;
pub use names::domain::{DomainName, InvalidDomainName};
pub use names::fmt_utils::{
    no_confusable_italics, slice_up_to_bytes, slice_up_to_chars, trim_and_slice_up_to,
};
pub use names::nexus::{InvalidNexusPath, NexusPath};
pub use names::player::{NameTooLong, NickName, PlayerAlias, TeamName};
pub use names::realm::{InvalidRealmName, RealmName};
pub use names::referrer::Referrer;
pub use nonzero::{NonZero16, NonZero32, NonZero64, NonZero8};
pub use plasma::dto::{
    ChatRecipient, LogLevel, RealmAcl, ServerFailureDiagnostic, ServerLogDto, ServerRole,
};
pub use plasma::heartbeat::ActiveHeartbeat;
pub use plasma::topology::{RealmUseTopology, SceneUseTopology, ServerUseTopology};
pub use quest::events::{AdEvent, BannerAdEvent, ClientActivity, VideoAdEvent};
pub use quest::state::{FatalError, QuestState};
pub use text::{split_once_nth, VariantNotFound};
pub use time::NonZeroUnixMillis;

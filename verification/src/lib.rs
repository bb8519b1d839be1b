//! Ozone server core: permission arithmetic, presence, resumable gateway sessions,
//! message and profile validation, and the other decisions the HTTP layer relies on.

pub mod perms;
pub mod text;
pub mod permissions;
pub mod error;
pub mod session;
pub mod presence;
pub mod mentions;
pub mod numbers;
pub mod validate;
pub mod auth;
pub mod embeds;
pub mod messages;
pub mod automod;
pub mod roles;
pub mod guild;
pub mod search;
pub mod hits;
pub mod state;
pub mod config;
pub mod extract;
pub mod crypto;
pub mod invites;
pub mod instance;
pub mod sfu;
pub mod db;
pub mod account;
pub mod events;
pub mod voice;
pub mod dms;
pub mod relationships;
pub mod channels;
pub mod moderation;
pub mod polls;
pub mod expressions;
pub mod webhooks;
pub mod notifications;
pub mod profiles;
pub mod attachments;
pub mod gateway;

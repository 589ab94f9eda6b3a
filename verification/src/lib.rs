//! An email library: reading, replying to and forwarding messages as templates,
//! and the errors of its web API.

pub mod address;
pub mod config;
pub mod email;
pub mod error;
pub mod mail;
pub mod parts;
pub mod text;
pub mod tpl;

pub use address::Mailbox;
pub use config::{AccountConfig, ConfigError, DEFAULT_SIGNATURE_DELIM};
pub use email::{Email, EmailError, MailError, RawEmail};
pub use error::{AppError, CustomError, DatabaseError, GraphClientError};
pub use mail::{MailHeader, MailPart, ParsedEmail};
pub use parts::{sanitize_text_plain_part, skipped_attachments_of, Attachment, SkippedAttachment};
pub use tpl::{ShowHeaders, Tpl, TplBuilder, TplBuilderOpts};

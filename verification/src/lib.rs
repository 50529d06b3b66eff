//! The client side of a line-oriented protocol for driving a device-automation
//! service: taps, swipes, text entry, app switching, image search and device
//! queries.
//!
//! The library does no input or output. A `zx_touch::ZxTouch` keeps the state
//! of the connection and turns each command into the `zx_touch::Action`s that
//! a driver carries out on its stream; the functions of `codec` turn the
//! replies that the driver read into values. Every function is verified
//! against a contract over the text of the lines.
//!
//! - `message_type`: the codes of the command families.
//! - `entity`: the values that commands take and replies give.
//! - `error`: the ways in which a command can fail.
//! - `decimal`: numbers as decimal text, written and read.
//! - `text`: fields, integer parts and white space of a reply.
//! - `codec`: command lines and replies.
//! - `zx_touch`: the connection state and the commands.

pub mod codec;
pub mod decimal;
pub mod entity;
pub mod error;
pub mod message_type;
pub mod text;
pub mod zx_touch;

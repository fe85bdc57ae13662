//! An asynchronous logging pipeline: producers filter and render records and
//! hand the rendered text through a channel to one consumer, which writes it
//! to every sink whose threshold admits it.

pub mod channel;
pub mod color;
pub mod consumer;
pub mod error;
pub mod filter;
pub mod formater;
pub mod level;
pub mod lifecycle;
pub mod logger;
pub mod record;
pub mod text;

pub use color::{ColoredFgWith, ColoredFixedLevel, ColoredLogConfig};
pub use consumer::{BaseConsumer, Consumer, Flow, Outputer, SinkView};
pub use error::Error;
pub use filter::{BaseFilter, Filter};
pub use formater::{
    thread_label, thread_number, BaseFormater, FixedLevel, FnFormater, Formater,
};
pub use level::{Level, LevelFilter};
pub use logger::{messages_in_channel, Delivery, JoinHandle, NonblockLogger, Worker};
pub use record::{Message, Record};

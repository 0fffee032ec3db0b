use vstd::prelude::*;

use crate::adapter::{Convert, FromBlock, FromEvent, Mapper, views_of};
use crate::block::{LogEntry, LogEntryModel};
use crate::hex::hex_of;
use crate::text::StringW;
use vstd::slice::slice_to_vec;

verus! {

/// The simplest event: the emitting address and the raw payload of a log
/// entry. Every log entry matches it.
pub struct RawLog {
    pub address: Vec<u8>,
    pub data: Vec<u8>,
}

/// The view of a raw log event: its fields as plain sequences.
pub ghost struct RawLogModel {
    pub address: Seq<u8>,
    pub data: Seq<u8>,
}

impl View for RawLog {
    type V = RawLogModel;

    open spec fn view(&self) -> RawLogModel {
        RawLogModel { address: self.address@, data: self.data@ }
    }
}

impl FromBlock for RawLog {
    open spec fn spec_decode(log: LogEntryModel) -> Option<RawLogModel> {
        Some(RawLogModel { address: log.address, data: log.data })
    }

    fn match_and_decode(log: &LogEntry) -> (r: Option<RawLog>) {
        Some(
            RawLog {
                address: slice_to_vec(log.address.as_slice()),
                data: slice_to_vec(log.data.as_slice()),
            },
        )
    }
}

/// An event that only matches log entries carrying at least one topic: the
/// first topic, taken as the event's signature, with the emitting address.
/// Entries without topics are silently skipped, not an error.
pub struct TopicLog {
    pub topic: Vec<u8>,
    pub address: Vec<u8>,
}

/// The view of a topic event: its fields as plain sequences.
pub ghost struct TopicLogModel {
    pub topic: Seq<u8>,
    pub address: Seq<u8>,
}

impl View for TopicLog {
    type V = TopicLogModel;

    open spec fn view(&self) -> TopicLogModel {
        TopicLogModel { topic: self.topic@, address: self.address@ }
    }
}

impl FromBlock for TopicLog {
    open spec fn spec_decode(log: LogEntryModel) -> Option<TopicLogModel> {
        if log.topics.len() > 0 {
            Some(TopicLogModel { topic: log.topics[0], address: log.address })
        } else {
            None
        }
    }

    fn match_and_decode(log: &LogEntry) -> (r: Option<TopicLog>) {
        if log.topics.len() > 0 {
            let topic = slice_to_vec(log.topics[0].as_slice());
            let address = slice_to_vec(log.address.as_slice());
            Some(TopicLog { topic, address })
        } else {
            None
        }
    }
}

/// The textual message form of a raw log event: the emitting address and
/// the payload, each as "0x"-prefixed lowercase hexadecimal text.
pub struct LogText {
    pub address: StringW,
    pub data: StringW,
}

/// The view of a textual log message: both texts as character sequences.
pub ghost struct LogTextModel {
    pub address: Seq<char>,
    pub data: Seq<char>,
}

impl View for LogText {
    type V = LogTextModel;

    open spec fn view(&self) -> LogTextModel {
        LogTextModel { address: self.address@, data: self.data@ }
    }
}

impl Convert<RawLog> for LogText {
    open spec fn spec_message(event: RawLogModel) -> LogTextModel {
        LogTextModel {
            address: seq!['0', 'x'] + hex_of(event.address),
            data: seq!['0', 'x'] + hex_of(event.data),
        }
    }

    fn convert(event: RawLog) -> (r: LogText) {
        let RawLog { address, data } = event;
        LogText { address: StringW::from_bytes(address), data: StringW::from_bytes(data) }
    }
}

impl FromEvent<TopicLog> for LogText {
    open spec fn spec_from_event(event: TopicLogModel) -> Option<LogTextModel> {
        if event.topic.len() > 0 {
            Some(
                LogTextModel {
                    address: seq!['0', 'x'] + hex_of(event.address),
                    data: seq!['0', 'x'] + hex_of(event.topic),
                },
            )
        } else {
            None
        }
    }

    fn from_event(event: TopicLog) -> (r: Option<LogText>) {
        let TopicLog { topic, address } = event;
        if topic.len() > 0 {
            Some(LogText { address: StringW::from_bytes(address), data: StringW::from_bytes(topic) })
        } else {
            None
        }
    }
}

/// The batch a mapping invocation returns: textual log messages, in block
/// order.
pub struct LogTextBatch {
    pub messages: Vec<LogText>,
}

impl View for LogTextBatch {
    type V = Seq<LogTextModel>;

    open spec fn view(&self) -> Seq<LogTextModel> {
        self.messages@.map_values(|m: LogText| m@)
    }
}

impl Mapper<RawLog, LogText> for LogTextBatch {
    fn from_messages(messages: Vec<LogText>) -> (r: LogTextBatch) {
        let batch = LogTextBatch { messages };
        proof {
            assert(batch@ =~= views_of(batch.messages@));
        }
        batch
    }
}

} // verus!

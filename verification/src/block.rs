use vstd::prelude::*;

verus! {

/// One emitted log record of a block: the address that emitted it and the
/// raw topic and data fields of its payload.
pub struct LogEntry {
    pub address: Vec<u8>,
    pub topics: Vec<Vec<u8>>,
    pub data: Vec<u8>,
}

/// The mathematical shape of a log entry: its fields as plain sequences.
pub ghost struct LogEntryModel {
    pub address: Seq<u8>,
    pub topics: Seq<Seq<u8>>,
    pub data: Seq<u8>,
}

impl View for LogEntry {
    type V = LogEntryModel;

    open spec fn view(&self) -> LogEntryModel {
        LogEntryModel {
            address: self.address@,
            topics: self.topics@.map_values(|t: Vec<u8>| t@),
            data: self.data@,
        }
    }
}

/// A block as the adapter reads it: its log entries, in block order. The
/// host hands the adapter one such value per invocation; the adapter only
/// ever reads it.
pub struct Block {
    pub logs: Vec<LogEntry>,
}

impl View for Block {
    type V = Seq<LogEntryModel>;

    open spec fn view(&self) -> Seq<LogEntryModel> {
        self.logs@.map_values(|l: LogEntry| l@)
    }
}

} // verus!

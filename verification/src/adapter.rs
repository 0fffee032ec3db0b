use vstd::prelude::*;

use crate::block::{Block, LogEntry, LogEntryModel};
use crate::error::DecodeError;
use crate::hex::{decode_filter, parse_filter};

verus! {

/// The views of a sequence of values, element by element.
pub open spec fn views_of<T: View>(s: Seq<T>) -> Seq<T::V> {
    s.map_values(|t: T| t@)
}

/// The characters of an optional address filter string.
pub open spec fn address_chars(address: Option<&str>) -> Option<Seq<char>> {
    match address {
        None => None,
        Some(s) => Some(s@),
    }
}

/// Whether a log entry survives the address filter: with no filter every
/// entry does; with one, exactly the entries its address decoded to.
pub open spec fn log_passes(log: LogEntryModel, filter: Option<Seq<u8>>) -> bool {
    match filter {
        None => true,
        Some(f) => log.address == f,
    }
}

/// What one log entry contributes to the extraction: its decoded event if
/// it passes the filter and matches the event shape, and nothing otherwise.
pub open spec fn decoded_of<V>(
    log: LogEntryModel,
    filter: Option<Seq<u8>>,
    decode: spec_fn(LogEntryModel) -> Option<V>,
) -> Seq<V> {
    if log_passes(log, filter) {
        match decode(log) {
            Some(v) => seq![v],
            None => Seq::empty(),
        }
    } else {
        Seq::empty()
    }
}

/// The events extracted from a sequence of log entries under an optional
/// decoded address filter and a decoding rule, in log order.
pub open spec fn extract<V>(
    logs: Seq<LogEntryModel>,
    filter: Option<Seq<u8>>,
    decode: spec_fn(LogEntryModel) -> Option<V>,
) -> Seq<V>
    decreases logs.len(),
{
    if logs.len() == 0 {
        Seq::empty()
    } else {
        extract(logs.drop_last(), filter, decode) + decoded_of(logs.last(), filter, decode)
    }
}

/// What extraction returns for a block and an optional filter string: the
/// extracted events, or the invalid-filter error when the string is not
/// valid hexadecimal.
pub open spec fn extract_result<V>(
    logs: Seq<LogEntryModel>,
    address: Option<Seq<char>>,
    decode: spec_fn(LogEntryModel) -> Option<V>,
) -> Result<Seq<V>, DecodeError> {
    match address {
        None => Ok(extract(logs, None, decode)),
        Some(s) => match parse_filter(s) {
            Some(f) => Ok(extract(logs, Some(f), decode)),
            None => Err(DecodeError::InvalidFilter),
        },
    }
}

/// The conversions of a sequence of extracted events, element by element
/// and in order.
pub open spec fn convert_all<V, W>(events: Seq<V>, conv: spec_fn(V) -> W) -> Seq<W> {
    events.map_values(conv)
}

/// What one mapping invocation returns for a block, an optional filter
/// string, a decoding rule and a conversion: the converted events in block
/// order, or the invalid-filter error with no partial batch.
pub open spec fn map_result<V, W>(
    logs: Seq<LogEntryModel>,
    address: Option<Seq<char>>,
    decode: spec_fn(LogEntryModel) -> Option<V>,
    conv: spec_fn(V) -> W,
) -> Result<Seq<W>, DecodeError> {
    match extract_result(logs, address, decode) {
        Ok(events) => Ok(convert_all(events, conv)),
        Err(e) => Err(e),
    }
}

/// Byte-for-byte equality of two byte vectors.
fn bytes_eq(a: &Vec<u8>, b: &Vec<u8>) -> (r: bool)
    ensures
        r == (a@ == b@),
{
    if a.len() != b.len() {
        proof {
            assert(a@.len() != b@.len());
        }
        return false;
    }
    let mut i: usize = 0;
    while i < a.len()
        invariant
            i <= a.len(),
            a.len() == b.len(),
            forall|j: int| 0 <= j < i ==> a@[j] == b@[j],
        decreases a.len() - i,
    {
        if a[i] != b[i] {
            return false;
        }
        i += 1;
    }
    proof {
        assert(a@ =~= b@);
    }
    true
}

/// Extracting typed events from a block. An implementing type states, as
/// `spec_decode`, which log entries it decodes from and to what; the
/// provided `from_block` walks a block's log entries in order, keeps the
/// ones an optional address filter admits, and collects every entry that
/// decodes.
pub trait FromBlock: View + Sized {
    /// The matching rule of this event type: the view of the event a log
    /// entry decodes to, or nothing when the entry does not match.
    spec fn spec_decode(log: LogEntryModel) -> Option<Self::V>;

    /// Attempts to decode this event type from one log entry.
    fn match_and_decode(log: &LogEntry) -> (r: Option<Self>)
        ensures
            match r {
                Some(event) => Self::spec_decode(log@) == Some(event@),
                None => Self::spec_decode(log@) is None,
            },
    ;

    /// Extracts every matching event from a block, in block order. An
    /// absent filter keeps every log entry; a present one keeps the entries
    /// emitted by the decoded address, and a filter that is not valid
    /// hexadecimal fails the whole operation with no partial result.
    fn from_block(block: Block, address: Option<&str>) -> (r: Result<Vec<Self>, DecodeError>)
        ensures
            match extract_result(
                block@,
                address_chars(address),
                |log: LogEntryModel| Self::spec_decode(log),
            ) {
                Ok(events) => r matches Ok(v) && views_of(v@) == events,
                Err(e) => r == Err::<Vec<Self>, DecodeError>(e),
            },
    {
        let filter: Option<Vec<u8>> = match address {
            None => None,
            Some(s) => match decode_filter(s) {
                Ok(f) => Some(f),
                Err(e) => {
                    return Err(e);
                },
            },
        };
        let ghost gf: Option<Seq<u8>> = match &filter {
            Some(f) => Some(f@),
            None => None,
        };
        let ghost dec = |log: LogEntryModel| Self::spec_decode(log);
        proof {
            assert(views_of(Seq::<Self>::empty()) =~= Seq::<Self::V>::empty());
        }
        let mut events: Vec<Self> = Vec::new();
        let mut i: usize = 0;
        while i < block.logs.len()
            invariant
                i <= block.logs.len(),
                dec == (|log: LogEntryModel| Self::spec_decode(log)),
                gf == (match filter {
                    Some(f) => Some(f@),
                    None => None::<Seq<u8>>,
                }),
                match address {
                    None => gf is None,
                    Some(s) => gf is Some && parse_filter(s@) == gf,
                },
                views_of(events@) == extract(block@.take(i as int), gf, dec),
            decreases block.logs.len() - i,
        {
            let log = &block.logs[i];
            proof {
                assert(block@[i as int] == log@);
                assert(block@.take(i as int + 1).drop_last() =~= block@.take(i as int));
                assert(block@.take(i as int + 1).last() == log@);
            }
            let keep: bool = match &filter {
                None => true,
                Some(f) => bytes_eq(&log.address, f),
            };
            proof {
                assert(keep == log_passes(log@, gf));
            }
            if keep {
                match Self::match_and_decode(log) {
                    Some(event) => {
                        let ghost pre = events@;
                        events.push(event);
                        proof {
                            assert(views_of(events@) =~= views_of(pre).push(event@));
                            assert(extract(block@.take(i as int + 1), gf, dec) =~= extract(
                                block@.take(i as int),
                                gf,
                                dec,
                            ).push(event@));
                        }
                    },
                    None => {
                        proof {
                            assert(extract(block@.take(i as int + 1), gf, dec) =~= extract(
                                block@.take(i as int),
                                gf,
                                dec,
                            ));
                        }
                    },
                }
            } else {
                proof {
                    assert(extract(block@.take(i as int + 1), gf, dec) =~= extract(
                        block@.take(i as int),
                        gf,
                        dec,
                    ));
                }
            }
            i += 1;
        }
        proof {
            assert(block@.take(block.logs.len() as int) =~= block@);
        }
        Ok(events)
    }
}

/// Total conversion of an extracted event into an output message. The
/// message's view is a function of the event's view alone, so the same
/// event always yields the same message.
pub trait Convert<E: View>: View + Sized {
    /// The view of the message this event converts to.
    spec fn spec_message(event: E::V) -> Self::V;

    /// Converts one event into its message form.
    fn convert(event: E) -> (r: Self)
        ensures
            r@ == Self::spec_message(event@),
    ;
}

/// Conversion of an event into another type that may fail: an event that
/// does not carry what the destination type needs yields no value, which is
/// not an error.
pub trait FromEvent<T: View>: View + Sized {
    /// The conversion policy of the implementing type: the view of the
    /// value an event converts to, or nothing when it is rejected.
    spec fn spec_from_event(event: T::V) -> Option<Self::V>;

    /// Attempts to create this type from an event.
    fn from_event(event: T) -> (r: Option<Self>)
        ensures
            match r {
                Some(m) => Self::spec_from_event(event@) == Some(m@),
                None => Self::spec_from_event(event@) is None,
            },
    ;
}

/// One mapping invocation: extract the events of a block under an optional
/// address filter, convert each to its message form, and wrap the messages
/// into a batch whose view is the message views in block order.
pub trait Mapper<E: FromBlock, P: Convert<E>>: View<V = Seq<<P as View>::V>> + Sized {
    /// Wraps a plain sequence of messages into a batch, keeping the order.
    fn from_messages(messages: Vec<P>) -> (r: Self)
        ensures
            r@ == views_of(messages@),
    ;

    /// Maps one block to a batch: every event the filter admits and the
    /// event type decodes, converted, in block order. A filter that is not
    /// valid hexadecimal fails the whole invocation with no partial batch.
    fn map(block: Block, address: Option<&str>) -> (r: Result<Self, DecodeError>)
        ensures
            match map_result(
                block@,
                address_chars(address),
                |log: LogEntryModel| E::spec_decode(log),
                |ev: <E as View>::V| P::spec_message(ev),
            ) {
                Ok(msgs) => r matches Ok(b) && b@ == msgs,
                Err(e) => r matches Err(e2) && e2 == e,
            },
    {
        let ghost blk = block@;
        let ghost dec = |log: LogEntryModel| E::spec_decode(log);
        let ghost conv = |ev: <E as View>::V| P::spec_message(ev);
        let mut events: Vec<E>;
        match E::from_block(block, address) {
            Ok(es) => {
                events = es;
            },
            Err(e) => {
                return Err(e);
            },
        }
        let ghost all: Seq<E> = events@;
        proof {
            assert(extract_result(blk, address_chars(address), dec) matches Ok(evs) && views_of(
                all,
            ) == evs);
        }
        let mut messages: Vec<P> = Vec::new();
        proof {
            assert(views_of(Seq::<P>::empty()) =~= Seq::<<P as View>::V>::empty());
            assert(all.take(0) =~= Seq::<E>::empty());
            assert(views_of(Seq::<E>::empty()) =~= Seq::<<E as View>::V>::empty());
            assert(convert_all(Seq::<<E as View>::V>::empty(), conv) =~= Seq::<
                <P as View>::V,
            >::empty());
        }
        while events.len() > 0
            invariant
                dec == (|log: LogEntryModel| E::spec_decode(log)),
                conv == (|ev: <E as View>::V| P::spec_message(ev)),
                messages@.len() + events@.len() == all.len(),
                events@ == all.skip(messages@.len() as int),
                views_of(messages@) == convert_all(views_of(all.take(messages@.len() as int)), conv),
            decreases events.len(),
        {
            let ghost k = messages@.len() as int;
            let ghost pre_events = events@;
            let ghost pre_messages = messages@;
            let event = events.remove(0);
            proof {
                assert(event == all[k]);
                assert(events@ =~= all.skip(k + 1));
            }
            let message = P::convert(event);
            messages.push(message);
            proof {
                assert(views_of(messages@) =~= views_of(pre_messages).push(message@));
                assert(all.take(k + 1) =~= all.take(k).push(all[k]));
                assert(views_of(all.take(k + 1)) =~= views_of(all.take(k)).push(all[k]@));
                assert(convert_all(views_of(all.take(k + 1)), conv) =~= convert_all(
                    views_of(all.take(k)),
                    conv,
                ).push(conv(all[k]@)));
            }
        }
        proof {
            assert(all.take(all.len() as int) =~= all);
            assert(views_of(messages@) == convert_all(views_of(all), conv));
        }
        let batch = Self::from_messages(messages);
        Ok(batch)
    }
}

/// The log entries an optional decoded filter keeps, in their block
/// order.
pub open spec fn matching_logs(logs: Seq<LogEntryModel>, filter: Option<Seq<u8>>) -> Seq<
    LogEntryModel,
>
    decreases logs.len(),
{
    if logs.len() == 0 {
        Seq::empty()
    } else {
        matching_logs(logs.drop_last(), filter) + (if log_passes(logs.last(), filter) {
            seq![logs.last()]
        } else {
            Seq::empty()
        })
    }
}

/// An absent filter keeps every log entry, in order: extraction without a
/// filter does no address filtering at all.
pub proof fn lemma_no_filter(logs: Seq<LogEntryModel>)
    ensures
        matching_logs(logs, None) == logs,
    decreases logs.len(),
{
    if logs.len() == 0 {
        assert(matching_logs(logs, None) =~= logs);
    } else {
        lemma_no_filter(logs.drop_last());
        assert(matching_logs(logs, None) =~= logs);
    }
}

/// Order preservation: extracting under a filter equals first keeping the
/// matching log entries in their block order and then decoding those, so
/// the output order is the order of the block's matching entries.
pub proof fn lemma_extract_order<V>(
    logs: Seq<LogEntryModel>,
    filter: Option<Seq<u8>>,
    decode: spec_fn(LogEntryModel) -> Option<V>,
)
    ensures
        extract(logs, filter, decode) == extract(matching_logs(logs, filter), None, decode),
    decreases logs.len(),
{
    if logs.len() == 0 {
    } else {
        lemma_extract_order(logs.drop_last(), filter, decode);
        let m = matching_logs(logs, filter);
        if log_passes(logs.last(), filter) {
            assert(m.drop_last() =~= matching_logs(logs.drop_last(), filter));
            assert(m.last() == logs.last());
            assert(extract(logs, filter, decode) =~= extract(m, None, decode));
        } else {
            assert(m =~= matching_logs(logs.drop_last(), filter));
            assert(decoded_of(logs.last(), filter, decode) =~= Seq::<V>::empty());
            assert(extract(logs, filter, decode) =~= extract(logs.drop_last(), filter, decode));
        }
    }
}

/// Filter correctness: under a present filter, every extracted event was
/// decoded from some log entry whose address equals the decoded filter.
pub proof fn lemma_filter_correct<V>(
    logs: Seq<LogEntryModel>,
    f: Seq<u8>,
    decode: spec_fn(LogEntryModel) -> Option<V>,
    i: int,
)
    requires
        0 <= i < extract(logs, Some(f), decode).len(),
    ensures
        exists|j: int|
            0 <= j < logs.len() && (#[trigger] logs[j]).address == f && decode(logs[j]) == Some(
                extract(logs, Some(f), decode)[i],
            ),
    decreases logs.len(),
{
    let ex = extract(logs, Some(f), decode);
    let exd = extract(logs.drop_last(), Some(f), decode);
    if i < exd.len() {
        lemma_filter_correct(logs.drop_last(), f, decode, i);
        let j = choose|j: int|
            0 <= j < logs.drop_last().len() && (#[trigger] logs.drop_last()[j]).address == f
                && decode(logs.drop_last()[j]) == Some(exd[i]);
        assert(logs[j] == logs.drop_last()[j]);
        assert(ex[i] == exd[i]);
        assert(0 <= j < logs.len() && (#[trigger] logs[j]).address == f && decode(logs[j]) == Some(
            ex[i],
        ));
    } else {
        assert(log_passes(logs.last(), Some(f)));
        let j = logs.len() - 1;
        assert(decoded_of(logs.last(), Some(f), decode) == seq![ex[i]]);
        assert(0 <= j < logs.len() && (#[trigger] logs[j]).address == f && decode(logs[j]) == Some(
            ex[i],
        ));
    }
}

/// Mapping is idempotent: its outcome is a function of the block's and
/// filter's views alone, so two invocations on structurally identical
/// inputs yield structurally identical outcomes: equal batches on
/// success, the same error on failure.
pub proof fn lemma_map_idempotent<V, W>(
    logs: Seq<LogEntryModel>,
    address: Option<Seq<char>>,
    decode: spec_fn(LogEntryModel) -> Option<V>,
    conv: spec_fn(V) -> W,
    r1: Result<Seq<W>, DecodeError>,
    r2: Result<Seq<W>, DecodeError>,
)
    requires
        r1 == map_result(logs, address, decode, conv),
        r2 == map_result(logs, address, decode, conv),
    ensures
        r1 == r2,
{
}

} // verus!

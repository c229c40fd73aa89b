//! The byte format of consensus items.
//!
//! An item is one tag byte followed by its fields. Numbers are written
//! little-endian; a payload is written as its length, in eight bytes, and
//! then its bytes. An encoding holds exactly one item: nothing may follow it.

use vstd::prelude::*;
use vstd::bytes::spec_u16_from_le_bytes;
use vstd::bytes::spec_u16_to_le_bytes;
use vstd::bytes::spec_u64_from_le_bytes;
use vstd::bytes::spec_u64_to_le_bytes;
use vstd::bytes::u16_from_le_bytes;
use vstd::bytes::u16_to_le_bytes;
use vstd::bytes::u64_from_le_bytes;
use vstd::bytes::u64_to_le_bytes;
use vstd::slice::slice_subrange;
use vstd::slice::slice_to_vec;
use crate::types::ConsensusItem;
use crate::types::ConsensusItemView;
use crate::types::PeerId;

verus! {

pub const TAG_TRANSACTION: u8 = 0;

pub const TAG_MODULE: u8 = 1;

pub const TAG_EPOCH_INFO: u8 = 2;

/// Why bytes are not the encoding of an item.
#[derive(Clone, Copy, Debug, PartialEq, Eq)]
pub enum DecodeError {
    /// There are no bytes at all.
    Empty,
    /// The first byte is not the tag of any kind of item.
    UnknownTag(u8),
    /// The bytes end before the item does.
    Truncated,
    /// The item ends before the bytes do.
    TrailingBytes,
}

/// A payload as it is written: its length in eight bytes, then its bytes.
pub open spec fn encode_payload(payload: Seq<u8>) -> Seq<u8> {
    spec_u64_to_le_bytes(payload.len() as u64) + payload
}

/// The encoding of `item`.
pub open spec fn encode_item(item: ConsensusItemView) -> Seq<u8> {
    match item {
        ConsensusItemView::Transaction(tx) => seq![TAG_TRANSACTION] + encode_payload(tx),
        ConsensusItemView::Module(id, payload) => seq![TAG_MODULE] + spec_u16_to_le_bytes(id)
            + encode_payload(payload),
        ConsensusItemView::EpochInfo => seq![TAG_EPOCH_INFO],
    }
}

/// Reads `bytes` as a payload that fills them to the end.
pub open spec fn decode_payload(bytes: Seq<u8>) -> Result<Seq<u8>, DecodeError> {
    if bytes.len() < 8 {
        Err(DecodeError::Truncated)
    } else {
        let announced = spec_u64_from_le_bytes(bytes.subrange(0, 8));
        let present = bytes.len() - 8;
        if announced > present {
            Err(DecodeError::Truncated)
        } else if announced < present {
            Err(DecodeError::TrailingBytes)
        } else {
            Ok(bytes.subrange(8, bytes.len() as int))
        }
    }
}

/// The item that `bytes` encode, or why they encode none.
pub open spec fn decode_item(bytes: Seq<u8>) -> Result<ConsensusItemView, DecodeError> {
    if bytes.len() == 0 {
        Err(DecodeError::Empty)
    } else if bytes[0] == TAG_TRANSACTION {
        match decode_payload(bytes.subrange(1, bytes.len() as int)) {
            Ok(tx) => Ok(ConsensusItemView::Transaction(tx)),
            Err(e) => Err(e),
        }
    } else if bytes[0] == TAG_MODULE {
        if bytes.len() < 3 {
            Err(DecodeError::Truncated)
        } else {
            match decode_payload(bytes.subrange(3, bytes.len() as int)) {
                Ok(payload) => Ok(
                    ConsensusItemView::Module(spec_u16_from_le_bytes(bytes.subrange(1, 3)), payload),
                ),
                Err(e) => Err(e),
            }
        }
    } else if bytes[0] == TAG_EPOCH_INFO {
        if bytes.len() > 1 {
            Err(DecodeError::TrailingBytes)
        } else {
            Ok(ConsensusItemView::EpochInfo)
        }
    } else {
        Err(DecodeError::UnknownTag(bytes[0]))
    }
}

/// Whether the payloads of `item` are short enough for their length to be
/// written in eight bytes. Every item that fits in memory is.
pub open spec fn encodable(item: ConsensusItemView) -> bool {
    match item {
        ConsensusItemView::Transaction(tx) => tx.len() <= u64::MAX,
        ConsensusItemView::Module(_, payload) => payload.len() <= u64::MAX,
        ConsensusItemView::EpochInfo => true,
    }
}

/// A payload that is written and read again is the same payload.
pub proof fn lemma_payload_round_trip(payload: Seq<u8>)
    requires
        payload.len() <= u64::MAX,
    ensures
        decode_payload(encode_payload(payload)) == Ok::<Seq<u8>, DecodeError>(payload),
{
    vstd::bytes::lemma_auto_spec_u64_to_from_le_bytes();
    let written = encode_payload(payload);
    let head = spec_u64_to_le_bytes(payload.len() as u64);
    assert(written.subrange(0, 8) =~= head);
    assert(written.subrange(8, written.len() as int) =~= payload);
}

/// Bytes that read as a payload are what that payload is written as.
pub proof fn lemma_payload_canonical(bytes: Seq<u8>)
    requires
        decode_payload(bytes) is Ok,
    ensures
        encode_payload(decode_payload(bytes)->Ok_0) == bytes,
{
    vstd::bytes::lemma_auto_spec_u64_to_from_le_bytes();
    let payload = bytes.subrange(8, bytes.len() as int);
    let head = bytes.subrange(0, 8);
    assert(spec_u64_to_le_bytes(spec_u64_from_le_bytes(head)) == head);
    assert(head + payload =~= bytes);
}

/// Serialising an item and reading the bytes again gives the item back.
pub proof fn lemma_item_round_trip(item: ConsensusItemView)
    requires
        encodable(item),
    ensures
        decode_item(encode_item(item)) == Ok::<ConsensusItemView, DecodeError>(item),
{
    vstd::bytes::lemma_auto_spec_u16_to_from_le_bytes();
    let bytes = encode_item(item);
    match item {
        ConsensusItemView::Transaction(tx) => {
            lemma_payload_round_trip(tx);
            assert(bytes.subrange(1, bytes.len() as int) =~= encode_payload(tx));
        },
        ConsensusItemView::Module(id, payload) => {
            lemma_payload_round_trip(payload);
            assert(bytes.subrange(1, 3) =~= spec_u16_to_le_bytes(id));
            assert(bytes.subrange(3, bytes.len() as int) =~= encode_payload(payload));
        },
        ConsensusItemView::EpochInfo => {},
    }
}

/// Bytes that read as an item are byte for byte what that item serialises
/// to: reading and writing again changes nothing.
pub proof fn lemma_item_canonical(bytes: Seq<u8>)
    requires
        decode_item(bytes) is Ok,
    ensures
        encode_item(decode_item(bytes)->Ok_0) == bytes,
{
    vstd::bytes::lemma_auto_spec_u16_to_from_le_bytes();
    if bytes[0] == TAG_TRANSACTION {
        let rest = bytes.subrange(1, bytes.len() as int);
        lemma_payload_canonical(rest);
        assert(seq![TAG_TRANSACTION] + rest =~= bytes);
    } else if bytes[0] == TAG_MODULE {
        let id = bytes.subrange(1, 3);
        let rest = bytes.subrange(3, bytes.len() as int);
        lemma_payload_canonical(rest);
        assert(spec_u16_to_le_bytes(spec_u16_from_le_bytes(id)) == id);
        assert(seq![TAG_MODULE] + id + rest =~= bytes);
    } else {
        assert(bytes =~= seq![TAG_EPOCH_INFO]);
    }
}

fn write_payload(out: &mut Vec<u8>, payload: &Vec<u8>)
    ensures
        final(out)@ == old(out)@ + encode_payload(payload@),
        payload@.len() <= u64::MAX,
{
    let mut head = u64_to_le_bytes(payload.len() as u64);
    out.append(&mut head);
    let mut body = slice_to_vec(payload.as_slice());
    out.append(&mut body);
    assert(out@ =~= old(out)@ + encode_payload(payload@));
}

fn read_payload(bytes: &[u8]) -> (res: Result<Vec<u8>, DecodeError>)
    ensures
        match res {
            Ok(payload) => decode_payload(bytes@) == Ok::<Seq<u8>, DecodeError>(payload@),
            Err(e) => decode_payload(bytes@) == Err::<Seq<u8>, DecodeError>(e),
        },
{
    if bytes.len() < 8 {
        return Err(DecodeError::Truncated);
    }
    let announced = u64_from_le_bytes(slice_subrange(bytes, 0, 8));
    let present = bytes.len() - 8;
    if announced > present as u64 {
        Err(DecodeError::Truncated)
    } else if announced < present as u64 {
        Err(DecodeError::TrailingBytes)
    } else {
        Ok(slice_to_vec(slice_subrange(bytes, 8, bytes.len())))
    }
}

impl ConsensusItem {
    /// The bytes that stand for this item.
    pub fn encode(&self) -> (bytes: Vec<u8>)
        ensures
            bytes@ == encode_item(self@),
            decode_item(bytes@) == Ok::<ConsensusItemView, DecodeError>(self@),
    {
        let mut out: Vec<u8> = Vec::new();
        match self {
            ConsensusItem::Transaction(tx) => {
                out.push(TAG_TRANSACTION);
                write_payload(&mut out, tx);
            },
            ConsensusItem::Module(id, payload) => {
                out.push(TAG_MODULE);
                let mut id_bytes = u16_to_le_bytes(*id);
                out.append(&mut id_bytes);
                write_payload(&mut out, payload);
            },
            ConsensusItem::EpochInfo => {
                out.push(TAG_EPOCH_INFO);
            },
        }
        proof {
            assert(out@ =~= encode_item(self@));
            lemma_item_round_trip(self@);
        }
        out
    }

    /// The item that `bytes` stand for, or why they stand for none.
    pub fn decode(bytes: &[u8]) -> (res: Result<ConsensusItem, DecodeError>)
        ensures
            match res {
                Ok(item) => decode_item(bytes@) == Ok::<ConsensusItemView, DecodeError>(item@)
                    && encode_item(item@) == bytes@,
                Err(e) => decode_item(bytes@) == Err::<ConsensusItemView, DecodeError>(e),
            },
    {
        if bytes.len() == 0 {
            return Err(DecodeError::Empty);
        }
        let tag = bytes[0];
        let res = if tag == TAG_TRANSACTION {
            match read_payload(slice_subrange(bytes, 1, bytes.len())) {
                Ok(tx) => Ok(ConsensusItem::Transaction(tx)),
                Err(e) => Err(e),
            }
        } else if tag == TAG_MODULE {
            if bytes.len() < 3 {
                Err(DecodeError::Truncated)
            } else {
                let id = u16_from_le_bytes(slice_subrange(bytes, 1, 3));
                match read_payload(slice_subrange(bytes, 3, bytes.len())) {
                    Ok(payload) => Ok(ConsensusItem::Module(id, payload)),
                    Err(e) => Err(e),
                }
            }
        } else if tag == TAG_EPOCH_INFO {
            if bytes.len() > 1 {
                Err(DecodeError::TrailingBytes)
            } else {
                Ok(ConsensusItem::EpochInfo)
            }
        } else {
            Err(DecodeError::UnknownTag(tag))
        };
        proof {
            if res is Ok {
                lemma_item_canonical(bytes@);
            }
        }
        res
    }
}

/// One entry of an epoch as it is hashed: the proposing peer, then the
/// item's encoding as a payload.
pub open spec fn encode_entry(entry: (PeerId, ConsensusItemView)) -> Seq<u8> {
    spec_u16_to_le_bytes(entry.0) + encode_payload(encode_item(entry.1))
}

/// The entries of an epoch as they are hashed, one after the other.
pub open spec fn encode_entries(entries: Seq<(PeerId, ConsensusItemView)>) -> Seq<u8>
    decreases entries.len(),
{
    if entries.len() == 0 {
        Seq::<u8>::empty()
    } else {
        encode_entries(entries.drop_last()) + encode_entry(entries.last())
    }
}

/// The bytes of an epoch that its hash is taken of: the epoch's number,
/// the number of its entries, and the entries in their order.
pub open spec fn encode_epoch(epoch: u64, entries: Seq<(PeerId, ConsensusItemView)>) -> Seq<u8> {
    spec_u64_to_le_bytes(epoch) + spec_u64_to_le_bytes(entries.len() as u64) + encode_entries(
        entries,
    )
}

/// The views of `items`, in order.
pub open spec fn views_of(items: Seq<(PeerId, ConsensusItem)>) -> Seq<(PeerId, ConsensusItemView)> {
    items.map_values(|e: (PeerId, ConsensusItem)| (e.0, e.1@))
}

/// The bytes of an epoch that its hash is taken of.
pub fn epoch_bytes(epoch: u64, items: &Vec<(PeerId, ConsensusItem)>) -> (bytes: Vec<u8>)
    ensures
        bytes@ == encode_epoch(epoch, views_of(items@)),
{
    let mut out = u64_to_le_bytes(epoch);
    let mut count = u64_to_le_bytes(items.len() as u64);
    out.append(&mut count);
    let ghost head = out@;
    let mut i: usize = 0;
    while i < items.len()
        invariant
            i <= items.len(),
            out@ == head + encode_entries(views_of(items@).subrange(0, i as int)),
        decreases items.len() - i,
    {
        let mut peer = u16_to_le_bytes(items[i].0);
        out.append(&mut peer);
        let encoded = items[i].1.encode();
        write_payload(&mut out, &encoded);
        proof {
            let upto = views_of(items@).subrange(0, i + 1);
            assert(upto.drop_last() =~= views_of(items@).subrange(0, i as int));
            assert(upto.last() == (items@[i as int].0, items@[i as int].1@));
            assert(out@ =~= head + encode_entries(upto));
        }
        i += 1;
    }
    proof {
        assert(views_of(items@).subrange(0, i as int) =~= views_of(items@));
    }
    out
}

} // verus!

//! SETTINGS frames: setting identifiers, their emission order, and the frame payload.

use vstd::prelude::*;
use crate::head::{
    head_bytes, head_of_bytes, kind_code, kind_of_code, lemma_head_round_trip, payload_len_of_bytes,
    Error, Head, Kind, StreamId, FRAME_LEN_LIMIT, HEADER_LEN,
};
use crate::buffer::{buffer_bytes, put_slice};
use bytes::BytesMut;
use crate::inline_vec::{setting_id_items, setting_items, SettingIdList, SettingList};
use crate::wire::{
    be16, be16_value, be32, be32_value, get_u16, get_u32, lemma_be16_round_trip,
    lemma_be32_round_trip, put_u16, put_u32,
};

verus! {

/// Largest identifier code that an order can track, and that an unknown setting may carry.
pub const MAX_SETTING_ID: u16 = 15;

/// Length of one setting record on the wire.
pub const SETTING_LEN: usize = 6;

/// Number of identifiers in the order used when none is given.
pub const DEFAULT_SETTING_STACK_SIZE: usize = 8;

/// The ACK bit of the SETTINGS flags.
pub const ACK: u8 = 0x1;

/// Every flag bit that SETTINGS defines.
pub const ALL: u8 = ACK;

/// Default value of SETTINGS_HEADER_TABLE_SIZE.
pub const DEFAULT_SETTINGS_HEADER_TABLE_SIZE: usize = 4_096;

/// Default value of SETTINGS_INITIAL_WINDOW_SIZE.
pub const DEFAULT_INITIAL_WINDOW_SIZE: u32 = 65_535;

/// Default, and smallest, value of SETTINGS_MAX_FRAME_SIZE.
pub const DEFAULT_MAX_FRAME_SIZE: u32 = 16_384;

/// Largest value of SETTINGS_INITIAL_WINDOW_SIZE.
pub const MAX_INITIAL_WINDOW_SIZE: usize = 0x7fff_ffff;

/// Largest value of SETTINGS_MAX_FRAME_SIZE.
pub const MAX_MAX_FRAME_SIZE: u32 = 0xff_ffff;

/// The identifier of a setting: one of the known codes, or any other code.
#[derive(Clone, Copy, Debug, PartialEq, Eq, Structural, Hash, PartialOrd, Ord)]
pub enum SettingId {
    HeaderTableSize,
    EnablePush,
    MaxConcurrentStreams,
    InitialWindowSize,
    MaxFrameSize,
    MaxHeaderListSize,
    EnableConnectProtocol,
    Unknown(u16),
}

/// The wire code of `id`.
pub open spec fn setting_code(id: SettingId) -> u16 {
    match id {
        SettingId::HeaderTableSize => 1,
        SettingId::EnablePush => 2,
        SettingId::MaxConcurrentStreams => 3,
        SettingId::InitialWindowSize => 4,
        SettingId::MaxFrameSize => 5,
        SettingId::MaxHeaderListSize => 6,
        SettingId::EnableConnectProtocol => 8,
        SettingId::Unknown(c) => c,
    }
}

/// The identifier that a wire code names.
pub open spec fn setting_id_of_code(c: u16) -> SettingId {
    if c == 1 {
        SettingId::HeaderTableSize
    } else if c == 2 {
        SettingId::EnablePush
    } else if c == 3 {
        SettingId::MaxConcurrentStreams
    } else if c == 4 {
        SettingId::InitialWindowSize
    } else if c == 5 {
        SettingId::MaxFrameSize
    } else if c == 6 {
        SettingId::MaxHeaderListSize
    } else if c == 8 {
        SettingId::EnableConnectProtocol
    } else {
        SettingId::Unknown(c)
    }
}

/// The bit that tracks `id` in an order's mask: bit `code - 1` for codes 1 to 15,
/// and no bit (0) for code 0 and codes above 15.
pub open spec fn mask_bit(id: SettingId) -> u16 {
    let c = setting_code(id);
    if c == 0 || c > 15 {
        0
    } else {
        1u16 << ((c - 1) as u16)
    }
}

/// The identifiers written when no order is given.
pub open spec fn default_order() -> Seq<SettingId> {
    seq![
        SettingId::HeaderTableSize,
        SettingId::EnablePush,
        SettingId::InitialWindowSize,
        SettingId::MaxConcurrentStreams,
        SettingId::MaxFrameSize,
        SettingId::MaxHeaderListSize,
        SettingId::EnableConnectProtocol,
        SettingId::Unknown(0x9),
    ]
}

impl SettingId {
    pub fn code(&self) -> (r: u16)
        ensures
            r == setting_code(*self),
    {
        match self {
            SettingId::HeaderTableSize => 1,
            SettingId::EnablePush => 2,
            SettingId::MaxConcurrentStreams => 3,
            SettingId::InitialWindowSize => 4,
            SettingId::MaxFrameSize => 5,
            SettingId::MaxHeaderListSize => 6,
            SettingId::EnableConnectProtocol => 8,
            SettingId::Unknown(c) => *c,
        }
    }

    pub fn from_code(c: u16) -> (r: SettingId)
        ensures
            r == setting_id_of_code(c),
    {
        match c {
            1 => SettingId::HeaderTableSize,
            2 => SettingId::EnablePush,
            3 => SettingId::MaxConcurrentStreams,
            4 => SettingId::InitialWindowSize,
            5 => SettingId::MaxFrameSize,
            6 => SettingId::MaxHeaderListSize,
            8 => SettingId::EnableConnectProtocol,
            _ => SettingId::Unknown(c),
        }
    }

    /// The identifiers written when no order is given, in that order.
    pub fn default_ids() -> (r: Vec<SettingId>)
        ensures
            r@ == default_order(),
    {
        let r = vec![
            SettingId::HeaderTableSize,
            SettingId::EnablePush,
            SettingId::InitialWindowSize,
            SettingId::MaxConcurrentStreams,
            SettingId::MaxFrameSize,
            SettingId::MaxHeaderListSize,
            SettingId::EnableConnectProtocol,
            SettingId::Unknown(0x9),
        ];
        assert(r@ =~= default_order());
        r
    }

    fn mask_id(&self) -> (r: u16)
        ensures
            r == mask_bit(*self),
    {
        let value = self.code();
        if value == 0 || value > MAX_SETTING_ID {
            return 0;
        }
        1u16 << (value - 1)
    }
}

/// Bit `k` of `m` is set.
pub open spec fn bit16(m: u16, k: u16) -> bool {
    (m >> k) & 1 == 1
}

/// Some identifier of `s` has the wire code `c`.
pub open spec fn has_code(s: Seq<SettingId>, c: u16) -> bool {
    exists|i: int| 0 <= i < s.len() && setting_code(s[i]) == c
}

/// What pushing `id` does to the identifiers `s` of an order: an identifier
/// without a bit (code 0 or above 15), or whose code is already there, is dropped.
pub open spec fn order_push(s: Seq<SettingId>, id: SettingId) -> Seq<SettingId> {
    let c = setting_code(id);
    if c == 0 || c > 15 || has_code(s, c) {
        s
    } else {
        s.push(id)
    }
}

/// Pushing each of `input` in turn, from the first.
pub open spec fn order_push_all(s: Seq<SettingId>, input: Seq<SettingId>) -> Seq<SettingId>
    decreases input.len(),
{
    if input.len() == 0 {
        s
    } else {
        order_push(order_push_all(s, input.drop_last()), input.last())
    }
}

proof fn lemma_order_push_all_len(s: Seq<SettingId>, input: Seq<SettingId>)
    ensures
        order_push_all(s, input).len() <= s.len() + input.len(),
    decreases input.len(),
{
    if input.len() > 0 {
        lemma_order_push_all_len(s, input.drop_last());
    }
}

proof fn lemma_mask_bit(id: SettingId)
    ensures
        (mask_bit(id) != 0) == (1 <= setting_code(id) <= 15),
{
    let c = setting_code(id);
    if 1 <= c <= 15 {
        let b = (c - 1) as u16;
        assert(1u16 << b != 0) by (bit_vector)
            requires
                b < 15,
        ;
    }
}

proof fn lemma_mask_test(m: u16, id: SettingId)
    requires
        mask_bit(id) != 0,
    ensures
        1 <= setting_code(id) <= 15,
        (m & mask_bit(id) != 0) == bit16(m, (setting_code(id) - 1) as u16),
        forall|k: u16| k < 15 ==> #[trigger] bit16(m | mask_bit(id), k) == (bit16(m, k) || k == setting_code(id) - 1),
{
    let b = (setting_code(id) - 1) as u16;
    assert((m & (1u16 << b) != 0) == ((m >> b) & 1 == 1)) by (bit_vector)
        requires
            b < 15,
    ;
    assert forall|k: u16| k < 15 implies #[trigger] bit16(m | mask_bit(id), k) == (bit16(m, k) || k == b) by {
        assert((((m | (1u16 << b)) >> k) & 1 == 1) == (((m >> k) & 1 == 1) || k == b)) by (bit_vector)
            requires
                b < 15,
                k < 15,
        ;
    }
}

/// An insertion-ordered list of setting identifiers, each code at most once.
#[derive(Clone, Debug, PartialEq, Eq)]
pub struct SettingsOrder {
    pub ids: SettingIdList,
    /// Bit `code - 1` is set for each code in `ids`.
    pub mask: u16,
}

impl SettingsOrder {
    pub open spec fn wf(&self) -> bool {
        &&& forall|i: int| 0 <= i < setting_id_items(self.ids).len() ==> 1 <= #[trigger] setting_code(setting_id_items(self.ids)[i]) <= 15
        &&& forall|i: int, j: int| 0 <= i < j < setting_id_items(self.ids).len()
            ==> setting_code(setting_id_items(self.ids)[i]) != setting_code(setting_id_items(self.ids)[j])
        &&& forall|k: u16| k < 15 ==> (#[trigger] bit16(self.mask, k) <==> has_code(setting_id_items(self.ids), (k + 1) as u16))
        &&& !bit16(self.mask, 15)
    }

    /// An empty order.
    pub fn new() -> (r: SettingsOrder)
        ensures
            r.wf(),
            setting_id_items(r.ids).len() == 0,
            r.mask == 0,
    {
        assert forall|k: u16| k < 16 implies !#[trigger] bit16(0, k) by {
            assert((0u16 >> k) & 1 == 0) by (bit_vector);
        }
        SettingsOrder { ids: SettingIdList::new(), mask: 0 }
    }

    /// Appends `id` unless it has no bit or its code is already in the order.
    pub fn push(&mut self, id: SettingId)
        requires
            old(self).wf(),
            setting_id_items(old(self).ids).len() < usize::MAX,
        ensures
            final(self).wf(),
            setting_id_items(final(self).ids) == order_push(setting_id_items(old(self).ids), id),
    {
        let mask_id = id.mask_id();
        proof {
            lemma_mask_bit(id);
        }
        if mask_id == 0 {
            return;
        }
        proof {
            lemma_mask_test(self.mask, id);
        }
        let c = id.code();
        if self.mask & mask_id == 0 {
            let ghost old_s = setting_id_items(self.ids);
            let ghost old_m = self.mask;
            self.mask = self.mask | mask_id;
            self.ids.push(id);
            proof {
                let s = setting_id_items(self.ids);
                let b = (c - 1) as u16;
                assert(!has_code(old_s, c)) by {
                    assert(bit16(old_m, b) <==> has_code(old_s, (b + 1) as u16));
                }
                assert forall|k: u16| k < 15 implies (#[trigger] bit16(self.mask, k) <==> has_code(s, (k + 1) as u16)) by {
                    if has_code(s, (k + 1) as u16) {
                        let j = choose|j: int| 0 <= j < s.len() && setting_code(s[j]) == (k + 1) as u16;
                        if j < old_s.len() {
                            assert(old_s[j] == s[j]);
                        }
                    }
                    if has_code(old_s, (k + 1) as u16) {
                        let j = choose|j: int| 0 <= j < old_s.len() && setting_code(old_s[j]) == (k + 1) as u16;
                        assert(s[j] == old_s[j]);
                    }
                    if k == b {
                        assert(setting_code(s[s.len() - 1]) == c);
                    }
                }
                assert(!bit16(self.mask, 15)) by {
                    assert(((old_m >> 15u16) & 1 != 1) ==> (((old_m | (1u16 << b)) >> 15u16) & 1 != 1)) by (bit_vector)
                        requires
                            b < 15,
                    ;
                }
                assert forall|i: int, j: int| 0 <= i < j < s.len() implies setting_code(s[i]) != setting_code(s[j]) by {
                    if j == s.len() - 1 {
                        assert(old_s[i] == s[i]);
                    }
                }
                assert forall|i: int| 0 <= i < s.len() implies 1 <= #[trigger] setting_code(s[i]) <= 15 by {
                    if i < old_s.len() {
                        assert(old_s[i] == s[i]);
                    }
                }
            }
        } else {
            proof {
                let b = (c - 1) as u16;
                assert(bit16(self.mask, b) <==> has_code(setting_id_items(self.ids), (b + 1) as u16));
            }
        }
    }

    /// Pushes each of `ids` in turn; the first of a code wins.
    pub fn extend(&mut self, ids: Vec<SettingId>)
        requires
            old(self).wf(),
            setting_id_items(old(self).ids).len() + ids@.len() < usize::MAX,
        ensures
            final(self).wf(),
            setting_id_items(final(self).ids) == order_push_all(setting_id_items(old(self).ids), ids@),
    {
        let ghost start = setting_id_items(self.ids);
        let mut i: usize = 0;
        while i < ids.len()
            invariant
                0 <= i <= ids@.len(),
                self.wf(),
                setting_id_items(self.ids) == order_push_all(start, ids@.take(i as int)),
                start.len() + ids@.len() < usize::MAX,
            decreases ids@.len() - i,
        {
            proof {
                assert(ids@.take(i as int + 1).drop_last() =~= ids@.take(i as int));
                lemma_order_push_all_len(start, ids@.take(i as int));
            }
            self.push(ids[i]);
            i = i + 1;
        }
        proof {
            assert(ids@.take(i as int) =~= ids@);
        }
    }

    /// The identifiers, in the order in which they were pushed.
    pub fn as_slice(&self) -> (r: &[SettingId])
        ensures
            r@ == setting_id_items(self.ids),
    {
        self.ids.as_slice()
    }

    pub fn len(&self) -> (r: usize)
        ensures
            r == setting_id_items(self.ids).len(),
    {
        self.ids.as_slice().len()
    }
}

impl Default for SettingsOrder {
    fn default() -> (r: SettingsOrder)
        ensures
            r.wf(),
            setting_id_items(r.ids).len() == 0,
            r.mask == 0,
    {
        SettingsOrder::new()
    }
}

/// Pushing the same identifier twice leaves the order as pushing it once.
pub proof fn lemma_order_push_twice(s: Seq<SettingId>, id: SettingId)
    ensures
        order_push(order_push(s, id), id) == order_push(s, id),
{
    let t = order_push(s, id);
    let c = setting_code(id);
    if !(c == 0 || c > 15 || has_code(s, c)) {
        assert(setting_code(t[t.len() - 1]) == setting_code(id));
    }
}

/// An identifier whose code is 0 or above 15 carries no bit and is never added.
pub proof fn lemma_order_push_without_bit(s: Seq<SettingId>, id: SettingId)
    requires
        setting_code(id) == 0 || setting_code(id) > 15,
    ensures
        order_push(s, id) == s,
{
}

/// One setting: an identifier and its 32-bit value.
#[derive(Clone, Copy, Debug, PartialEq, Eq, Structural, Hash)]
pub struct Setting {
    pub id: SettingId,
    pub value: u32,
}

/// The setting that `from_id` makes: none for an unknown code outside 1 to 15.
pub open spec fn setting_from_id(id: SettingId, value: u32) -> Option<Setting> {
    match id {
        SettingId::Unknown(c) => if c == 0 || c > 15 {
            None
        } else {
            Some(Setting { id, value })
        },
        _ => Some(Setting { id, value }),
    }
}

/// The setting that a six-byte record spells, if any.
pub open spec fn setting_of_bytes(b: Seq<u8>) -> Option<Setting> {
    setting_from_id(setting_id_of_code(be16_value(b.subrange(0, 2))), be32_value(b.subrange(2, 6)))
}

/// The six-byte record of `s`.
pub open spec fn setting_bytes(s: Setting) -> Seq<u8> {
    be16(setting_code(s.id)) + be32(s.value)
}

impl Setting {
    /// A setting for `id`; none when `id` is an unknown code outside 1 to 15.
    /// The value is not checked here.
    pub fn from_id(id: SettingId, value: u32) -> (r: Option<Setting>)
        ensures
            r == setting_from_id(id, value),
    {
        if let SettingId::Unknown(c) = id {
            if c == 0 || c > MAX_SETTING_ID {
                return None;
            }
        }
        Some(Setting { id, value })
    }

    /// Reads a setting from the first six bytes of `raw`.
    fn load(raw: &[u8]) -> (r: Option<Setting>)
        requires
            raw@.len() >= SETTING_LEN,
        ensures
            r == setting_of_bytes(raw@.subrange(0, 6)),
    {
        let id = get_u16(raw, 0);
        let val = get_u32(raw, 2);
        proof {
            assert(raw@.subrange(0, 6).subrange(0, 2) =~= raw@.subrange(0, 2));
            assert(raw@.subrange(0, 6).subrange(2, 6) =~= raw@.subrange(2, 6));
        }
        Setting::from_id(SettingId::from_code(id), val)
    }

    /// Appends the six-byte record.
    pub fn encode(&self, dst: &mut Vec<u8>)
        ensures
            final(dst)@ == old(dst)@ + setting_bytes(*self),
    {
        put_u16(dst, self.id.code());
        put_u32(dst, self.value);
        assert(dst@ =~= old(dst)@ + setting_bytes(*self));
    }

    pub fn id(&self) -> (r: SettingId)
        ensures
            r == self.id,
    {
        self.id
    }

    pub fn value(&self) -> (r: u32)
        ensures
            r == self.value,
    {
        self.value
    }
}

/// The flags byte of a SETTINGS frame.
#[derive(Clone, Copy, Debug, PartialEq, Eq, Structural, Hash)]
pub struct SettingsFlags(pub u8);

impl SettingsFlags {
    pub fn empty() -> (r: SettingsFlags)
        ensures
            r.0 == 0,
    {
        SettingsFlags(0)
    }

    /// Keeps the bits that SETTINGS defines.
    pub fn load(bits: u8) -> (r: SettingsFlags)
        ensures
            r.0 == bits & ALL,
    {
        SettingsFlags(bits & ALL)
    }

    pub fn ack() -> (r: SettingsFlags)
        ensures
            r.0 == ACK,
    {
        SettingsFlags(ACK)
    }

    pub fn is_ack(&self) -> (r: bool)
        ensures
            r == (self.0 & ACK == ACK),
    {
        self.0 & ACK == ACK
    }

    pub fn bits(&self) -> (r: u8)
        ensures
            r == self.0,
    {
        self.0
    }
}

/// What a SETTINGS frame holds, as plain values.
pub struct SettingsView {
    pub flags: u8,
    pub header_table_size: Option<u32>,
    pub enable_push: Option<u32>,
    pub max_concurrent_streams: Option<u32>,
    pub initial_window_size: Option<u32>,
    pub max_frame_size: Option<u32>,
    pub max_header_list_size: Option<u32>,
    pub enable_connect_protocol: Option<u32>,
    pub unknown_settings: Option<Seq<Setting>>,
    pub settings_order: Option<Seq<SettingId>>,
}

/// A frame that specifies nothing.
pub open spec fn empty_view() -> SettingsView {
    SettingsView {
        flags: 0,
        header_table_size: None,
        enable_push: None,
        max_concurrent_streams: None,
        initial_window_size: None,
        max_frame_size: None,
        max_header_list_size: None,
        enable_connect_protocol: None,
        unknown_settings: None,
        settings_order: None,
    }
}

/// The acknowledgement: the ACK flag and nothing else.
pub open spec fn ack_view() -> SettingsView {
    SettingsView { flags: ACK, ..empty_view() }
}

/// The unknown settings of `v`, none when the list is absent.
pub open spec fn unknown_list(v: SettingsView) -> Seq<Setting> {
    match v.unknown_settings {
        Some(l) => l,
        None => Seq::empty(),
    }
}

/// What storing the loaded setting `st` does: a known value outside its domain
/// is an error, an unknown setting is appended to the unknown list.
pub open spec fn store_setting(v: SettingsView, st: Setting) -> Result<SettingsView, Error> {
    let x = st.value;
    match st.id {
        SettingId::HeaderTableSize => Ok(SettingsView { header_table_size: Some(x), ..v }),
        SettingId::EnablePush => if x <= 1 {
            Ok(SettingsView { enable_push: Some(x), ..v })
        } else {
            Err(Error::InvalidSettingValue)
        },
        SettingId::MaxConcurrentStreams => Ok(SettingsView { max_concurrent_streams: Some(x), ..v }),
        SettingId::InitialWindowSize => if x <= 0x7fff_ffff {
            Ok(SettingsView { initial_window_size: Some(x), ..v })
        } else {
            Err(Error::InvalidSettingValue)
        },
        SettingId::MaxFrameSize => if 16_384 <= x <= 0xff_ffff {
            Ok(SettingsView { max_frame_size: Some(x), ..v })
        } else {
            Err(Error::InvalidSettingValue)
        },
        SettingId::MaxHeaderListSize => Ok(SettingsView { max_header_list_size: Some(x), ..v }),
        SettingId::EnableConnectProtocol => if x <= 1 {
            Ok(SettingsView { enable_connect_protocol: Some(x), ..v })
        } else {
            Err(Error::InvalidSettingValue)
        },
        SettingId::Unknown(_) => Ok(SettingsView { unknown_settings: Some(unknown_list(v).push(st)), ..v }),
    }
}

/// The first `n` six-byte records of `p`, loaded in turn into an empty frame;
/// a record whose identifier is dropped leaves the frame as it was.
pub open spec fn load_records(p: Seq<u8>, n: nat) -> Result<SettingsView, Error>
    decreases n,
{
    if n == 0 {
        Ok(empty_view())
    } else {
        match load_records(p, (n - 1) as nat) {
            Err(e) => Err(e),
            Ok(v) => match setting_of_bytes(p.subrange(6 * (n - 1), 6 * n as int)) {
                None => Ok(v),
                Some(st) => store_setting(v, st),
            },
        }
    }
}

/// What loading a SETTINGS frame with header `h` and payload `p` gives.
pub open spec fn settings_load(h: Head, p: Seq<u8>) -> Result<SettingsView, Error> {
    if h.stream_id.0 != 0 {
        Err(Error::InvalidStreamId)
    } else if h.flag & ACK == ACK {
        if p.len() != 0 {
            Err(Error::InvalidPayloadLength)
        } else {
            Ok(ack_view())
        }
    } else if p.len() % 6 != 0 {
        Err(Error::InvalidPayloadAckSettings)
    } else {
        load_records(p, (p.len() / 6) as nat)
    }
}

/// The first setting of `l` whose identifier is `id`.
pub open spec fn first_with_id(l: Seq<Setting>, id: SettingId) -> Option<Setting>
    decreases l.len(),
{
    if l.len() == 0 {
        None
    } else if l[0].id == id {
        Some(l[0])
    } else {
        first_with_id(l.drop_first(), id)
    }
}

/// The setting that `v` writes for `id`, if any.
pub open spec fn setting_for(v: SettingsView, id: SettingId) -> Option<Setting> {
    let field = match id {
        SettingId::HeaderTableSize => v.header_table_size,
        SettingId::EnablePush => v.enable_push,
        SettingId::MaxConcurrentStreams => v.max_concurrent_streams,
        SettingId::InitialWindowSize => v.initial_window_size,
        SettingId::MaxFrameSize => v.max_frame_size,
        SettingId::MaxHeaderListSize => v.max_header_list_size,
        SettingId::EnableConnectProtocol => v.enable_connect_protocol,
        SettingId::Unknown(_) => None,
    };
    match id {
        SettingId::Unknown(_) => first_with_id(unknown_list(v), id),
        _ => match field {
            Some(x) => Some(Setting { id, value: x }),
            None => None,
        },
    }
}

/// The identifiers that `v` is written in: its own order, or the default one.
pub open spec fn order_ids(v: SettingsView) -> Seq<SettingId> {
    match v.settings_order {
        Some(o) => o,
        None => default_order(),
    }
}

/// The settings that `v` writes for `ids`, in that order.
pub open spec fn emitted(v: SettingsView, ids: Seq<SettingId>) -> Seq<Setting>
    decreases ids.len(),
{
    if ids.len() == 0 {
        Seq::empty()
    } else {
        let rest = emitted(v, ids.drop_last());
        match setting_for(v, ids.last()) {
            Some(st) => rest.push(st),
            None => rest,
        }
    }
}

/// The records of `ss`, one after the other.
pub open spec fn records_bytes(ss: Seq<Setting>) -> Seq<u8>
    decreases ss.len(),
{
    if ss.len() == 0 {
        Seq::empty()
    } else {
        records_bytes(ss.drop_last()) + setting_bytes(ss.last())
    }
}

/// The header of the SETTINGS frame with flags `flags`.
pub open spec fn settings_head(flags: u8) -> Head {
    Head { kind: Kind::Settings, flag: flags, stream_id: StreamId(0) }
}

/// The whole SETTINGS frame of `v`.
pub open spec fn settings_frame_bytes(v: SettingsView) -> Seq<u8> {
    let ss = emitted(v, order_ids(v));
    head_bytes(settings_head(v.flags), (6 * ss.len()) as u32) + records_bytes(ss)
}

proof fn lemma_load_records_err(p: Seq<u8>, k: nat, m: nat)
    requires
        k <= m,
        load_records(p, k) is Err,
    ensures
        load_records(p, m) == load_records(p, k),
    decreases m - k,
{
    if k < m {
        lemma_load_records_err(p, k, (m - 1) as nat);
    }
}

proof fn lemma_emitted_len(v: SettingsView, ids: Seq<SettingId>)
    ensures
        emitted(v, ids).len() <= ids.len(),
    decreases ids.len(),
{
    if ids.len() > 0 {
        lemma_emitted_len(v, ids.drop_last());
    }
}

proof fn lemma_records_bytes_len(ss: Seq<Setting>)
    ensures
        records_bytes(ss).len() == 6 * ss.len(),
    decreases ss.len(),
{
    if ss.len() > 0 {
        lemma_records_bytes_len(ss.drop_last());
        lemma_be16_round_trip(setting_code(ss.last().id));
        lemma_be32_round_trip(ss.last().value);
    }
}

/// The payload of a SETTINGS frame: an ACK flag, the known settings that it
/// specifies, the unknown settings that it carries, and an optional order to
/// write them in.
#[derive(Clone, Debug, PartialEq, Eq)]
pub struct Settings {
    pub flags: SettingsFlags,
    pub header_table_size: Option<u32>,
    pub enable_push: Option<u32>,
    pub max_concurrent_streams: Option<u32>,
    pub initial_window_size: Option<u32>,
    pub max_frame_size: Option<u32>,
    pub max_header_list_size: Option<u32>,
    pub enable_connect_protocol: Option<u32>,
    pub unknown_settings: Option<SettingList>,
    pub settings_order: Option<SettingsOrder>,
}

impl View for Settings {
    type V = SettingsView;

    open spec fn view(&self) -> SettingsView {
        SettingsView {
            flags: self.flags.0,
            header_table_size: self.header_table_size,
            enable_push: self.enable_push,
            max_concurrent_streams: self.max_concurrent_streams,
            initial_window_size: self.initial_window_size,
            max_frame_size: self.max_frame_size,
            max_header_list_size: self.max_header_list_size,
            enable_connect_protocol: self.enable_connect_protocol,
            unknown_settings: match self.unknown_settings {
                Some(l) => Some(setting_items(l)),
                None => None,
            },
            settings_order: match self.settings_order {
                Some(o) => Some(setting_id_items(o.ids)),
                None => None,
            },
        }
    }
}

/// `r` is the loaded frame `m`, or the same error.
pub open spec fn loaded_as(r: Result<Settings, Error>, m: Result<SettingsView, Error>) -> bool {
    match r {
        Ok(s) => m == Ok::<SettingsView, Error>(s@),
        Err(e) => m == Err::<SettingsView, Error>(e),
    }
}

impl Settings {
    /// A frame that specifies nothing.
    pub fn new() -> (r: Settings)
        ensures
            r@ == empty_view(),
    {
        Settings {
            flags: SettingsFlags::empty(),
            header_table_size: None,
            enable_push: None,
            max_concurrent_streams: None,
            initial_window_size: None,
            max_frame_size: None,
            max_header_list_size: None,
            enable_connect_protocol: None,
            unknown_settings: None,
            settings_order: None,
        }
    }

    /// The acknowledgement frame.
    pub fn ack() -> (r: Settings)
        ensures
            r@ == ack_view(),
    {
        let mut s = Settings::new();
        s.flags = SettingsFlags::ack();
        s
    }

    pub fn is_ack(&self) -> (r: bool)
        ensures
            r == (self.flags.0 & ACK == ACK),
    {
        self.flags.is_ack()
    }

    pub fn header_table_size(&self) -> (r: Option<u32>)
        ensures
            r == self.header_table_size,
    {
        self.header_table_size
    }

    pub fn set_header_table_size(&mut self, size: Option<u32>)
        ensures
            final(self)@ == (SettingsView { header_table_size: size, ..old(self)@ }),
    {
        self.header_table_size = size;
    }

    /// Whether push is enabled, when the frame says.
    pub fn is_push_enabled(&self) -> (r: Option<bool>)
        ensures
            r == match self.enable_push {
                Some(x) => Some(x != 0),
                None => None::<bool>,
            },
    {
        match self.enable_push {
            Some(x) => Some(x != 0),
            None => None,
        }
    }

    pub fn set_enable_push(&mut self, enable: bool)
        ensures
            final(self)@ == (SettingsView { enable_push: Some(if enable { 1u32 } else { 0u32 }), ..old(self)@ }),
    {
        self.enable_push = Some(if enable { 1 } else { 0 });
    }

    pub fn max_concurrent_streams(&self) -> (r: Option<u32>)
        ensures
            r == self.max_concurrent_streams,
    {
        self.max_concurrent_streams
    }

    pub fn set_max_concurrent_streams(&mut self, max: Option<u32>)
        ensures
            final(self)@ == (SettingsView { max_concurrent_streams: max, ..old(self)@ }),
    {
        self.max_concurrent_streams = max;
    }

    pub fn initial_window_size(&self) -> (r: Option<u32>)
        ensures
            r == self.initial_window_size,
    {
        self.initial_window_size
    }

    pub fn set_initial_window_size(&mut self, size: Option<u32>)
        ensures
            final(self)@ == (SettingsView { initial_window_size: size, ..old(self)@ }),
    {
        self.initial_window_size = size;
    }

    pub fn max_frame_size(&self) -> (r: Option<u32>)
        ensures
            r == self.max_frame_size,
    {
        self.max_frame_size
    }

    /// Sets the largest frame payload; a value must lie in 16384 to 2^24 - 1.
    pub fn set_max_frame_size(&mut self, size: Option<u32>)
        requires
            size matches Some(x) ==> DEFAULT_MAX_FRAME_SIZE <= x <= MAX_MAX_FRAME_SIZE,
        ensures
            final(self)@ == (SettingsView { max_frame_size: size, ..old(self)@ }),
    {
        self.max_frame_size = size;
    }

    pub fn max_header_list_size(&self) -> (r: Option<u32>)
        ensures
            r == self.max_header_list_size,
    {
        self.max_header_list_size
    }

    pub fn set_max_header_list_size(&mut self, size: Option<u32>)
        ensures
            final(self)@ == (SettingsView { max_header_list_size: size, ..old(self)@ }),
    {
        self.max_header_list_size = size;
    }

    /// Whether the extended CONNECT protocol is enabled, when the frame says.
    pub fn is_extended_connect_protocol_enabled(&self) -> (r: Option<bool>)
        ensures
            r == match self.enable_connect_protocol {
                Some(x) => Some(x != 0),
                None => None::<bool>,
            },
    {
        match self.enable_connect_protocol {
            Some(x) => Some(x != 0),
            None => None,
        }
    }

    pub fn set_enable_connect_protocol(&mut self, val: Option<u32>)
        ensures
            final(self)@ == (SettingsView { enable_connect_protocol: val, ..old(self)@ }),
    {
        self.enable_connect_protocol = val;
    }

    /// Appends `settings` to the unknown settings, starting the list if there is none.
    pub fn set_unknown_settings(&mut self, settings: Vec<Setting>)
        requires
            unknown_list(old(self)@).len() + settings@.len() < usize::MAX,
        ensures
            final(self)@ == (SettingsView { unknown_settings: Some(unknown_list(old(self)@) + settings@), ..old(self)@ }),
    {
        let mut l = match self.unknown_settings.take() {
            Some(l) => l,
            None => SettingList::new(),
        };
        let ghost start = setting_items(l);
        let mut i: usize = 0;
        while i < settings.len()
            invariant
                0 <= i <= settings@.len(),
                start.len() + settings@.len() < usize::MAX,
                setting_items(l) == start + settings@.take(i as int),
            decreases settings@.len() - i,
        {
            l.push(settings[i]);
            i = i + 1;
            proof {
                assert(setting_items(l) =~= start + settings@.take(i as int));
            }
        }
        proof {
            assert(settings@.take(i as int) =~= settings@);
        }
        self.unknown_settings = Some(l);
    }

    /// The unknown settings, in the order in which they were loaded or set.
    pub fn unknown_settings(&self) -> (r: Option<&[Setting]>)
        ensures
            r is Some <==> self.unknown_settings is Some,
            r matches Some(l) ==> l@ == unknown_list(self@),
    {
        match &self.unknown_settings {
            Some(l) => Some(l.as_slice()),
            None => None,
        }
    }

    pub fn set_settings_order(&mut self, settings_order: Option<SettingsOrder>)
        ensures
            final(self).settings_order == settings_order,
            final(self)@ == (SettingsView {
                settings_order: match settings_order {
                    Some(o) => Some(setting_id_items(o.ids)),
                    None => None::<Seq<SettingId>>,
                },
                ..old(self)@
            }),
    {
        self.settings_order = settings_order;
    }

    /// Stores a loaded setting, or says why its value is refused.
    fn store(&mut self, setting: Setting) -> (r: Result<(), Error>)
        requires
            unknown_list(old(self)@).len() < usize::MAX,
        ensures
            match store_setting(old(self)@, setting) {
                Ok(v) => r is Ok && final(self)@ == v,
                Err(e) => r == Err::<(), Error>(e),
            },
    {
        let x = setting.value;
        match setting.id {
            SettingId::HeaderTableSize => {
                self.header_table_size = Some(x);
            },
            SettingId::EnablePush => {
                if x > 1 {
                    return Err(Error::InvalidSettingValue);
                }
                self.enable_push = Some(x);
            },
            SettingId::MaxConcurrentStreams => {
                self.max_concurrent_streams = Some(x);
            },
            SettingId::InitialWindowSize => {
                if x as usize > MAX_INITIAL_WINDOW_SIZE {
                    return Err(Error::InvalidSettingValue);
                }
                self.initial_window_size = Some(x);
            },
            SettingId::MaxFrameSize => {
                if !(DEFAULT_MAX_FRAME_SIZE <= x && x <= MAX_MAX_FRAME_SIZE) {
                    return Err(Error::InvalidSettingValue);
                }
                self.max_frame_size = Some(x);
            },
            SettingId::MaxHeaderListSize => {
                self.max_header_list_size = Some(x);
            },
            SettingId::EnableConnectProtocol => {
                if x > 1 {
                    return Err(Error::InvalidSettingValue);
                }
                self.enable_connect_protocol = Some(x);
            },
            SettingId::Unknown(_) => {
                let mut l = match self.unknown_settings.take() {
                    Some(l) => l,
                    None => SettingList::new(),
                };
                l.push(setting);
                self.unknown_settings = Some(l);
            },
        }
        Ok(())
    }

    /// Loads a SETTINGS frame. It must be on stream 0; an ACK carries no payload;
    /// any other payload is whole six-byte records, whose known values must lie
    /// in their domains. Records with an unknown code outside 1 to 15 are skipped.
    pub fn load(head: Head, payload: &[u8]) -> (r: Result<Settings, Error>)
        ensures
            loaded_as(r, settings_load(head, payload@)),
    {
        if !head.stream_id.is_zero() {
            return Err(Error::InvalidStreamId);
        }
        let flag = SettingsFlags::load(head.flag);
        proof {
            let f = head.flag;
            assert((f & 1u8) & 1u8 == f & 1u8) by (bit_vector);
        }
        if flag.is_ack() {
            if payload.len() != 0 {
                return Err(Error::InvalidPayloadLength);
            }
            return Ok(Settings::ack());
        }
        if payload.len() % SETTING_LEN != 0 {
            return Err(Error::InvalidPayloadAckSettings);
        }
        let len = payload.len();
        let n = len / SETTING_LEN;
        let mut settings = Settings::new();
        let mut i: usize = 0;
        while i < n
            invariant
                len == payload@.len(),
                n == payload@.len() / 6,
                payload@.len() % 6 == 0,
                head.stream_id.0 == 0,
                !(head.flag & ACK == ACK),
                0 <= i <= n,
                load_records(payload@, i as nat) == Ok::<SettingsView, Error>(settings@),
                unknown_list(settings@).len() <= i,
                n <= usize::MAX / 6,
            decreases n - i,
        {
            proof {
                vstd::arithmetic::div_mod::lemma_fundamental_div_mod(payload@.len() as int, 6);
                assert(payload@.len() == 6 * n);
                assert(i * 6 + 6 <= payload@.len()) by (nonlinear_arith)
                    requires
                        i < n,
                        payload@.len() == 6 * n,
                ;
            }
            let rec = slice_from(payload, i * 6);
            proof {
                assert(rec@.subrange(0, 6) =~= payload@.subrange(6 * i, 6 * (i + 1)));
            }
            match Setting::load(rec) {
                Some(setting) => {
                    match settings.store(setting) {
                        Ok(()) => {},
                        Err(e) => {
                            proof {
                                let k = (i + 1) as nat;
                                assert(load_records(payload@, k) == Err::<SettingsView, Error>(e));
                                lemma_load_records_err(payload@, k, n as nat);
                            }
                            return Err(e);
                        },
                    }
                },
                None => {},
            }
            i = i + 1;
        }
        Ok(settings)
    }

    /// The setting written for `id`, if any.
    fn setting_for(&self, id: SettingId) -> (r: Option<Setting>)
        ensures
            r == setting_for(self@, id),
    {
        let field = match id {
            SettingId::HeaderTableSize => self.header_table_size,
            SettingId::EnablePush => self.enable_push,
            SettingId::MaxConcurrentStreams => self.max_concurrent_streams,
            SettingId::InitialWindowSize => self.initial_window_size,
            SettingId::MaxFrameSize => self.max_frame_size,
            SettingId::MaxHeaderListSize => self.max_header_list_size,
            SettingId::EnableConnectProtocol => self.enable_connect_protocol,
            SettingId::Unknown(_) => {
                return match &self.unknown_settings {
                    Some(l) => find_setting(l.as_slice(), id),
                    None => None,
                };
            },
        };
        match field {
            Some(x) => Some(Setting { id, value: x }),
            None => None,
        }
    }

    /// The settings that are written, in the order they are written.
    pub fn in_order(&self) -> (r: Vec<Setting>)
        ensures
            r@ == emitted(self@, order_ids(self@)),
    {
        let default_ids = SettingId::default_ids();
        let ids: &[SettingId] = match &self.settings_order {
            Some(o) => o.ids.as_slice(),
            None => default_ids.as_slice(),
        };
        let mut out: Vec<Setting> = Vec::new();
        let mut i: usize = 0;
        while i < ids.len()
            invariant
                0 <= i <= ids@.len(),
                ids@ == order_ids(self@),
                out@ == emitted(self@, ids@.take(i as int)),
            decreases ids@.len() - i,
        {
            proof {
                assert(ids@.take(i as int + 1).drop_last() =~= ids@.take(i as int));
            }
            match self.setting_for(ids[i]) {
                Some(st) => out.push(st),
                None => {},
            }
            i = i + 1;
        }
        proof {
            assert(ids@.take(i as int) =~= ids@);
        }
        out
    }

    /// The payload cannot outgrow the 24-bit length field of the header.
    pub open spec fn fits_in_frame(&self) -> bool {
        6 * order_ids(self@).len() < FRAME_LEN_LIMIT
    }

    /// Appends the whole frame to a buffer; see `write_frame`.
    pub fn encode(&self, dst: &mut BytesMut)
        requires
            self.fits_in_frame(),
            buffer_bytes(*old(dst)).len() + settings_frame_bytes(self@).len() <= isize::MAX,
        ensures
            buffer_bytes(*final(dst)) == buffer_bytes(*old(dst)) + settings_frame_bytes(self@),
    {
        let mut frame: Vec<u8> = Vec::new();
        self.write_frame(&mut frame);
        assert(frame@ =~= settings_frame_bytes(self@));
        put_slice(dst, frame.as_slice());
    }

    /// Appends the whole frame: a header on stream 0 with these flags and the
    /// payload length, then one record for each setting written, in order.
    pub fn write_frame(&self, dst: &mut Vec<u8>)
        requires
            self.fits_in_frame(),
        ensures
            final(dst)@ == old(dst)@ + settings_frame_bytes(self@),
    {
        let ss = self.in_order();
        proof {
            lemma_emitted_len(self@, order_ids(self@));
        }
        let payload_len = ss.len() * SETTING_LEN;
        let head = Head::new(Kind::Settings, self.flags.bits(), StreamId::zero());
        head.encode(payload_len, dst);
        let ghost start = dst@;
        let mut i: usize = 0;
        while i < ss.len()
            invariant
                0 <= i <= ss@.len(),
                dst@ == start + records_bytes(ss@.take(i as int)),
            decreases ss@.len() - i,
        {
            proof {
                assert(ss@.take(i as int + 1).drop_last() =~= ss@.take(i as int));
            }
            ss[i].encode(dst);
            i = i + 1;
            proof {
                assert(dst@ =~= start + records_bytes(ss@.take(i as int)));
            }
        }
        proof {
            assert(ss@.take(i as int) =~= ss@);
            assert(dst@ =~= old(dst)@ + settings_frame_bytes(self@));
        }
    }
}

impl Default for Settings {
    fn default() -> (r: Settings)
        ensures
            r@ == empty_view(),
    {
        Settings::new()
    }
}

/// The bytes of `src` from `at` on.
fn slice_from(src: &[u8], at: usize) -> (r: &[u8])
    requires
        at <= src@.len(),
    ensures
        r@ == src@.subrange(at as int, src@.len() as int),
{
    let (_, rest) = src.split_at(at);
    rest
}

/// The first setting of `l` whose identifier is `id`.
fn find_setting(l: &[Setting], id: SettingId) -> (r: Option<Setting>)
    ensures
        r == first_with_id(l@, id),
{
    let mut i: usize = 0;
    assert(l@.subrange(0, l@.len() as int) =~= l@);
    while i < l.len()
        invariant
            0 <= i <= l@.len(),
            first_with_id(l@, id) == first_with_id(l@.subrange(i as int, l@.len() as int), id),
        decreases l@.len() - i,
    {
        proof {
            let t = l@.subrange(i as int, l@.len() as int);
            assert(t.drop_first() =~= l@.subrange(i + 1, l@.len() as int));
        }
        if l[i].id == id {
            return Some(l[i]);
        }
        i = i + 1;
    }
    None
}

/// Storing each of `ss` in turn into `v`, from the first; the first refused value ends it.
pub open spec fn store_all(v: SettingsView, ss: Seq<Setting>) -> Result<SettingsView, Error>
    decreases ss.len(),
{
    if ss.len() == 0 {
        Ok(v)
    } else {
        match store_all(v, ss.drop_last()) {
            Err(e) => Err(e),
            Ok(w) => store_setting(w, ss.last()),
        }
    }
}

/// `s` is read back from its own record.
pub open spec fn canonical(s: Setting) -> bool {
    setting_id_of_code(setting_code(s.id)) == s.id && setting_from_id(s.id, s.value) == Some(s)
}

/// Every value that `v` specifies lies in its domain.
pub open spec fn values_in_domain(v: SettingsView) -> bool {
    &&& (v.enable_push matches Some(x) ==> x <= 1)
    &&& (v.initial_window_size matches Some(x) ==> x <= 0x7fff_ffff)
    &&& (v.max_frame_size matches Some(x) ==> 16_384 <= x <= 0xff_ffff)
    &&& (v.enable_connect_protocol matches Some(x) ==> x <= 1)
}

proof fn lemma_load_records_prefix(p: Seq<u8>, q: Seq<u8>, n: nat)
    requires
        6 * n <= p.len(),
        6 * n <= q.len(),
        p.subrange(0, 6 * n as int) == q.subrange(0, 6 * n as int),
    ensures
        load_records(p, n) == load_records(q, n),
    decreases n,
{
    if n > 0 {
        let m = (n - 1) as nat;
        assert(p.subrange(0, 6 * m as int) =~= p.subrange(0, 6 * n as int).subrange(0, 6 * m as int));
        assert(q.subrange(0, 6 * m as int) =~= q.subrange(0, 6 * n as int).subrange(0, 6 * m as int));
        lemma_load_records_prefix(p, q, m);
        assert(p.subrange(6 * m as int, 6 * n as int) =~= p.subrange(0, 6 * n as int).subrange(6 * m as int, 6 * n as int));
        assert(q.subrange(6 * m as int, 6 * n as int) =~= q.subrange(0, 6 * n as int).subrange(6 * m as int, 6 * n as int));
    }
}

proof fn lemma_setting_round_trip(s: Setting)
    requires
        canonical(s),
    ensures
        setting_bytes(s).len() == 6,
        setting_of_bytes(setting_bytes(s)) == Some(s),
{
    let b = setting_bytes(s);
    lemma_be16_round_trip(setting_code(s.id));
    lemma_be32_round_trip(s.value);
    assert(b.subrange(0, 2) =~= be16(setting_code(s.id)));
    assert(b.subrange(2, 6) =~= be32(s.value));
}

proof fn lemma_load_records_of(ss: Seq<Setting>)
    requires
        forall|i: int| 0 <= i < ss.len() ==> canonical(#[trigger] ss[i]),
    ensures
        records_bytes(ss).len() == 6 * ss.len(),
        load_records(records_bytes(ss), ss.len()) == store_all(empty_view(), ss),
    decreases ss.len(),
{
    lemma_records_bytes_len(ss);
    if ss.len() > 0 {
        let front = ss.drop_last();
        let n = ss.len();
        let m = (n - 1) as nat;
        let p = records_bytes(ss);
        let q = records_bytes(front);
        assert forall|i: int| 0 <= i < front.len() implies canonical(#[trigger] front[i]) by {
            assert(front[i] == ss[i]);
        }
        lemma_load_records_of(front);
        lemma_records_bytes_len(front);
        assert(p.subrange(0, 6 * m as int) =~= q.subrange(0, 6 * m as int));
        lemma_load_records_prefix(p, q, m);
        assert(q.subrange(0, 6 * m as int) =~= q);
        assert(canonical(ss[n - 1]));
        lemma_setting_round_trip(ss.last());
        assert(p.subrange(6 * m as int, 6 * n as int) =~= setting_bytes(ss.last()));
    }
}

/// The fields of `v` that the first `k` identifiers of the default order name;
/// the others unset.
pub open spec fn default_prefix(v: SettingsView, k: int) -> SettingsView {
    SettingsView {
        header_table_size: if k >= 1 { v.header_table_size } else { None },
        enable_push: if k >= 2 { v.enable_push } else { None },
        initial_window_size: if k >= 3 { v.initial_window_size } else { None },
        max_concurrent_streams: if k >= 4 { v.max_concurrent_streams } else { None },
        max_frame_size: if k >= 5 { v.max_frame_size } else { None },
        max_header_list_size: if k >= 6 { v.max_header_list_size } else { None },
        enable_connect_protocol: if k >= 7 { v.enable_connect_protocol } else { None },
        ..empty_view()
    }
}

proof fn lemma_store_all_push(v: SettingsView, ss: Seq<Setting>, s: Setting)
    ensures
        store_all(v, ss.push(s)) == match store_all(v, ss) {
            Err(e) => Err(e),
            Ok(w) => store_setting(w, s),
        },
{
    assert(ss.push(s).drop_last() =~= ss);
}

proof fn lemma_store_default_prefix(v: SettingsView, k: int)
    requires
        0 <= k <= 8,
        v.unknown_settings is None,
        values_in_domain(v),
    ensures
        store_all(empty_view(), emitted(v, default_order().take(k))) == Ok::<SettingsView, Error>(default_prefix(v, k)),
        forall|i: int| 0 <= i < emitted(v, default_order().take(k)).len()
            ==> canonical(#[trigger] emitted(v, default_order().take(k))[i]),
    decreases k,
{
    let d = default_order();
    if k == 0 {
        assert(d.take(0) =~= Seq::<SettingId>::empty());
        assert(default_prefix(v, 0) == empty_view());
    } else {
        lemma_store_default_prefix(v, k - 1);
        let t = d.take(k);
        assert(t.drop_last() =~= d.take(k - 1));
        let prev = emitted(v, d.take(k - 1));
        let id = d[k - 1];
        assert(t.last() == id);
        let w = default_prefix(v, k - 1);
        match setting_for(v, id) {
            Some(st) => {
                lemma_store_all_push(empty_view(), prev, st);
                assert(emitted(v, t) == prev.push(st));
                assert(store_setting(w, st) == Ok::<SettingsView, Error>(default_prefix(v, k)));
                assert forall|i: int| 0 <= i < prev.push(st).len() implies canonical(#[trigger] prev.push(st)[i]) by {
                    if i < prev.len() {
                        assert(prev.push(st)[i] == prev[i]);
                    }
                }
            },
            None => {
                assert(emitted(v, t) == prev);
                assert(default_prefix(v, k) == w);
            },
        }
    }
}

proof fn lemma_emitted_none(v: SettingsView, ids: Seq<SettingId>)
    requires
        forall|i: int| 0 <= i < ids.len() ==> setting_for(v, #[trigger] ids[i]) is None,
    ensures
        emitted(v, ids) == Seq::<Setting>::empty(),
    decreases ids.len(),
{
    if ids.len() > 0 {
        let front = ids.drop_last();
        assert forall|i: int| 0 <= i < front.len() implies setting_for(v, #[trigger] front[i]) is None by {
            assert(front[i] == ids[i]);
        }
        lemma_emitted_none(v, front);
        assert(setting_for(v, ids[ids.len() - 1]) is None);
    }
}

/// A frame that specifies only known settings, each within its domain, and no
/// order, loads back from its own encoding, read under the header it was
/// written with, to the same fields.
pub proof fn lemma_settings_round_trip(v: SettingsView)
    requires
        v.flags == 0,
        v.unknown_settings is None,
        v.settings_order is None,
        values_in_domain(v),
    ensures
        ({
            let b = settings_frame_bytes(v);
            &&& b.len() >= HEADER_LEN
            &&& settings_load(head_of_bytes(b.subrange(0, 9)), b.subrange(9, b.len() as int))
                == Ok::<SettingsView, Error>(v)
        }),
{
    let d = default_order();
    let ss = emitted(v, d);
    assert(d.take(8) =~= d);
    lemma_store_default_prefix(v, 8);
    assert(default_prefix(v, 8) == v);
    lemma_load_records_of(ss);
    lemma_emitted_len(v, d);
    let h = settings_head(0);
    let len = (6 * ss.len()) as u32;
    assert(kind_of_code(kind_code(h.kind)) == h.kind);
    lemma_head_round_trip(h, len);
    let b = settings_frame_bytes(v);
    assert(b.subrange(0, 9) =~= head_bytes(h, len));
    assert(b.subrange(9, b.len() as int) =~= records_bytes(ss));
    assert(0u8 & ACK != ACK) by (bit_vector);
    assert((6 * ss.len()) / 6 == ss.len());
}

/// The acknowledgement is written as a header with the ACK flag and an empty
/// payload, and loads back as the acknowledgement, with no field set.
pub proof fn lemma_ack_round_trip()
    ensures
        ({
            let b = settings_frame_bytes(ack_view());
            &&& b.len() == HEADER_LEN
            &&& b[4] & ACK == ACK
            &&& payload_len_of_bytes(b) == 0
            &&& settings_load(head_of_bytes(b), b.subrange(9, 9)) == Ok::<SettingsView, Error>(ack_view())
        }),
{
    let v = ack_view();
    let d = default_order();
    assert forall|i: int| 0 <= i < d.len() implies setting_for(v, #[trigger] d[i]) is None by {
        assert(unknown_list(v) == Seq::<Setting>::empty());
    }
    lemma_emitted_none(v, d);
    assert(records_bytes(Seq::<Setting>::empty()) == Seq::<u8>::empty());
    let h = settings_head(ACK);
    assert(kind_of_code(kind_code(h.kind)) == h.kind);
    lemma_head_round_trip(h, 0);
    let b = settings_frame_bytes(v);
    assert(b =~= head_bytes(h, 0));
    assert(1u8 & 1u8 == 1u8) by (bit_vector);
}

} // verus!

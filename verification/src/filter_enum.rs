//! Reading the filters that WFP reports: their action, weight, names and
//! application path, and the steps of enumerating them in batches.

use vstd::prelude::*;

use crate::constants::{
    Guid, CONDITION_ALE_APP_ID, FWP_ACTION_BLOCK, FWP_ACTION_CALLOUT_INSPECTION,
    FWP_ACTION_CALLOUT_TERMINATING, FWP_ACTION_CALLOUT_UNKNOWN, FWP_ACTION_PERMIT,
};
use crate::errors::{WfpError, WfpResult};
use crate::text::{decimal, push_decimal};

verus! {

/// Action type of a WFP filter
#[derive(Debug, Clone, Copy, PartialEq, Eq, Structural)]
pub enum FilterAction {
    /// Block traffic
    Block,
    /// Permit traffic
    Permit,
    /// Callout (terminating)
    CalloutTerminating,
    /// Callout (inspection only)
    CalloutInspection,
    /// Callout (unknown)
    CalloutUnknown,
    /// Other action type
    Other(u32),
}

/// The action that a WFP action type stands for.
pub open spec fn filter_action_of(t: u32) -> FilterAction {
    if t == FWP_ACTION_BLOCK {
        FilterAction::Block
    } else if t == FWP_ACTION_PERMIT {
        FilterAction::Permit
    } else if t == FWP_ACTION_CALLOUT_TERMINATING {
        FilterAction::CalloutTerminating
    } else if t == FWP_ACTION_CALLOUT_INSPECTION {
        FilterAction::CalloutInspection
    } else if t == FWP_ACTION_CALLOUT_UNKNOWN {
        FilterAction::CalloutUnknown
    } else {
        FilterAction::Other(t)
    }
}

/// The WFP action type of an action.
pub open spec fn filter_action_code(a: FilterAction) -> u32 {
    match a {
        FilterAction::Block => FWP_ACTION_BLOCK,
        FilterAction::Permit => FWP_ACTION_PERMIT,
        FilterAction::CalloutTerminating => FWP_ACTION_CALLOUT_TERMINATING,
        FilterAction::CalloutInspection => FWP_ACTION_CALLOUT_INSPECTION,
        FilterAction::CalloutUnknown => FWP_ACTION_CALLOUT_UNKNOWN,
        FilterAction::Other(t) => t,
    }
}

impl FilterAction {
    /// The action that a WFP action type stands for.
    pub fn from_action_type(t: u32) -> (r: FilterAction)
        ensures
            r == filter_action_of(t),
    {
        if t == FWP_ACTION_BLOCK {
            FilterAction::Block
        } else if t == FWP_ACTION_PERMIT {
            FilterAction::Permit
        } else if t == FWP_ACTION_CALLOUT_TERMINATING {
            FilterAction::CalloutTerminating
        } else if t == FWP_ACTION_CALLOUT_INSPECTION {
            FilterAction::CalloutInspection
        } else if t == FWP_ACTION_CALLOUT_UNKNOWN {
            FilterAction::CalloutUnknown
        } else {
            FilterAction::Other(t)
        }
    }
}

/// Reading an action type loses nothing: the action gives back the type it was read from.
pub proof fn lemma_filter_action_roundtrip(t: u32)
    ensures
        filter_action_code(filter_action_of(t)) == t,
{
}

/// A WFP value as the filter's weight holds it, told apart by its data type.
#[derive(Debug, Clone, Copy, PartialEq, Eq, Structural)]
pub enum FwpValue {
    /// `FWP_EMPTY`
    Empty,
    /// `FWP_UINT8`
    Uint8(u8),
    /// `FWP_UINT16`
    Uint16(u16),
    /// `FWP_UINT32`
    Uint32(u32),
    /// `FWP_UINT64`: the value behind the pointer, or `None` when the pointer is null
    Uint64(Option<u64>),
    /// Any other data type (its code)
    Other(i32),
}

/// The weight a filter value stands for: its number, or 0 when it holds none.
pub open spec fn weight_of(v: FwpValue) -> u64 {
    match v {
        FwpValue::Uint8(x) => x as u64,
        FwpValue::Uint16(x) => x as u64,
        FwpValue::Uint32(x) => x as u64,
        FwpValue::Uint64(Some(x)) => x,
        _ => 0,
    }
}

/// The bytes of a WFP byte blob.
#[derive(Debug, Clone)]
pub struct BlobData {
    /// The size the blob declares, in bytes
    pub size: u32,
    /// The bytes, or `None` when the blob's data pointer is null
    pub data: Option<Vec<u8>>,
}

/// The value of a filter condition, as far as reading the application path needs it.
#[derive(Debug, Clone)]
pub enum RawConditionValue {
    /// A byte blob (`FWP_BYTE_BLOB_TYPE`), or `None` when its pointer is null
    ByteBlob(Option<BlobData>),
    /// A value of any other data type (its code)
    Other(i32),
}

/// A filter condition as WFP reports it.
#[derive(Debug, Clone)]
pub struct RawCondition {
    /// The field the condition tests
    pub field_key: Guid,
    /// The condition's value
    pub value: RawConditionValue,
}

/// A filter as WFP reports it, with its wide strings and blobs already copied out.
#[derive(Debug, Clone)]
pub struct RawFilter {
    /// WFP filter ID
    pub filter_id: u64,
    /// The UTF-16 units of the display name up to its terminating NUL, or `None` when absent
    pub name: Option<Vec<u16>>,
    /// The UTF-16 units of the description up to its terminating NUL, or `None` when absent
    pub description: Option<Vec<u16>>,
    /// The WFP action type
    pub action_type: u32,
    /// The provider GUID, or `None` when absent
    pub provider_key: Option<Guid>,
    /// The weight value
    pub weight: FwpValue,
    /// Layer GUID
    pub layer_key: Guid,
    /// Sublayer GUID
    pub sublayer_key: Guid,
    /// Number of conditions the filter declares
    pub num_conditions: u32,
    /// The conditions
    pub conditions: Vec<RawCondition>,
}

/// Information about an active WFP filter
#[derive(Debug, Clone)]
pub struct FilterInfo {
    /// WFP filter ID
    pub id: u64,
    /// Display name
    pub name: String,
    /// Description
    pub description: String,
    /// Filter action (Block, Permit, Callout)
    pub action: FilterAction,
    /// Provider GUID (if set)
    pub provider_key: Option<Guid>,
    /// Filter weight/priority
    pub weight: u64,
    /// Layer GUID where the filter is installed
    pub layer_key: Guid,
    /// Sublayer GUID
    pub sublayer_key: Guid,
    /// Application path extracted from conditions (if present)
    pub app_path: Option<String>,
    /// Number of conditions on this filter
    pub num_conditions: u32,
}

/// Standard UTF-16 decoding: a unit outside `0xD800..=0xDFFF` is a character
/// of its own; a high surrogate (`0xD800..=0xDBFF`) followed by a low
/// surrogate (`0xDC00..=0xDFFF`) is one character; anything else is invalid.
pub open spec fn utf16_decode(u: Seq<u16>) -> Option<Seq<char>>
    decreases u.len(),
{
    if u.len() == 0 {
        Some(Seq::empty())
    } else if u[0] < 0xD800 || u[0] > 0xDFFF {
        match utf16_decode(u.drop_first()) {
            Some(r) => Some(seq![u[0] as char] + r),
            None => None,
        }
    } else if u[0] <= 0xDBFF && u.len() >= 2 && 0xDC00 <= u[1] <= 0xDFFF {
        match utf16_decode(u.subrange(2, u.len() as int)) {
            Some(r) => Some(
                seq![(0x10000 + (u[0] - 0xD800) * 1024 + (u[1] - 0xDC00)) as char] + r,
            ),
            None => None,
        }
    } else {
        None
    }
}

/// Decodes UTF-16 with `String::from_utf16` (std), which documents that it
/// decodes a UTF-16 slice and fails if the slice holds invalid data (an
/// unpaired surrogate). The contract states that decoding as `utf16_decode`.
#[verifier::external_body]
fn string_from_utf16(units: &[u16]) -> (r: Option<String>)
    ensures
        match r {
            Some(s) => utf16_decode(units@) == Some(s@),
            None => utf16_decode(units@) is None,
        },
{
    String::from_utf16(units).ok()
}

/// The text of a WFP display string: its decoding, or the empty text when it
/// is absent or not valid UTF-16.
pub open spec fn display_string_of(units: Option<Seq<u16>>) -> Seq<char> {
    match units {
        Some(u) => match utf16_decode(u) {
            Some(s) => s,
            None => Seq::empty(),
        },
        None => Seq::empty(),
    }
}

/// The units of a byte sequence read as little-endian 16-bit units (a last odd byte is dropped).
pub open spec fn le_units(b: Seq<u8>) -> Seq<u16> {
    Seq::new(b.len() / 2, |i: int| (b[2 * i] + b[2 * i + 1] * 256) as u16)
}

/// The units before the first NUL unit (all of them when there is none).
pub open spec fn until_nul(u: Seq<u16>) -> Seq<u16> {
    if exists|i: int| 0 <= i < u.len() && u[i] == 0 {
        let i = choose|i: int| 0 <= i < u.len() && u[i] == 0 && forall|j: int| 0 <= j < i ==> u[j] != 0;
        u.subrange(0, i)
    } else {
        u
    }
}

/// The index of the first condition on the application id, if any.
pub open spec fn first_app_id_condition(conds: Seq<RawCondition>, i: int) -> bool {
    0 <= i < conds.len() && conds[i].field_key == CONDITION_ALE_APP_ID && forall|j: int|
        0 <= j < i ==> conds[j].field_key != CONDITION_ALE_APP_ID
}

/// The application path a filter's conditions hold: the first condition on
/// the application id must be a byte blob with data of a non-zero, even
/// size; its units up to the first NUL, decoded from UTF-16.
pub open spec fn app_path_of(conds: Seq<RawCondition>) -> Option<Seq<char>> {
    if exists|i: int| first_app_id_condition(conds, i) {
        let i = choose|i: int| first_app_id_condition(conds, i);
        match conds[i].value {
            RawConditionValue::ByteBlob(Some(blob)) => match blob.data {
                Some(d) => if blob.size != 0 && blob.size % 2 == 0 && d@.len() == blob.size {
                    utf16_decode(until_nul(le_units(d@)))
                } else {
                    None
                },
                None => None,
            },
            _ => None,
        }
    } else {
        None
    }
}

proof fn lemma_first_app_id_unique(conds: Seq<RawCondition>, i: int)
    requires
        first_app_id_condition(conds, i),
    ensures
        (choose|k: int| first_app_id_condition(conds, k)) == i,
{
    let k = choose|k: int| first_app_id_condition(conds, k);
    assert(first_app_id_condition(conds, k));
    if k < i {
        assert(conds[k].field_key != CONDITION_ALE_APP_ID);
    }
    if i < k {
        assert(conds[i].field_key != CONDITION_ALE_APP_ID);
    }
}

/// The text of a WFP display string.
pub fn display_string(units: &Option<Vec<u16>>) -> (r: String)
    ensures
        r@ == display_string_of(
            match units {
                Some(u) => Some(u@),
                None => None,
            },
        ),
{
    match units {
        Some(u) => match string_from_utf16(u.as_slice()) {
            Some(s) => s,
            None => String::new(),
        },
        None => String::new(),
    }
}

/// The units of little-endian byte pairs, up to the first NUL unit.
fn units_until_nul(d: &Vec<u8>) -> (r: Vec<u16>)
    ensures
        r@ == until_nul(le_units(d@)),
{
    let ghost u = le_units(d@);
    let n = d.len() / 2;
    let mut r: Vec<u16> = Vec::new();
    let mut i: usize = 0;
    while i < n
        invariant
            n == d.len() / 2,
            u == le_units(d@),
            u.len() == n,
            i <= n,
            r@ == u.subrange(0, i as int),
            forall|j: int| 0 <= j < i ==> u[j] != 0,
        decreases n - i,
    {
        let unit: u16 = (d[2 * i] as u16) + (d[2 * i + 1] as u16) * 256;
        assert(unit == u[i as int]);
        if unit == 0 {
            proof {
                let k = choose|k: int|
                    0 <= k < u.len() && u[k] == 0 && forall|j: int| 0 <= j < k ==> u[j] != 0;
                assert(0 <= i < u.len() && u[i as int] == 0);
                assert(0 <= k < u.len() && u[k] == 0 && forall|j: int| 0 <= j < k ==> u[j] != 0);
                if k < i {
                    assert(u[k] != 0);
                }
                if i < k {
                    assert(u[i as int] != 0);
                }
            }
            return r;
        }
        r.push(unit);
        assert(r@ =~= u.subrange(0, i + 1));
        i += 1;
    }
    assert(r@ =~= u);
    r
}

/// The application path held by a filter's conditions.
pub fn extract_app_path(conds: &Vec<RawCondition>) -> (r: Option<String>)
    ensures
        match r {
            Some(s) => app_path_of(conds@) == Some(s@),
            None => app_path_of(conds@) is None,
        },
{
    let mut i: usize = 0;
    while i < conds.len()
        invariant
            i <= conds.len(),
            forall|j: int| 0 <= j < i ==> conds@[j].field_key != CONDITION_ALE_APP_ID,
        decreases conds.len() - i,
    {
        if conds[i].field_key == CONDITION_ALE_APP_ID {
            proof {
                lemma_first_app_id_unique(conds@, i as int);
            }
            match &conds[i].value {
                RawConditionValue::ByteBlob(Some(blob)) => match &blob.data {
                    Some(d) => {
                        if blob.size != 0 && blob.size % 2 == 0 && d.len() == blob.size as usize {
                            let units = units_until_nul(d);
                            return string_from_utf16(units.as_slice());
                        } else {
                            return None;
                        }
                    },
                    None => {
                        return None;
                    },
                },
                _ => {
                    return None;
                },
            }
        }
        i += 1;
    }
    None
}

/// `info` is the information of the filter `raw`: its id, display name and
/// description, action, provider, weight, layer, sublayer, application path
/// and condition count, each read as WFP reports it.
pub open spec fn describes(raw: RawFilter, info: FilterInfo) -> bool {
    &&& info.id == raw.filter_id
    &&& info.name@ == display_string_of(
        match raw.name {
            Some(u) => Some(u@),
            None => None,
        },
    )
    &&& info.description@ == display_string_of(
        match raw.description {
            Some(u) => Some(u@),
            None => None,
        },
    )
    &&& info.action == filter_action_of(raw.action_type)
    &&& info.provider_key == raw.provider_key
    &&& info.weight == weight_of(raw.weight)
    &&& info.layer_key == raw.layer_key
    &&& info.sublayer_key == raw.sublayer_key
    &&& match info.app_path {
        Some(s) => app_path_of(raw.conditions@) == Some(s@),
        None => app_path_of(raw.conditions@) is None,
    }
    &&& info.num_conditions == raw.num_conditions
}

/// What the information of a filter keeps: its id, layer, sublayer and
/// condition count as reported; its provider exactly as reported (a filter
/// without a provider has none); its action as the action its type stands
/// for; its name and description as the decoding of their UTF-16 text when
/// present and valid, and empty otherwise.
pub proof fn lemma_filter_info_keeps(raw: RawFilter, info: FilterInfo)
    requires
        describes(raw, info),
    ensures
        info.id == raw.filter_id,
        info.layer_key == raw.layer_key,
        info.sublayer_key == raw.sublayer_key,
        info.num_conditions == raw.num_conditions,
        raw.provider_key is None ==> info.provider_key is None,
        raw.provider_key matches Some(g) ==> info.provider_key == Some(g),
        filter_action_code(info.action) == raw.action_type,
        raw.name is None ==> info.name@.len() == 0,
        raw.description is None ==> info.description@.len() == 0,
        raw.name matches Some(u) ==> (utf16_decode(u@) matches Some(t) ==> info.name@ == t),
        raw.description matches Some(u) ==> (utf16_decode(u@) matches Some(t) ==> info.description@
            == t),
        raw.name matches Some(u) ==> (utf16_decode(u@) is None ==> info.name@.len() == 0),
        raw.description matches Some(u) ==> (utf16_decode(u@) is None ==> info.description@.len()
            == 0),
        raw.weight matches FwpValue::Uint8(x) ==> info.weight == x,
        raw.weight matches FwpValue::Uint16(x) ==> info.weight == x,
        raw.weight matches FwpValue::Uint32(x) ==> info.weight == x,
        raw.weight matches FwpValue::Uint64(Some(x)) ==> info.weight == x,
        raw.weight is Empty || raw.weight == FwpValue::Uint64(None) || raw.weight is Other
            ==> info.weight == 0,
        (forall|i: int|
            0 <= i < raw.conditions@.len() ==> (#[trigger] raw.conditions@[i]).field_key
                != CONDITION_ALE_APP_ID) ==> info.app_path is None,
        forall|i: int|
            #[trigger] first_app_id_condition(raw.conditions@, i) ==> match raw.conditions@[i].value {
                RawConditionValue::ByteBlob(Some(b)) => match b.data {
                    Some(d) => if b.size != 0 && b.size % 2 == 0 && d@.len() == b.size {
                        match utf16_decode(until_nul(le_units(d@))) {
                            Some(t) => info.app_path matches Some(p) && p@ == t,
                            None => info.app_path is None,
                        }
                    } else {
                        info.app_path is None
                    },
                    None => info.app_path is None,
                },
                _ => info.app_path is None,
            },
{
    lemma_filter_action_roundtrip(raw.action_type);
    assert forall|i: int| #[trigger] first_app_id_condition(raw.conditions@, i) implies (choose|
        k: int,
    | first_app_id_condition(raw.conditions@, k)) == i by {
        lemma_first_app_id_unique(raw.conditions@, i);
    }
}

/// Text of units outside the surrogate range decodes to one character per
/// unit, each with the unit's value: such a name or description is kept
/// character for character.
pub proof fn lemma_utf16_plain_units(u: Seq<u16>)
    requires
        forall|i: int| 0 <= i < u.len() ==> #[trigger] u[i] < 0xD800 || u[i] > 0xDFFF,
    ensures
        utf16_decode(u) matches Some(t) && t.len() == u.len() && forall|i: int|
            0 <= i < u.len() ==> #[trigger] (t[i] as int) == u[i] as int,
    decreases u.len(),
{
    if u.len() > 0 {
        let rest = u.drop_first();
        assert forall|i: int| 0 <= i < rest.len() implies #[trigger] rest[i] < 0xD800 || rest[i]
            > 0xDFFF by {
            assert(rest[i] == u[i + 1]);
        }
        lemma_utf16_plain_units(rest);
        let t = utf16_decode(u).unwrap();
        let r = utf16_decode(rest).unwrap();
        assert(u[0] < 0xD800 || u[0] > 0xDFFF);
        assert(t == seq![u[0] as char] + r);
        assert forall|i: int| 0 <= i < u.len() implies #[trigger] (t[i] as int) == u[i] as int by {
            if i > 0 {
                assert(t[i] == r[i - 1]);
                assert(rest[i - 1] == u[i]);
            }
        }
    }
}

impl FilterInfo {
    /// The information of a filter that WFP reported.
    pub fn from_raw(raw: &RawFilter) -> (r: FilterInfo)
        ensures
            describes(*raw, r),
    {
        let weight: u64 = match raw.weight {
            FwpValue::Uint8(x) => x as u64,
            FwpValue::Uint16(x) => x as u64,
            FwpValue::Uint32(x) => x as u64,
            FwpValue::Uint64(Some(x)) => x,
            _ => 0,
        };
        FilterInfo {
            id: raw.filter_id,
            name: display_string(&raw.name),
            description: display_string(&raw.description),
            action: FilterAction::from_action_type(raw.action_type),
            provider_key: raw.provider_key,
            weight,
            layer_key: raw.layer_key,
            sublayer_key: raw.sublayer_key,
            app_path: extract_app_path(&raw.conditions),
            num_conditions: raw.num_conditions,
        }
    }
}

/// Number of filters asked for in each enumeration call.
pub const FILTER_ENUM_BATCH_SIZE: u32 = 100u32;

/// What to do next while enumerating filters.
#[derive(Debug)]
pub enum EnumStep {
    /// Ask for the next batch
    FetchNext,
    /// The enumeration is complete
    Finished,
    /// The enumeration failed (the enumeration handle is to be destroyed)
    Failed(WfpError),
}

/// Progress of a filter enumeration: how many filters it has seen.
#[derive(Debug)]
pub struct FilterEnumeration {
    /// Filters seen so far
    pub seen: usize,
    /// Whether the enumeration has ended
    pub done: bool,
}

/// The error for a failed batch call.
fn enumeration_failure(code: u32) -> (e: WfpError)
    ensures
        e matches WfpError::Other(m) && m@ == "Failed to enumerate filters: error code "@ + decimal(
            code as nat,
        ),
{
    let mut m = String::from_str("Failed to enumerate filters: error code ");
    push_decimal(&mut m, code as u64);
    WfpError::Other(m)
}

impl FilterEnumeration {
    /// The outcome of creating the enumeration handle, given the call's result code.
    pub fn start(code: u32) -> (r: WfpResult<FilterEnumeration>)
        ensures
            match r {
                Ok(e) => code == 0 && e.seen == 0 && !e.done,
                Err(e) => code != 0 && (e matches WfpError::Other(m) && m@
                    == "Failed to create filter enum handle: error code "@ + decimal(code as nat)),
            },
    {
        if code != 0 {
            let mut m = String::from_str("Failed to create filter enum handle: error code ");
            push_decimal(&mut m, code as u64);
            return Err(WfpError::Other(m));
        }
        Ok(FilterEnumeration { seen: 0, done: false })
    }

    /// The next step after a batch call returned `code` and `num_returned` filters.
    /// A failed call ends the enumeration with an error; an empty batch ends it
    /// with success; any other batch is counted and the next is asked for.
    pub fn on_batch(&mut self, code: u32, num_returned: u32) -> (r: EnumStep)
        requires
            !old(self).done,
            old(self).seen + num_returned <= usize::MAX,
        ensures
            code != 0 ==> (r matches EnumStep::Failed(e) && (e matches WfpError::Other(m) && m@
                == "Failed to enumerate filters: error code "@ + decimal(code as nat))) && final(
                self).done && final(self).seen == old(self).seen,
            code == 0 && num_returned == 0 ==> r is Finished && final(self).done && final(self).seen
                == old(self).seen,
            code == 0 && num_returned != 0 ==> r is FetchNext && !final(self).done && final(self).seen
                == old(self).seen + num_returned,
    {
        if code != 0 {
            self.done = true;
            return EnumStep::Failed(enumeration_failure(code));
        }
        if num_returned == 0 {
            self.done = true;
            return EnumStep::Finished;
        }
        self.seen = self.seen + num_returned as usize;
        EnumStep::FetchNext
    }

    /// The next step after a batch call returned `code` and the filters of
    /// `batch`, appending the information of each filter of the batch to
    /// `out`, in order: `out` always holds exactly the filters seen so far.
    pub fn collect_batch(&mut self, code: u32, batch: &Vec<RawFilter>, out: &mut Vec<FilterInfo>) -> (r: EnumStep)
        requires
            !old(self).done,
            old(out)@.len() == old(self).seen,
            old(self).seen + batch@.len() <= usize::MAX,
        ensures
            code != 0 ==> (r matches EnumStep::Failed(e) && (e matches WfpError::Other(m) && m@
                == "Failed to enumerate filters: error code "@ + decimal(code as nat))) && final(
                self).done && final(out)@ == old(out)@,
            code == 0 && batch@.len() == 0 ==> r is Finished && final(self).done && final(out)@
                == old(out)@,
            code == 0 && batch@.len() != 0 ==> r is FetchNext && !final(self).done,
            code == 0 ==> collected_step(old(out)@, batch@, final(out)@),
            final(self).seen == final(out)@.len(),
    {
        if code != 0 {
            self.done = true;
            return EnumStep::Failed(enumeration_failure(code));
        }
        if batch.len() == 0 {
            self.done = true;
            assert(out@.subrange(0, out@.len() as int) =~= out@);
            return EnumStep::Finished;
        }
        let ghost start = out@;
        let mut i: usize = 0;
        while i < batch.len()
            invariant
                i <= batch@.len(),
                out@.len() == start.len() + i,
                out@.subrange(0, start.len() as int) == start,
                forall|k: int| 0 <= k < i ==> describes(#[trigger] batch@[k], out@[start.len() + k]),
            decreases batch@.len() - i,
        {
            let info = FilterInfo::from_raw(&batch[i]);
            let ghost before = out@;
            out.push(info);
            assert(out@.subrange(0, start.len() as int) =~= before.subrange(0, start.len() as int));
            i += 1;
        }
        self.seen = self.seen + batch.len();
        EnumStep::FetchNext
    }
}

/// One collecting step: `after` is `before` with the information of each
/// filter of `batch` appended, in order.
pub open spec fn collected_step(before: Seq<FilterInfo>, batch: Seq<RawFilter>, after: Seq<FilterInfo>) -> bool {
    &&& after.len() == before.len() + batch.len()
    &&& after.subrange(0, before.len() as int) == before
    &&& forall|i: int| 0 <= i < batch.len() ==> describes(#[trigger] batch[i], after[before.len() + i])
}

/// The filters of a sequence of batches, in order.
pub open spec fn batch_filters(bs: Seq<Seq<RawFilter>>) -> Seq<RawFilter>
    decreases bs.len(),
{
    if bs.len() == 0 {
        Seq::empty()
    } else {
        batch_filters(bs.drop_last()) + bs.last()
    }
}

/// The number of filters in a sequence of batches.
pub open spec fn batch_count(bs: Seq<Seq<RawFilter>>) -> nat
    decreases bs.len(),
{
    if bs.len() == 0 {
        0
    } else {
        batch_count(bs.drop_last()) + bs.last().len()
    }
}

/// `out` holds the information of each filter of `raws`, in the same order.
pub open spec fn describes_all(raws: Seq<RawFilter>, out: Seq<FilterInfo>) -> bool {
    &&& out.len() == raws.len()
    &&& forall|i: int| 0 <= i < raws.len() ==> describes(#[trigger] raws[i], out[i])
}

/// Over the same batches, collecting and counting agree: collecting from an
/// empty list (`collect_batch`, one step per batch) yields the information
/// of every filter of the batches, in order, and counting them (`on_batch`,
/// from zero) reaches the same total, the number of filters in the batches.
pub proof fn lemma_enumeration_batches(
    bs: Seq<Seq<RawFilter>>,
    outs: Seq<Seq<FilterInfo>>,
    seens: Seq<nat>,
)
    requires
        outs.len() == bs.len() + 1,
        seens.len() == bs.len() + 1,
        outs[0].len() == 0,
        seens[0] == 0,
        forall|k: int| 0 <= k < bs.len() ==> #[trigger] collected_step(outs[k], bs[k], outs[k + 1]),
        forall|k: int| 0 <= k < bs.len() ==> #[trigger] seens[k + 1] == seens[k] + bs[k].len(),
    ensures
        describes_all(batch_filters(bs), outs.last()),
        batch_filters(bs).len() == batch_count(bs),
        outs.last().len() == batch_count(bs),
        seens.last() == batch_count(bs),
    decreases bs.len(),
{
    if bs.len() == 0 {
        assert(outs.last() == outs[0]);
    } else {
        let n = bs.len() - 1;
        let bs0 = bs.drop_last();
        let outs0 = outs.drop_last();
        let seens0 = seens.drop_last();
        assert forall|k: int| 0 <= k < bs0.len() implies #[trigger] collected_step(
            outs0[k],
            bs0[k],
            outs0[k + 1],
        ) by {
            assert(collected_step(outs[k], bs[k], outs[k + 1]));
        }
        assert forall|k: int| 0 <= k < bs0.len() implies #[trigger] seens0[k + 1] == seens0[k]
            + bs0[k].len() by {
            assert(seens[k + 1] == seens[k] + bs[k].len());
        }
        lemma_enumeration_batches(bs0, outs0, seens0);
        let before = outs[n];
        let after = outs[n + 1];
        let batch = bs[n];
        assert(collected_step(before, batch, after));
        assert(seens[n + 1] == seens[n] + bs[n].len());
        assert(outs0.last() == before);
        assert(bs.last() == batch);
        let prev = batch_filters(bs0);
        assert(batch_filters(bs) == prev + batch);
        assert forall|i: int| 0 <= i < prev.len() + batch.len() implies describes(
            #[trigger] (prev + batch)[i],
            after[i],
        ) by {
            if i < prev.len() {
                assert((prev + batch)[i] == prev[i]);
                assert(describes(prev[i], before[i]));
                assert(after.subrange(0, before.len() as int)[i] == after[i]);
            } else {
                assert((prev + batch)[i] == batch[i - prev.len()]);
                assert(describes(batch[i - before.len()], after[before.len() + (i - before.len())]));
            }
        }
    }
}

} // verus!

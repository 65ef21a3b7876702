//! The versioned account/resource resolver.
//!
//! Every public operation is built around one resolved request context: an
//! address, a validated ledger version and the latest-ledger snapshot the
//! validation was made against. The storage collaborator's answers (the
//! latest ledger snapshot, the account state at a version, one stored value)
//! and the module-metadata collaborator's answers enter as plain arguments;
//! every decision taken on them is verified here.

use vstd::prelude::*;
use crate::address::Address;
use crate::codec::{decode_value, encode_value, spec_dec_uleb, spec_dec_value, spec_encoded};
use crate::error::{ApiError, BadRequestReason, InternalReason, SpecApiError, StorageFault};
use crate::event::{decode_event_handle, spec_handle_of_bytes, EventKey};
use crate::ledger::LedgerInfo;
use crate::move_types::{
    clone_string, fields_model, lemma_fields_model, spec_valid_struct_tag, MoveField,
    MoveTypeLayout, MoveValue, SpecMoveField, SpecMoveTypeLayout, SpecStructTag, StructTag,
};

verus! {

// ---------------------------------------------------------------------------
// Account state and its companions
// ---------------------------------------------------------------------------

/// Mathematical form of one stored resource entry.
#[verifier::ext_equal]
pub struct SpecResourceEntry {
    pub struct_tag: SpecStructTag,
    pub bytes: Seq<u8>,
}

/// One stored resource: its type descriptor and its raw bytes.
#[derive(Debug)]
pub struct ResourceEntry {
    pub struct_tag: StructTag,
    pub bytes: Vec<u8>,
}

impl ResourceEntry {
    pub open spec fn model(self) -> SpecResourceEntry {
        SpecResourceEntry { struct_tag: self.struct_tag.model(), bytes: self.bytes@ }
    }
}

/// Mathematical form of an account state.
#[verifier::ext_equal]
pub struct SpecAccountState {
    pub resources: Seq<SpecResourceEntry>,
    pub modules: Seq<Seq<u8>>,
}

/// The complete set of typed entries owned by one address at one version,
/// partitioned into resource entries and module bytecode entries. It exists
/// only for the duration of one query and is never mutated.
#[derive(Debug)]
pub struct AccountState {
    pub resources: Vec<ResourceEntry>,
    pub modules: Vec<Vec<u8>>,
}

pub open spec fn entries_model(rs: Seq<ResourceEntry>) -> Seq<SpecResourceEntry> {
    Seq::new(rs.len(), |i: int| rs[i].model())
}

impl AccountState {
    pub open spec fn model(self) -> SpecAccountState {
        SpecAccountState {
            resources: entries_model(self.resources@),
            modules: Seq::new(self.modules@.len(), |i: int| self.modules@[i]@),
        }
    }

    /// A type descriptor is unique within one account state's resource set.
    pub open spec fn wf(self) -> bool {
        forall|i: int, j: int|
            0 <= i < j < self.model().resources.len()
                ==> (#[trigger] self.model().resources[i]).struct_tag
                != (#[trigger] self.model().resources[j]).struct_tag
    }
}

/// Mathematical form of one type-layout entry.
#[verifier::ext_equal]
pub struct SpecLayoutEntry {
    pub struct_tag: SpecStructTag,
    pub layout: SpecMoveTypeLayout,
}

/// One entry of the type-layout knowledge supplied by the converter
/// collaborator: the byte-level layout of one resource type.
#[derive(Debug)]
pub struct LayoutEntry {
    pub struct_tag: StructTag,
    pub layout: MoveTypeLayout,
}

impl LayoutEntry {
    pub open spec fn model(self) -> SpecLayoutEntry {
        SpecLayoutEntry { struct_tag: self.struct_tag.model(), layout: self.layout.model() }
    }
}

pub open spec fn layouts_model(ls: Seq<LayoutEntry>) -> Seq<SpecLayoutEntry> {
    Seq::new(ls.len(), |i: int| ls[i].model())
}

/// Mathematical form of a converted resource.
#[verifier::ext_equal]
pub struct SpecMoveResource {
    pub struct_tag: SpecStructTag,
    pub data: Seq<SpecMoveField>,
}

/// A resource converted to a structured value: its type descriptor and its
/// decoded (field name, value) pairs.
#[derive(Debug)]
pub struct MoveResource {
    pub struct_tag: StructTag,
    pub data: Vec<MoveField>,
}

impl MoveResource {
    pub open spec fn model(self) -> SpecMoveResource {
        SpecMoveResource { struct_tag: self.struct_tag.model(), data: fields_model(self.data) }
    }
}

pub open spec fn resources_model(rs: Seq<MoveResource>) -> Seq<SpecMoveResource> {
    Seq::new(rs.len(), |i: int| rs[i].model())
}

// ---------------------------------------------------------------------------
// Lookup and conversion, mathematically
// ---------------------------------------------------------------------------

/// The first layout entry for `tag`, searching from index `i`.
pub open spec fn spec_find_layout_from(
    ls: Seq<SpecLayoutEntry>,
    tag: SpecStructTag,
    i: int,
) -> Option<SpecMoveTypeLayout>
    decreases ls.len() - i,
{
    if i < 0 || i >= ls.len() {
        None
    } else if ls[i].struct_tag == tag {
        Some(ls[i].layout)
    } else {
        spec_find_layout_from(ls, tag, i + 1)
    }
}

/// The layout the converter knows for `tag`, if any.
pub open spec fn spec_find_layout(ls: Seq<SpecLayoutEntry>, tag: SpecStructTag) -> Option<
    SpecMoveTypeLayout,
> {
    spec_find_layout_from(ls, tag, 0)
}

/// The first resource entry with descriptor `tag`, searching from index `i`.
pub open spec fn spec_find_resource_from(
    rs: Seq<SpecResourceEntry>,
    tag: SpecStructTag,
    i: int,
) -> Option<SpecResourceEntry>
    decreases rs.len() - i,
{
    if i < 0 || i >= rs.len() {
        None
    } else if rs[i].struct_tag == tag {
        Some(rs[i])
    } else {
        spec_find_resource_from(rs, tag, i + 1)
    }
}

/// The resource entry stored under `tag`, if any.
pub open spec fn spec_find_resource(rs: Seq<SpecResourceEntry>, tag: SpecStructTag) -> Option<
    SpecResourceEntry,
> {
    spec_find_resource_from(rs, tag, 0)
}

/// Converts one stored entry to a structured value: look the layout up,
/// decode the bytes with it, and demand that the entry is a struct whose
/// encoding uses the bytes exactly. Any failure means the stored data does
/// not conform to its own declared type.
pub open spec fn spec_convert_resource(
    e: SpecResourceEntry,
    ls: Seq<SpecLayoutEntry>,
) -> Option<SpecMoveResource> {
    match spec_find_layout(ls, e.struct_tag) {
        Some(l) => match spec_dec_value(l, e.bytes, 0) {
            Some((v, p)) => if p == e.bytes.len() && v is Struct {
                Some(SpecMoveResource { struct_tag: e.struct_tag, data: v->Struct_0 })
            } else {
                None
            },
            None => None,
        },
        None => None,
    }
}

/// Converts the entries from index `i` on; `None` as soon as any one entry
/// fails to convert.
pub open spec fn spec_convert_resources_from(
    rs: Seq<SpecResourceEntry>,
    ls: Seq<SpecLayoutEntry>,
    i: int,
) -> Option<Seq<SpecMoveResource>>
    decreases rs.len() - i,
{
    if i < 0 || i >= rs.len() {
        Some(Seq::empty())
    } else {
        match spec_convert_resource(rs[i], ls) {
            Some(m) => match spec_convert_resources_from(rs, ls, i + 1) {
                Some(ms) => Some(seq![m] + ms),
                None => None,
            },
            None => None,
        }
    }
}

/// All entries converted, in storage order; `None` if any entry fails.
pub open spec fn spec_convert_resources(
    rs: Seq<SpecResourceEntry>,
    ls: Seq<SpecLayoutEntry>,
) -> Option<Seq<SpecMoveResource>> {
    spec_convert_resources_from(rs, ls, 0)
}

/// The first field named `name`, searching from index `i`.
pub open spec fn spec_find_field_from(
    fields: Seq<SpecMoveField>,
    name: Seq<char>,
    i: int,
) -> Option<SpecMoveField>
    decreases fields.len() - i,
{
    if i < 0 || i >= fields.len() {
        None
    } else if fields[i].name == name {
        Some(fields[i])
    } else {
        spec_find_field_from(fields, name, i + 1)
    }
}

/// The field of a structured value named `name`, if any.
pub open spec fn spec_find_field(fields: Seq<SpecMoveField>, name: Seq<char>) -> Option<
    SpecMoveField,
> {
    spec_find_field_from(fields, name, 0)
}

// ---------------------------------------------------------------------------
// The account summary resource
// ---------------------------------------------------------------------------

/// Mathematical form of the account summary resource.
#[verifier::ext_equal]
pub struct SpecAccountResource {
    pub authentication_key: Seq<u8>,
    pub sequence_number: u64,
}

/// The well-known account summary resource: an authentication key and the
/// account's sequence number.
#[derive(Debug)]
pub struct AccountResource {
    pub authentication_key: Vec<u8>,
    pub sequence_number: u64,
}

impl AccountResource {
    pub open spec fn model(self) -> SpecAccountResource {
        SpecAccountResource {
            authentication_key: self.authentication_key@,
            sequence_number: self.sequence_number,
        }
    }
}

/// High level information about an account, as returned to callers.
#[derive(Debug)]
pub struct AccountData {
    pub sequence_number: u64,
    pub authentication_key: Vec<u8>,
}

impl AccountData {
    pub open spec fn model(self) -> SpecAccountResource {
        SpecAccountResource {
            authentication_key: self.authentication_key@,
            sequence_number: self.sequence_number,
        }
    }

    /// The caller-facing form of the summary resource.
    pub fn of_resource(r: AccountResource) -> (d: AccountData)
        ensures
            d.model() == r.model(),
    {
        AccountData {
            sequence_number: r.sequence_number,
            authentication_key: r.authentication_key,
        }
    }
}

/// The canonical byte form of the summary resource: a length-prefixed
/// authentication key followed by the little-endian sequence number.
pub open spec fn spec_encoded_account_resource(a: SpecAccountResource) -> Seq<u8> {
    crate::codec::spec_uleb(a.authentication_key.len()) + a.authentication_key
        + vstd::bytes::spec_u64_to_le_bytes(a.sequence_number)
}

/// The summary resource carried by stored bytes, if they decode; the whole
/// byte sequence must be used.
pub open spec fn spec_dec_account_resource(s: Seq<u8>) -> Option<SpecAccountResource> {
    match spec_dec_uleb(s, 0) {
        Some((n, p)) => if p + n + 8 == s.len() {
            Some(
                SpecAccountResource {
                    authentication_key: s.subrange(p, p + n),
                    sequence_number: vstd::bytes::spec_u64_from_le_bytes(
                        s.subrange(p + n, p + n + 8),
                    ),
                },
            )
        } else {
            None
        },
        None => None,
    }
}

/// Decodes the account summary resource from its stored bytes.
pub fn decode_account_resource(s: &Vec<u8>) -> (r: Option<AccountResource>)
    ensures
        match r {
            Some(a) => spec_dec_account_resource(s@) == Some(a.model()),
            None => spec_dec_account_resource(s@) is None,
        },
{
    match crate::codec::decode_uleb(s, 0) {
        Some((n, p)) => {
            if s.len() - p >= 8 && (s.len() - p - 8) as u64 == n {
                let key_end = s.len() - 8;
                let authentication_key = vstd::slice::slice_to_vec(
                    vstd::slice::slice_subrange(s.as_slice(), p, key_end),
                );
                let sequence_number = vstd::bytes::u64_from_le_bytes(
                    vstd::slice::slice_subrange(s.as_slice(), key_end, s.len()),
                );
                Some(AccountResource { authentication_key, sequence_number })
            } else {
                None
            }
        },
        None => None,
    }
}

/// Decoding the canonical bytes of a summary resource recovers it.
pub proof fn lemma_account_resource_round_trip(a: SpecAccountResource)
    requires
        a.authentication_key.len() <= crate::codec::MAX_SEQUENCE_LENGTH as nat,
    ensures
        spec_dec_account_resource(spec_encoded_account_resource(a)) == Some(a),
{
    let s = spec_encoded_account_resource(a);
    let u = crate::codec::spec_uleb(a.authentication_key.len());
    vstd::bytes::lemma_auto_spec_u64_to_from_le_bytes();
    assert(s.subrange(0, u.len() as int) =~= u);
    crate::codec::lemma_decode_uleb(a.authentication_key.len(), s, 0);
    let p = u.len() as int;
    let n = a.authentication_key.len() as int;
    assert(s.subrange(p, p + n) =~= a.authentication_key);
    assert(s.subrange(p + n, p + n + 8) =~= vstd::bytes::spec_u64_to_le_bytes(a.sequence_number));
    assert(spec_dec_account_resource(s)->Some_0 =~= a);
}

/// The mathematical form of the well-known account summary descriptor.
pub open spec fn spec_account_resource_tag() -> SpecStructTag {
    SpecStructTag {
        address: spec_core_code_address(),
        module: "account"@,
        name: "Account"@,
        type_params: Seq::empty(),
    }
}

/// The address that hosts the framework's code: one, in address width.
pub open spec fn spec_core_code_address() -> Seq<u8> {
    Seq::new(crate::address::ADDRESS_LENGTH as nat, |i: int| if i == 31 { 1u8 } else { 0u8 })
}

/// Builds the well-known account summary descriptor.
pub fn account_resource_struct_tag() -> (r: StructTag)
    ensures
        r.model() == spec_account_resource_tag(),
{
    let mut bytes: Vec<u8> = Vec::new();
    let mut i: usize = 0;
    while i < 31
        invariant
            0 <= i <= 31,
            bytes@.len() == i,
            forall|j: int| 0 <= j < i ==> bytes@[j] == 0u8,
        decreases 31 - i,
    {
        bytes.push(0u8);
        i += 1;
    }
    bytes.push(1u8);
    assert(bytes@ =~= spec_core_code_address());
    let r = StructTag {
        address: Address { bytes },
        module: "account".to_owned(),
        name: "Account".to_owned(),
        type_params: Vec::new(),
    };
    proof {
        crate::move_types::lemma_types_model(r.type_params);
        assert(crate::move_types::types_model(r.type_params) =~= Seq::<
            crate::move_types::SpecMoveType,
        >::empty());
        assert(r.model() =~= spec_account_resource_tag());
    }
    r
}

// ---------------------------------------------------------------------------
// The resolved request context
// ---------------------------------------------------------------------------

/// One resolved request context: an address, a ledger version validated
/// against the latest snapshot, and that snapshot itself.
#[derive(Debug)]
pub struct Account {
    pub address: Address,
    pub ledger_version: u64,
    pub latest_ledger_info: LedgerInfo,
}

impl Account {
    /// Resolves the request context. The latest-ledger snapshot comes from
    /// the storage collaborator; if that read failed, the failure is an
    /// operational fault. An absent requested version defaults to the
    /// latest; one beyond the latest does not exist yet.
    pub fn new(
        address: Address,
        requested_ledger_version: Option<u64>,
        latest_ledger_info: Result<LedgerInfo, StorageFault>,
    ) -> (r: Result<Account, ApiError>)
        ensures
            match latest_ledger_info {
                Err(_) => r matches Err(e) && e.model() == (SpecApiError::Internal {
                    reason: InternalReason::ReadFromStorage,
                }),
                Ok(info) => match r {
                    Ok(a) => {
                        &&& a.address.model() == address.model()
                        &&& a.latest_ledger_info == info
                        &&& match requested_ledger_version {
                            Some(v) => v <= info.version && a.ledger_version == v,
                            None => a.ledger_version == info.version,
                        }
                    },
                    Err(e) => {
                        &&& requested_ledger_version matches Some(v) && v > info.version
                        &&& e.model() == (SpecApiError::LedgerNotFound {
                            version: requested_ledger_version->Some_0,
                            latest_version: info.version,
                        })
                    },
                },
            },
    {
        let info = match latest_ledger_info {
            Ok(info) => info,
            Err(_) => {
                return Err(ApiError::Internal { reason: InternalReason::ReadFromStorage });
            },
        };
        let ledger_version = match requested_ledger_version {
            Some(v) => v,
            None => info.version,
        };
        if ledger_version > info.version {
            return Err(
                ApiError::LedgerNotFound {
                    version: ledger_version,
                    latest_version: info.version,
                },
            );
        }
        Ok(Account { address, ledger_version, latest_ledger_info: info })
    }

    // Helpers for processing account state.

    /// Classifies the storage collaborator's answer for this account: a
    /// collaborator fault is an operational fault, an absent state is a
    /// normal not-found outcome, and a present state passes through whole.
    fn account_state(&self, state: Result<Option<AccountState>, StorageFault>) -> (r: Result<
        AccountState,
        ApiError,
    >)
        ensures
            match state {
                Err(_) => r matches Err(e) && e.model() == (SpecApiError::Internal {
                    reason: InternalReason::ReadFromStorage,
                }),
                Ok(None) => r matches Err(e) && e.model() == self.spec_account_not_found(),
                Ok(Some(s)) => r matches Ok(out) && out == s,
            },
    {
        match state {
            Err(_) => Err(ApiError::Internal { reason: InternalReason::ReadFromStorage }),
            Ok(None) => Err(self.account_not_found()),
            Ok(Some(s)) => Ok(s),
        }
    }

    // Helpers for building errors.

    pub open spec fn spec_account_not_found(&self) -> SpecApiError {
        SpecApiError::AccountNotFound {
            address: self.address.model(),
            ledger_version: self.ledger_version,
            latest_version: self.latest_ledger_info.version,
        }
    }

    fn account_not_found(&self) -> (r: ApiError)
        ensures
            r.model() == self.spec_account_not_found(),
    {
        ApiError::AccountNotFound {
            address: self.address.duplicate(),
            ledger_version: self.ledger_version,
            latest_version: self.latest_ledger_info.version,
        }
    }

    pub open spec fn spec_resource_not_found(&self, tag: SpecStructTag) -> SpecApiError {
        SpecApiError::ResourceNotFound {
            address: self.address.model(),
            struct_tag: tag,
            ledger_version: self.ledger_version,
            latest_version: self.latest_ledger_info.version,
        }
    }

    fn resource_not_found(&self, struct_tag: &StructTag) -> (r: ApiError)
        ensures
            r.model() == self.spec_resource_not_found(struct_tag.model()),
    {
        ApiError::ResourceNotFound {
            address: self.address.duplicate(),
            struct_tag: struct_tag.duplicate(),
            ledger_version: self.ledger_version,
            latest_version: self.latest_ledger_info.version,
        }
    }

    pub open spec fn spec_field_not_found(
        &self,
        tag: SpecStructTag,
        field_name: Seq<char>,
    ) -> SpecApiError {
        SpecApiError::FieldNotFound {
            address: self.address.model(),
            struct_tag: tag,
            field_name,
            ledger_version: self.ledger_version,
            latest_version: self.latest_ledger_info.version,
        }
    }

    fn field_not_found(&self, struct_tag: &StructTag, field_name: &String) -> (r: ApiError)
        ensures
            r.model() == self.spec_field_not_found(struct_tag.model(), field_name@),
    {
        ApiError::FieldNotFound {
            address: self.address.duplicate(),
            struct_tag: struct_tag.duplicate(),
            field_name: clone_string(field_name),
            ledger_version: self.ledger_version,
            latest_version: self.latest_ledger_info.version,
        }
    }

    // Functions mapping directly to the exposed operations.

    /// Returns high level information about the account, from the stored
    /// value read under the well-known summary descriptor. An absent value
    /// is a missing resource; bytes confirmed present that fail to decode
    /// are corrupted stored data, never treated as absence.
    pub fn account(&self, state_value: Result<Option<Vec<u8>>, StorageFault>) -> (r: Result<
        AccountData,
        ApiError,
    >)
        ensures
            match state_value {
                Err(_) => r matches Err(e) && e.model() == (SpecApiError::Internal {
                    reason: InternalReason::ReadFromStorage,
                }),
                Ok(None) => r matches Err(e) && e.model() == self.spec_resource_not_found(
                    spec_account_resource_tag(),
                ),
                Ok(Some(bytes)) => match spec_dec_account_resource(bytes@) {
                    Some(a) => r matches Ok(d) && d.model() == a,
                    None => r matches Err(e) && e.model() == (SpecApiError::Internal {
                        reason: InternalReason::InvalidStoredData,
                    }),
                },
            },
    {
        let bytes = match state_value {
            Err(_) => {
                return Err(ApiError::Internal { reason: InternalReason::ReadFromStorage });
            },
            Ok(Some(bytes)) => bytes,
            Ok(None) => {
                let tag = account_resource_struct_tag();
                return Err(self.resource_not_found(&tag));
            },
        };
        match decode_account_resource(&bytes) {
            Some(a) => Ok(AccountData::of_resource(a)),
            None => Err(ApiError::Internal { reason: InternalReason::InvalidStoredData }),
        }
    }
}

// ---------------------------------------------------------------------------
// Modules in described form
// ---------------------------------------------------------------------------

/// Mathematical form of a module's metadata.
#[verifier::ext_equal]
pub struct SpecModuleAbi {
    pub address: Seq<u8>,
    pub name: Seq<char>,
}

/// Metadata extracted from one module's bytecode by the module-metadata
/// collaborator: the module's owning address and name.
#[derive(Debug)]
pub struct ModuleAbi {
    pub address: Address,
    pub name: String,
}

impl ModuleAbi {
    pub open spec fn model(self) -> SpecModuleAbi {
        SpecModuleAbi { address: self.address.model(), name: self.name@ }
    }

    /// A copy with the same model.
    pub fn duplicate(&self) -> (r: ModuleAbi)
        ensures
            r.model() == self.model(),
    {
        ModuleAbi { address: self.address.duplicate(), name: clone_string(&self.name) }
    }
}

/// Mathematical form of a described module.
#[verifier::ext_equal]
pub struct SpecMoveModuleBytecode {
    pub bytecode: Seq<u8>,
    pub abi: SpecModuleAbi,
}

/// One module in described form: its raw bytecode and its metadata.
#[derive(Debug)]
pub struct MoveModuleBytecode {
    pub bytecode: Vec<u8>,
    pub abi: ModuleAbi,
}

impl MoveModuleBytecode {
    pub open spec fn model(self) -> SpecMoveModuleBytecode {
        SpecMoveModuleBytecode { bytecode: self.bytecode@, abi: self.abi.model() }
    }
}

// ---------------------------------------------------------------------------
// Executable lookup and conversion
// ---------------------------------------------------------------------------

/// Looks the layout up for a descriptor, first match in order.
fn find_layout<'a>(layouts: &'a Vec<LayoutEntry>, tag: &StructTag) -> (r: Option<
    &'a MoveTypeLayout,
>)
    ensures
        match r {
            Some(l) => spec_find_layout(layouts_model(layouts@), tag.model()) == Some(l.model()),
            None => spec_find_layout(layouts_model(layouts@), tag.model()) is None,
        },
{
    let n = layouts.len();
    let mut i: usize = 0;
    while i < n
        invariant
            0 <= i <= n,
            n == layouts@.len(),
            spec_find_layout(layouts_model(layouts@), tag.model()) == spec_find_layout_from(
                layouts_model(layouts@),
                tag.model(),
                i as int,
            ),
        decreases n - i,
    {
        if layouts[i].struct_tag.matches(tag) {
            return Some(&layouts[i].layout);
        }
        i += 1;
    }
    None
}

/// Converts one stored entry to a structured value, exactly as
/// `spec_convert_resource` describes.
fn convert_resource(entry: &ResourceEntry, layouts: &Vec<LayoutEntry>) -> (r: Option<MoveResource>)
    ensures
        match r {
            Some(m) => spec_convert_resource(entry.model(), layouts_model(layouts@)) == Some(
                m.model(),
            ),
            None => spec_convert_resource(entry.model(), layouts_model(layouts@)) is None,
        },
{
    let l = match find_layout(layouts, &entry.struct_tag) {
        Some(l) => l,
        None => {
            return None;
        },
    };
    match decode_value(l, &entry.bytes, 0) {
        Some((v, p)) => {
            if p == entry.bytes.len() {
                match v {
                    MoveValue::Struct(fs) => Some(
                        MoveResource { struct_tag: entry.struct_tag.duplicate(), data: fs },
                    ),
                    _ => None,
                }
            } else {
                None
            }
        },
        None => None,
    }
}

// ---------------------------------------------------------------------------
// Laws relating lookup and listing
// ---------------------------------------------------------------------------

proof fn lemma_find_resource_none_from(rs: Seq<SpecResourceEntry>, tag: SpecStructTag, i: int)
    requires
        0 <= i <= rs.len(),
        spec_find_resource_from(rs, tag, i) is None,
    ensures
        forall|j: int| i <= j < rs.len() ==> (#[trigger] rs[j]).struct_tag != tag,
    decreases rs.len() - i,
{
    if i < rs.len() {
        lemma_find_resource_none_from(rs, tag, i + 1);
    }
}

proof fn lemma_convert_resources_from_tags(
    rs: Seq<SpecResourceEntry>,
    ls: Seq<SpecLayoutEntry>,
    i: int,
)
    requires
        0 <= i <= rs.len(),
        spec_convert_resources_from(rs, ls, i) is Some,
    ensures
        ({
            let ms = spec_convert_resources_from(rs, ls, i)->Some_0;
            &&& ms.len() == rs.len() - i
            &&& forall|k: int| 0 <= k < ms.len()
                ==> (#[trigger] ms[k]).struct_tag == rs[i + k].struct_tag
        }),
    decreases rs.len() - i,
{
    if i < rs.len() {
        lemma_convert_resources_from_tags(rs, ls, i + 1);
    }
}

/// Law: within a well-formed account state — one whose resource set carries
/// each type descriptor at most once, see `AccountState::wf` — lookup by a
/// descriptor that some entry carries returns exactly that entry.
pub proof fn lemma_find_resource_unique(rs: Seq<SpecResourceEntry>, tag: SpecStructTag, i: int)
    requires
        forall|a: int, b: int| 0 <= a < b < rs.len()
            ==> (#[trigger] rs[a]).struct_tag != (#[trigger] rs[b]).struct_tag,
        0 <= i < rs.len(),
        rs[i].struct_tag == tag,
    ensures
        spec_find_resource(rs, tag) == Some(rs[i]),
{
    lemma_find_resource_unique_from(rs, tag, i, 0);
}

proof fn lemma_find_resource_unique_from(rs: Seq<SpecResourceEntry>, tag: SpecStructTag, i: int, j: int)
    requires
        forall|a: int, b: int| 0 <= a < b < rs.len()
            ==> (#[trigger] rs[a]).struct_tag != (#[trigger] rs[b]).struct_tag,
        0 <= j <= i < rs.len(),
        rs[i].struct_tag == tag,
    ensures
        spec_find_resource_from(rs, tag, j) == Some(rs[i]),
    decreases rs.len() - j,
{
    if j < i {
        assert(rs[j].struct_tag != rs[i].struct_tag);
        lemma_find_resource_unique_from(rs, tag, i, j + 1);
    }
}

/// Law: a type descriptor that lookup reports absent is also absent from the
/// converted listing — listing succeeds independently of any one descriptor
/// and simply does not contain it.
pub proof fn lemma_absent_type_not_listed(
    rs: Seq<SpecResourceEntry>,
    ls: Seq<SpecLayoutEntry>,
    tag: SpecStructTag,
)
    requires
        spec_find_resource(rs, tag) is None,
        spec_convert_resources(rs, ls) is Some,
    ensures
        ({
            let ms = spec_convert_resources(rs, ls)->Some_0;
            &&& ms.len() == rs.len()
            &&& forall|k: int| 0 <= k < ms.len() ==> (#[trigger] ms[k]).struct_tag != tag
        }),
{
    lemma_find_resource_none_from(rs, tag, 0);
    lemma_convert_resources_from_tags(rs, ls, 0);
}

impl Account {
    /// Returns all the account's resources at this context's version,
    /// converted to structured values. Conversion of stored bytes never
    /// fails silently: the first entry that does not conform to its own
    /// declared type fails the whole request as corrupted stored data.
    #[verifier::loop_isolation(false)]
    pub fn resources(
        &self,
        state: Result<Option<AccountState>, StorageFault>,
        layouts: &Vec<LayoutEntry>,
    ) -> (r: Result<Vec<MoveResource>, ApiError>)
        ensures
            match state {
                Err(_) => r matches Err(e) && e.model() == (SpecApiError::Internal {
                    reason: InternalReason::ReadFromStorage,
                }),
                Ok(None) => r matches Err(e) && e.model() == self.spec_account_not_found(),
                Ok(Some(s)) => match spec_convert_resources(
                    s.model().resources,
                    layouts_model(layouts@),
                ) {
                    Some(ms) => r matches Ok(out) && resources_model(out@) == ms,
                    None => r matches Err(e) && e.model() == (SpecApiError::Internal {
                        reason: InternalReason::InvalidStoredData,
                    }),
                },
            },
    {
        let s = match self.account_state(state) {
            Ok(s) => s,
            Err(e) => {
                return Err(e);
            },
        };
        let ghost rsm = s.model().resources;
        let ghost lsm = layouts_model(layouts@);
        let n = s.resources.len();
        let mut out: Vec<MoveResource> = Vec::new();
        let mut i: usize = 0;
        proof {
            if spec_convert_resources_from(rsm, lsm, 0) is Some {
                let ms2 = spec_convert_resources_from(rsm, lsm, 0)->Some_0;
                assert(resources_model(out@) + ms2 =~= ms2);
            }
        }
        while i < n
            invariant
                0 <= i <= n,
                n == s.resources@.len(),
                rsm == s.model().resources,
                lsm == layouts_model(layouts@),
                out@.len() == i,
                match spec_convert_resources_from(rsm, lsm, i as int) {
                    Some(ms2) => spec_convert_resources_from(rsm, lsm, 0) == Some(
                        (resources_model(out@) + ms2),
                    ),
                    None => spec_convert_resources_from(rsm, lsm, 0) is None,
                },
            decreases n - i,
        {
            let ghost old_out = out;
            match convert_resource(&s.resources[i], layouts) {
                Some(m) => {
                    out.push(m);
                    proof {
                        let mm = spec_convert_resource(rsm[i as int], lsm)->Some_0;
                        assert(resources_model(out@) =~= resources_model(old_out@) + seq![mm]);
                        if spec_convert_resources_from(rsm, lsm, i + 1) is Some {
                            let ms3 = spec_convert_resources_from(rsm, lsm, i + 1)->Some_0;
                            assert(resources_model(old_out@) + (seq![mm] + ms3) =~= resources_model(
                                out@,
                            ) + ms3);
                        }
                    }
                    i += 1;
                },
                None => {
                    return Err(ApiError::Internal { reason: InternalReason::InvalidStoredData });
                },
            }
        }
        proof {
            assert(resources_model(out@) + Seq::<SpecMoveResource>::empty() =~= resources_model(
                out@,
            ));
        }
        Ok(out)
    }

    /// Returns all the account's modules in described form, pairing each
    /// stored bytecode with the metadata the collaborator extracted from it.
    /// The policy is all-or-nothing: if metadata extraction failed for any
    /// single module, the whole operation fails as corrupted stored
    /// bytecode; no partial list is ever returned.
    #[verifier::loop_isolation(false)]
    pub fn modules(
        &self,
        state: Result<Option<AccountState>, StorageFault>,
        abis: &Vec<Option<ModuleAbi>>,
    ) -> (r: Result<Vec<MoveModuleBytecode>, ApiError>)
        requires
            state matches Ok(Some(s)) ==> abis@.len() == s.modules@.len(),
        ensures
            match state {
                Err(_) => r matches Err(e) && e.model() == (SpecApiError::Internal {
                    reason: InternalReason::ReadFromStorage,
                }),
                Ok(None) => r matches Err(e) && e.model() == self.spec_account_not_found(),
                Ok(Some(s)) => {
                    if forall|j: int| 0 <= j < abis@.len() ==> (#[trigger] abis@[j]) is Some {
                        r matches Ok(out) && out@.len() == s.modules@.len() && forall|j: int|
                            0 <= j < out@.len()
                            ==> (#[trigger] out@[j]).model() == (SpecMoveModuleBytecode {
                                bytecode: s.modules@[j]@,
                                abi: abis@[j]->Some_0.model(),
                            })
                    } else {
                        r matches Err(e) && e.model() == (SpecApiError::Internal {
                            reason: InternalReason::InvalidStoredBytecode,
                        })
                    }
                },
            },
    {
        let s = match self.account_state(state) {
            Ok(s) => s,
            Err(e) => {
                return Err(e);
            },
        };
        let n = s.modules.len();
        let mut out: Vec<MoveModuleBytecode> = Vec::new();
        let mut i: usize = 0;
        while i < n
            invariant
                0 <= i <= n,
                n == s.modules@.len() == abis@.len(),
                out@.len() == i,
                forall|j: int| 0 <= j < i ==> (#[trigger] abis@[j]) is Some,
                forall|j: int| 0 <= j < i
                    ==> (#[trigger] out@[j]).model() == (SpecMoveModuleBytecode {
                        bytecode: s.modules@[j]@,
                        abi: abis@[j]->Some_0.model(),
                    }),
            decreases n - i,
        {
            match &abis[i] {
                Some(abi) => {
                    let bytecode = vstd::slice::slice_to_vec(s.modules[i].as_slice());
                    out.push(MoveModuleBytecode { bytecode, abi: abi.duplicate() });
                    i += 1;
                },
                None => {
                    return Err(
                        ApiError::Internal { reason: InternalReason::InvalidStoredBytecode },
                    );
                },
            }
        }
        Ok(out)
    }

    /// Finds the one resource stored under `struct_tag` and converts it to
    /// its (field name, value) pairs. Absence of the descriptor is a
    /// missing resource; a present entry that fails to convert is corrupted
    /// stored data.
    #[verifier::loop_isolation(false)]
    pub fn find_resource(
        &self,
        state: Result<Option<AccountState>, StorageFault>,
        layouts: &Vec<LayoutEntry>,
        struct_tag: &StructTag,
    ) -> (r: Result<Vec<MoveField>, ApiError>)
        ensures
            match state {
                Err(_) => r matches Err(e) && e.model() == (SpecApiError::Internal {
                    reason: InternalReason::ReadFromStorage,
                }),
                Ok(None) => r matches Err(e) && e.model() == self.spec_account_not_found(),
                Ok(Some(s)) => match spec_find_resource(s.model().resources, struct_tag.model()) {
                    None => r matches Err(e) && e.model() == self.spec_resource_not_found(
                        struct_tag.model(),
                    ),
                    Some(entry) => match spec_convert_resource(entry, layouts_model(layouts@)) {
                        Some(m) => r matches Ok(fields) && fields_model(fields) == m.data,
                        None => r matches Err(e) && e.model() == (SpecApiError::Internal {
                            reason: InternalReason::InvalidStoredData,
                        }),
                    },
                },
            },
    {
        let s = match self.account_state(state) {
            Ok(s) => s,
            Err(e) => {
                return Err(e);
            },
        };
        let ghost rsm = s.model().resources;
        let n = s.resources.len();
        let mut i: usize = 0;
        while i < n
            invariant
                0 <= i <= n,
                n == s.resources@.len(),
                rsm == s.model().resources,
                spec_find_resource(rsm, struct_tag.model()) == spec_find_resource_from(
                    rsm,
                    struct_tag.model(),
                    i as int,
                ),
            decreases n - i,
        {
            if s.resources[i].struct_tag.matches(struct_tag) {
                match convert_resource(&s.resources[i], layouts) {
                    Some(m) => {
                        return Ok(m.data);
                    },
                    None => {
                        return Err(
                            ApiError::Internal { reason: InternalReason::InvalidStoredData },
                        );
                    },
                }
            }
            i += 1;
        }
        Err(self.resource_not_found(struct_tag))
    }

    /// Locates the event key of the event stream referenced by the field
    /// `field_name` of the resource stored under `event_handle`.
    ///
    /// Three failure causes are kept apart: a missing field of a present
    /// resource is a missing resource; a field whose re-encoded value does
    /// not have the handle's shape is the caller's mistake; and re-encoding
    /// itself is total (see `crate::codec::lemma_round_trip`), so no
    /// internal re-encode failure can arise.
    #[verifier::loop_isolation(false)]
    pub fn find_event_key(
        &self,
        state: Result<Option<AccountState>, StorageFault>,
        layouts: &Vec<LayoutEntry>,
        event_handle: &StructTag,
        field_name: &String,
    ) -> (r: Result<EventKey, ApiError>)
        ensures
            !spec_valid_struct_tag(event_handle.model()) ==> (r matches Err(e) && e.model()
                == (SpecApiError::BadRequest { reason: BadRequestReason::InvalidStructTag })),
            spec_valid_struct_tag(event_handle.model()) ==> match state {
                Err(_) => r matches Err(e) && e.model() == (SpecApiError::Internal {
                    reason: InternalReason::ReadFromStorage,
                }),
                Ok(None) => r matches Err(e) && e.model() == self.spec_account_not_found(),
                Ok(Some(s)) => match spec_find_resource(s.model().resources, event_handle.model()) {
                    None => r matches Err(e) && e.model() == self.spec_resource_not_found(
                        event_handle.model(),
                    ),
                    Some(entry) => match spec_convert_resource(entry, layouts_model(layouts@)) {
                        None => r matches Err(e) && e.model() == (SpecApiError::Internal {
                            reason: InternalReason::InvalidStoredData,
                        }),
                        Some(m) => match spec_find_field(m.data, field_name@) {
                            None => r matches Err(e) && e.model() == self.spec_field_not_found(
                                event_handle.model(),
                                field_name@,
                            ),
                            Some(f) => match spec_handle_of_bytes(spec_encoded(f.value)) {
                                Some(h) => r matches Ok(k) && k.model() == h.key && k.wf(),
                                None => r matches Err(e) && e.model() == (SpecApiError::BadRequest {
                                    reason: BadRequestReason::FieldTypeNotEventHandle,
                                }),
                            },
                        },
                    },
                },
            },
    {
        if !event_handle.is_valid() {
            return Err(ApiError::BadRequest { reason: BadRequestReason::InvalidStructTag });
        }
        let fields = match self.find_resource(state, layouts, event_handle) {
            Ok(fields) => fields,
            Err(e) => {
                return Err(e);
            },
        };
        let ghost fsm = fields_model(fields);
        proof {
            lemma_fields_model(fields);
        }
        let n = fields.len();
        let mut i: usize = 0;
        while i < n
            invariant
                0 <= i <= n,
                n == fields@.len(),
                fsm == fields_model(fields),
                fsm.len() == n,
                forall|j: int| 0 <= j < n ==> fsm[j] == fields@[j].model(),
                spec_find_field(fsm, field_name@) == spec_find_field_from(
                    fsm,
                    field_name@,
                    i as int,
                ),
            decreases n - i,
        {
            if fields[i].name == *field_name {
                let bytes = encode_value(&fields[i].value);
                match decode_event_handle(&bytes) {
                    Some(h) => {
                        return Ok(h.key);
                    },
                    None => {
                        return Err(
                            ApiError::BadRequest {
                                reason: BadRequestReason::FieldTypeNotEventHandle,
                            },
                        );
                    },
                }
            }
            i += 1;
        }
        Err(self.field_not_found(event_handle, field_name))
    }
}

} // verus!

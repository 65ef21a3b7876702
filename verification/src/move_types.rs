//! Type descriptors, structured values and type layouts.
//!
//! A resource is a decoded structured value: an ordered sequence of
//! (field name, value) pairs, where each value is a primitive, a nested
//! structured value, or a sequence thereof. A type descriptor (struct tag)
//! is the fully qualified type name used as the lookup key for a resource.
//! A type layout drives byte-level decoding of a stored value.
//!
//! Each executable type has a mathematical twin (`Spec...`) over `Seq`, and a
//! `model` function mapping into it; every contract speaks of models.

use vstd::prelude::*;
use crate::address::Address;

verus! {

broadcast use vstd::std_specs::vec::axiom_vec_index_decreases;

// ---------------------------------------------------------------------------
// Mathematical twins
// ---------------------------------------------------------------------------

/// Mathematical form of a type argument.
#[verifier::ext_equal]
pub enum SpecMoveType {
    Bool,
    U8,
    U64,
    U128,
    Address,
    Vector(Box<SpecMoveType>),
    Struct(Box<SpecStructTag>),
}

/// Mathematical form of a fully qualified type name.
#[verifier::ext_equal]
pub struct SpecStructTag {
    pub address: Seq<u8>,
    pub module: Seq<char>,
    pub name: Seq<char>,
    pub type_params: Seq<SpecMoveType>,
}

/// Mathematical form of a structured value.
#[verifier::ext_equal]
pub enum SpecMoveValue {
    Bool(bool),
    U8(u8),
    U64(u64),
    U128(u128),
    Address(Seq<u8>),
    Vector(Seq<SpecMoveValue>),
    Struct(Seq<SpecMoveField>),
}

/// Mathematical form of one named field of a structured value.
#[verifier::ext_equal]
pub struct SpecMoveField {
    pub name: Seq<char>,
    pub value: SpecMoveValue,
}

/// Mathematical form of a type layout.
#[verifier::ext_equal]
pub enum SpecMoveTypeLayout {
    Bool,
    U8,
    U64,
    U128,
    Address,
    Vector(Box<SpecMoveTypeLayout>),
    Struct(Seq<SpecMoveFieldLayout>),
}

/// Mathematical form of one named field of a struct layout.
#[verifier::ext_equal]
pub struct SpecMoveFieldLayout {
    pub name: Seq<char>,
    pub layout: SpecMoveTypeLayout,
}

// ---------------------------------------------------------------------------
// Executable types
// ---------------------------------------------------------------------------

/// A type argument of a generic type descriptor.
#[derive(Debug)]
pub enum MoveType {
    Bool,
    U8,
    U64,
    U128,
    Address,
    Vector(Box<MoveType>),
    Struct(Box<StructTag>),
}

/// A fully qualified type name: owning address, module name, type name and
/// generic type arguments. Unique within one account state's resource set.
#[derive(Debug)]
pub struct StructTag {
    pub address: Address,
    pub module: String,
    pub name: String,
    pub type_params: Vec<MoveType>,
}

/// A structured value decoded from storage.
#[derive(Debug)]
pub enum MoveValue {
    Bool(bool),
    U8(u8),
    U64(u64),
    U128(u128),
    Address(Address),
    Vector(Vec<MoveValue>),
    Struct(Vec<MoveField>),
}

/// One named field of a structured value.
#[derive(Debug)]
pub struct MoveField {
    pub name: String,
    pub value: MoveValue,
}

/// The byte-level layout of a stored value, supplied by the type-layout
/// collaborator alongside the account state.
#[derive(Debug)]
pub enum MoveTypeLayout {
    Bool,
    U8,
    U64,
    U128,
    Address,
    Vector(Box<MoveTypeLayout>),
    Struct(Vec<MoveFieldLayout>),
}

/// One named field of a struct layout.
#[derive(Debug)]
pub struct MoveFieldLayout {
    pub name: String,
    pub layout: MoveTypeLayout,
}

// ---------------------------------------------------------------------------
// Models: executable values to their mathematical twins
// ---------------------------------------------------------------------------

impl MoveType {
    pub open spec fn model(self) -> SpecMoveType
        decreases self, 0int,
    {
        match self {
            MoveType::Bool => SpecMoveType::Bool,
            MoveType::U8 => SpecMoveType::U8,
            MoveType::U64 => SpecMoveType::U64,
            MoveType::U128 => SpecMoveType::U128,
            MoveType::Address => SpecMoveType::Address,
            MoveType::Vector(t) => SpecMoveType::Vector(Box::new(t.model())),
            MoveType::Struct(tag) => SpecMoveType::Struct(Box::new(tag.model())),
        }
    }
}

impl StructTag {
    pub open spec fn model(self) -> SpecStructTag
        decreases self, 1int,
    {
        SpecStructTag {
            address: self.address.model(),
            module: self.module@,
            name: self.name@,
            type_params: types_model_from(self.type_params, 0),
        }
    }
}

pub open spec fn types_model_from(ts: Vec<MoveType>, i: int) -> Seq<SpecMoveType>
    decreases ts, ts@.len() - i,
{
    if 0 <= i < ts@.len() {
        seq![ts@[i].model()] + types_model_from(ts, i + 1)
    } else {
        Seq::empty()
    }
}

pub open spec fn types_model(ts: Vec<MoveType>) -> Seq<SpecMoveType> {
    types_model_from(ts, 0)
}

impl MoveValue {
    pub open spec fn model(self) -> SpecMoveValue
        decreases self, 0int,
    {
        match self {
            MoveValue::Bool(b) => SpecMoveValue::Bool(b),
            MoveValue::U8(x) => SpecMoveValue::U8(x),
            MoveValue::U64(x) => SpecMoveValue::U64(x),
            MoveValue::U128(x) => SpecMoveValue::U128(x),
            MoveValue::Address(a) => SpecMoveValue::Address(a.model()),
            MoveValue::Vector(vs) => SpecMoveValue::Vector(values_model_from(vs, 0)),
            MoveValue::Struct(fs) => SpecMoveValue::Struct(fields_model_from(fs, 0)),
        }
    }
}

impl MoveField {
    pub open spec fn model(self) -> SpecMoveField
        decreases self, 1int,
    {
        SpecMoveField { name: self.name@, value: self.value.model() }
    }
}

pub open spec fn values_model_from(vs: Vec<MoveValue>, i: int) -> Seq<SpecMoveValue>
    decreases vs, vs@.len() - i,
{
    if 0 <= i < vs@.len() {
        seq![vs@[i].model()] + values_model_from(vs, i + 1)
    } else {
        Seq::empty()
    }
}

pub open spec fn values_model(vs: Vec<MoveValue>) -> Seq<SpecMoveValue> {
    values_model_from(vs, 0)
}

pub open spec fn fields_model_from(fs: Vec<MoveField>, i: int) -> Seq<SpecMoveField>
    decreases fs, fs@.len() - i,
{
    if 0 <= i < fs@.len() {
        seq![fs@[i].model()] + fields_model_from(fs, i + 1)
    } else {
        Seq::empty()
    }
}

pub open spec fn fields_model(fs: Vec<MoveField>) -> Seq<SpecMoveField> {
    fields_model_from(fs, 0)
}

impl MoveTypeLayout {
    pub open spec fn model(self) -> SpecMoveTypeLayout
        decreases self, 0int,
    {
        match self {
            MoveTypeLayout::Bool => SpecMoveTypeLayout::Bool,
            MoveTypeLayout::U8 => SpecMoveTypeLayout::U8,
            MoveTypeLayout::U64 => SpecMoveTypeLayout::U64,
            MoveTypeLayout::U128 => SpecMoveTypeLayout::U128,
            MoveTypeLayout::Address => SpecMoveTypeLayout::Address,
            MoveTypeLayout::Vector(l) => SpecMoveTypeLayout::Vector(Box::new(l.model())),
            MoveTypeLayout::Struct(fs) => SpecMoveTypeLayout::Struct(field_layouts_model_from(fs, 0)),
        }
    }
}

impl MoveFieldLayout {
    pub open spec fn model(self) -> SpecMoveFieldLayout
        decreases self, 1int,
    {
        SpecMoveFieldLayout { name: self.name@, layout: self.layout.model() }
    }
}

pub open spec fn field_layouts_model_from(fs: Vec<MoveFieldLayout>, i: int) -> Seq<SpecMoveFieldLayout>
    decreases fs, fs@.len() - i,
{
    if 0 <= i < fs@.len() {
        seq![fs@[i].model()] + field_layouts_model_from(fs, i + 1)
    } else {
        Seq::empty()
    }
}

pub open spec fn field_layouts_model(fs: Vec<MoveFieldLayout>) -> Seq<SpecMoveFieldLayout> {
    field_layouts_model_from(fs, 0)
}

// ---------------------------------------------------------------------------
// Characterization of the element-wise models
// ---------------------------------------------------------------------------

pub broadcast proof fn lemma_types_model(ts: Vec<MoveType>)
    ensures
        (#[trigger] types_model(ts)).len() == ts@.len(),
        forall|j: int| 0 <= j < ts@.len() ==> types_model(ts)[j] == ts@[j].model(),
{
    lemma_types_model_from(ts, 0);
}

proof fn lemma_types_model_from(ts: Vec<MoveType>, i: int)
    requires
        0 <= i <= ts@.len(),
    ensures
        types_model_from(ts, i).len() == ts@.len() - i,
        forall|j: int| i <= j < ts@.len() ==> types_model_from(ts, i)[j - i] == ts@[j].model(),
    decreases ts@.len() - i,
{
    if i < ts@.len() {
        lemma_types_model_from(ts, i + 1);
    }
}

pub broadcast proof fn lemma_values_model(vs: Vec<MoveValue>)
    ensures
        (#[trigger] values_model(vs)).len() == vs@.len(),
        forall|j: int| 0 <= j < vs@.len() ==> values_model(vs)[j] == vs@[j].model(),
{
    lemma_values_model_from(vs, 0);
}

proof fn lemma_values_model_from(vs: Vec<MoveValue>, i: int)
    requires
        0 <= i <= vs@.len(),
    ensures
        values_model_from(vs, i).len() == vs@.len() - i,
        forall|j: int| i <= j < vs@.len() ==> values_model_from(vs, i)[j - i] == vs@[j].model(),
    decreases vs@.len() - i,
{
    if i < vs@.len() {
        lemma_values_model_from(vs, i + 1);
    }
}

pub broadcast proof fn lemma_fields_model(fs: Vec<MoveField>)
    ensures
        (#[trigger] fields_model(fs)).len() == fs@.len(),
        forall|j: int| 0 <= j < fs@.len() ==> fields_model(fs)[j] == fs@[j].model(),
{
    lemma_fields_model_from(fs, 0);
}

proof fn lemma_fields_model_from(fs: Vec<MoveField>, i: int)
    requires
        0 <= i <= fs@.len(),
    ensures
        fields_model_from(fs, i).len() == fs@.len() - i,
        forall|j: int| i <= j < fs@.len() ==> fields_model_from(fs, i)[j - i] == fs@[j].model(),
    decreases fs@.len() - i,
{
    if i < fs@.len() {
        lemma_fields_model_from(fs, i + 1);
    }
}

pub broadcast proof fn lemma_field_layouts_model(fs: Vec<MoveFieldLayout>)
    ensures
        (#[trigger] field_layouts_model(fs)).len() == fs@.len(),
        forall|j: int| 0 <= j < fs@.len() ==> field_layouts_model(fs)[j] == fs@[j].model(),
{
    lemma_field_layouts_model_from(fs, 0);
}

proof fn lemma_field_layouts_model_from(fs: Vec<MoveFieldLayout>, i: int)
    requires
        0 <= i <= fs@.len(),
    ensures
        field_layouts_model_from(fs, i).len() == fs@.len() - i,
        forall|j: int| i <= j < fs@.len()
            ==> field_layouts_model_from(fs, i)[j - i] == fs@[j].model(),
    decreases fs@.len() - i,
{
    if i < fs@.len() {
        lemma_field_layouts_model_from(fs, i + 1);
    }
}

// ---------------------------------------------------------------------------
// Identifier validity
// ---------------------------------------------------------------------------

/// A letter of the ASCII alphabet.
pub open spec fn spec_is_letter(c: char) -> bool {
    (97 <= c as u32 && c as u32 <= 122) || (65 <= c as u32 && c as u32 <= 90)
}

/// A character allowed after the first position of an identifier.
pub open spec fn spec_is_identifier_char(c: char) -> bool {
    spec_is_letter(c) || (48 <= c as u32 && c as u32 <= 57) || c == '_'
}

/// A well-formed module or type name: a letter followed by letters, digits
/// and underscores, or an underscore followed by at least one such character.
pub open spec fn spec_valid_identifier(s: Seq<char>) -> bool {
    &&& s.len() > 0
    &&& (spec_is_letter(s[0]) || (s[0] == '_' && s.len() >= 2))
    &&& forall|i: int| 1 <= i < s.len() ==> spec_is_identifier_char(#[trigger] s[i])
}

/// Checks a name against the identifier grammar.
pub fn is_valid_identifier(s: &String) -> (r: bool)
    ensures
        r == spec_valid_identifier(s@),
{
    let st = s.as_str();
    let n = st.unicode_len();
    if n == 0 {
        return false;
    }
    let first = st.get_char(0);
    let first_ok = if is_letter(first) {
        true
    } else {
        first == '_' && n >= 2
    };
    if !first_ok {
        return false;
    }
    let mut i: usize = 1;
    while i < n
        invariant
            1 <= i <= n,
            n == s@.len(),
            st@ == s@,
            forall|j: int| 1 <= j < i ==> spec_is_identifier_char(#[trigger] s@[j]),
        decreases n - i,
    {
        let c = st.get_char(i);
        if !is_identifier_char(c) {
            return false;
        }
        i += 1;
    }
    true
}

fn is_letter(c: char) -> (r: bool)
    ensures
        r == spec_is_letter(c),
{
    let x = c as u32;
    (97 <= x && x <= 122) || (65 <= x && x <= 90)
}

fn is_identifier_char(c: char) -> (r: bool)
    ensures
        r == spec_is_identifier_char(c),
{
    let x = c as u32;
    is_letter(c) || (48 <= x && x <= 57) || c == '_'
}

/// A type descriptor usable as a lookup key: its module and type names obey
/// the identifier grammar. A descriptor received from a caller may break
/// this; the resolver then reports the request as malformed.
pub open spec fn spec_valid_struct_tag(t: SpecStructTag) -> bool {
    spec_valid_identifier(t.module) && spec_valid_identifier(t.name)
}

impl StructTag {
    /// Checks that the descriptor's module and type names are well formed.
    pub fn is_valid(&self) -> (r: bool)
        ensures
            r == spec_valid_struct_tag(self.model()),
    {
        is_valid_identifier(&self.module) && is_valid_identifier(&self.name)
    }
}

// ---------------------------------------------------------------------------
// Structural equality of type descriptors
// ---------------------------------------------------------------------------

impl MoveType {
    /// Structural equality of two type arguments.
    pub fn matches(&self, other: &MoveType) -> (r: bool)
        ensures
            r == (self.model() == other.model()),
        decreases *self, 0int,
    {
        match (self, other) {
            (MoveType::Bool, MoveType::Bool) => true,
            (MoveType::U8, MoveType::U8) => true,
            (MoveType::U64, MoveType::U64) => true,
            (MoveType::U128, MoveType::U128) => true,
            (MoveType::Address, MoveType::Address) => true,
            (MoveType::Vector(a), MoveType::Vector(b)) => a.matches(b),
            (MoveType::Struct(a), MoveType::Struct(b)) => a.matches(b),
            _ => false,
        }
    }
}

impl StructTag {
    /// Structural equality of two type descriptors: same owning address,
    /// module name, type name and type arguments.
    pub fn matches(&self, other: &StructTag) -> (r: bool)
        ensures
            r == (self.model() == other.model()),
        decreases *self, 1int,
    {
        proof {
            lemma_types_model(self.type_params);
            lemma_types_model(other.type_params);
        }
        if !self.address.matches(&other.address) {
            return false;
        }
        if !(self.module == other.module) {
            return false;
        }
        if !(self.name == other.name) {
            return false;
        }
        if self.type_params.len() != other.type_params.len() {
            assert(self.model().type_params.len() != other.model().type_params.len());
            return false;
        }
        let n = self.type_params.len();
        let mut i: usize = 0;
        while i < n
            invariant
                0 <= i <= n,
                n == self.type_params@.len() == other.type_params@.len(),
                forall|j: int| 0 <= j < i
                    ==> #[trigger] self.type_params@[j].model() == other.type_params@[j].model(),
            decreases n - i,
        {
            proof {
                vstd::std_specs::vec::axiom_vec_index_decreases(self.type_params, i as int);
            }
            if !self.type_params[i].matches(&other.type_params[i]) {
                proof {
                    broadcast use lemma_types_model;
                    assert(types_model(self.type_params)[i as int]
                        != types_model(other.type_params)[i as int]);
                }
                return false;
            }
            i += 1;
        }
        proof {
            broadcast use lemma_types_model;
            assert(types_model(self.type_params) =~= types_model(other.type_params));
        }
        true
    }
}

// ---------------------------------------------------------------------------
// Deep copies, with the model preserved
// ---------------------------------------------------------------------------

impl MoveType {
    /// A copy with the same model.
    pub fn duplicate(&self) -> (r: MoveType)
        ensures
            r.model() == self.model(),
        decreases *self, 0int,
    {
        match self {
            MoveType::Bool => MoveType::Bool,
            MoveType::U8 => MoveType::U8,
            MoveType::U64 => MoveType::U64,
            MoveType::U128 => MoveType::U128,
            MoveType::Address => MoveType::Address,
            MoveType::Vector(t) => MoveType::Vector(Box::new(t.duplicate())),
            MoveType::Struct(tag) => MoveType::Struct(Box::new(tag.duplicate())),
        }
    }
}

impl StructTag {
    /// A copy with the same model.
    pub fn duplicate(&self) -> (r: StructTag)
        ensures
            r.model() == self.model(),
        decreases *self, 1int,
    {
        let mut params: Vec<MoveType> = Vec::new();
        let n = self.type_params.len();
        let mut i: usize = 0;
        while i < n
            invariant
                0 <= i <= n,
                n == self.type_params@.len(),
                params@.len() == i,
                forall|j: int| 0 <= j < i
                    ==> #[trigger] params@[j].model() == self.type_params@[j].model(),
            decreases n - i,
        {
            proof {
                vstd::std_specs::vec::axiom_vec_index_decreases(self.type_params, i as int);
            }
            let t = self.type_params[i].duplicate();
            params.push(t);
            i += 1;
        }
        let r = StructTag {
            address: self.address.duplicate(),
            module: clone_string(&self.module),
            name: clone_string(&self.name),
            type_params: params,
        };
        proof {
            broadcast use lemma_types_model;
            assert(types_model(r.type_params) =~= types_model(self.type_params));
            assert(r.model() =~= self.model());
        }
        r
    }
}

/// A copy of a string with the same characters.
pub fn clone_string(s: &String) -> (r: String)
    ensures
        r@ == s@,
{
    s.as_str().to_owned()
}

} // verus!

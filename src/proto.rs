//! The resolved documentation model: message and enum nodes, fields,
//! services and methods, built from the descriptor set.
use vstd::prelude::*;
use crate::comments::{get_description, leading_of, position_of_path, trailing_of, Location, SourceInfo};
use crate::descriptor::{
    EnumDescriptor, EnumValueDescriptor, FieldDescriptor, MessageDescriptor, ScalarKind,
    LABEL_REPEATED,
};
use crate::error::DocError;
use crate::names::{qualified_view, FullyQualifiedTypeName, QualifiedNameView};
use crate::as_i32;
use crate::order::{comes_before, is_stable_order, occurs, stable_order, stable_positions};

verus! {

// ----- views -----
/// Ghost view of a field's type.
pub enum FieldKindView {
    WellKnown(ScalarKind),
    Custom(QualifiedNameView),
}

/// Ghost view of a field.
pub struct FieldView {
    pub name: Seq<char>,
    pub kind: FieldKindView,
    pub number: i32,
    pub optional: bool,
    pub repeated: bool,
    pub leading_comments: Seq<char>,
    pub trailing_comments: Seq<char>,
}

/// Ghost view of a message node.
pub struct MessageView {
    pub name: Seq<char>,
    pub description: Seq<char>,
    pub fields: Seq<FieldView>,
    pub depth: nat,
}

/// Ghost view of an enum value.
pub struct EnumValueView {
    pub name: Seq<char>,
    pub number: i32,
    pub leading_comments: Seq<char>,
    pub trailing_comments: Seq<char>,
}

/// Ghost view of an enum node.
pub struct EnumView {
    pub name: Seq<char>,
    pub description: Seq<char>,
    pub values: Seq<EnumValueView>,
}

/// Ghost view of a type node.
pub enum TypesView {
    Message(MessageView),
    Enum(EnumView),
}

impl TypesView {
    pub open spec fn name(self) -> Seq<char> {
        match self {
            TypesView::Message(m) => m.name,
            TypesView::Enum(e) => e.name,
        }
    }
}

// ----- scalar keywords -----
/// The keyword a scalar kind has in `.proto` files; the message kind has
/// none, as a message field is shown by the name of its type.
pub open spec fn scalar_keyword(k: ScalarKind) -> Seq<char> {
    match k {
        ScalarKind::Double => "double"@,
        ScalarKind::Float => "float"@,
        ScalarKind::Int64 => "int64"@,
        ScalarKind::Uint64 => "uint64"@,
        ScalarKind::Int32 => "int32"@,
        ScalarKind::Fixed64 => "fixed64"@,
        ScalarKind::Fixed32 => "fixed32"@,
        ScalarKind::Bool => "bool"@,
        ScalarKind::String => "string"@,
        ScalarKind::Group => "group"@,
        ScalarKind::Message => ""@,
        ScalarKind::Bytes => "bytes"@,
        ScalarKind::Uint32 => "uint32"@,
        ScalarKind::Enum => "enum"@,
        ScalarKind::Sfixed32 => "sfixed32"@,
        ScalarKind::Sfixed64 => "sfixed64"@,
        ScalarKind::Sint32 => "sint32"@,
        ScalarKind::Sint64 => "sint64"@,
    }
}

/// Every scalar kind but the message kind has a non-empty keyword.
pub proof fn lemma_scalar_keyword_nonempty(k: ScalarKind)
    ensures
        k != ScalarKind::Message ==> scalar_keyword(k).len() > 0,
        k == ScalarKind::Message ==> scalar_keyword(k).len() == 0,
{
    reveal_strlit("double");
    reveal_strlit("float");
    reveal_strlit("int64");
    reveal_strlit("uint64");
    reveal_strlit("int32");
    reveal_strlit("fixed64");
    reveal_strlit("fixed32");
    reveal_strlit("bool");
    reveal_strlit("string");
    reveal_strlit("group");
    reveal_strlit("");
    reveal_strlit("bytes");
    reveal_strlit("uint32");
    reveal_strlit("enum");
    reveal_strlit("sfixed32");
    reveal_strlit("sfixed64");
    reveal_strlit("sint32");
    reveal_strlit("sint64");
}

/// Get proto type name as found in .proto files.
pub fn scalar_type_name(ty: ScalarKind) -> (r: &'static str)
    ensures
        r@ == scalar_keyword(ty),
{
    match ty {
        ScalarKind::Double => "double",
        ScalarKind::Float => "float",
        ScalarKind::Int64 => "int64",
        ScalarKind::Uint64 => "uint64",
        ScalarKind::Int32 => "int32",
        ScalarKind::Fixed64 => "fixed64",
        ScalarKind::Fixed32 => "fixed32",
        ScalarKind::Bool => "bool",
        ScalarKind::String => "string",
        ScalarKind::Group => "group",
        ScalarKind::Message => "",
        ScalarKind::Bytes => "bytes",
        ScalarKind::Uint32 => "uint32",
        ScalarKind::Enum => "enum",
        ScalarKind::Sfixed32 => "sfixed32",
        ScalarKind::Sfixed64 => "sfixed64",
        ScalarKind::Sint32 => "sint32",
        ScalarKind::Sint64 => "sint64",
    }
}

// ----- fields -----
/// Custom message type consisting of a fully qualified name.
pub struct CustomType {
    pub name: FullyQualifiedTypeName,
}

/// Field type which is either a well-known proto type or a custom message type.
pub enum FieldType {
    WellKnown(ScalarKind),
    Custom(CustomType),
}

impl View for FieldType {
    type V = FieldKindView;

    open spec fn view(&self) -> FieldKindView {
        match self {
            FieldType::WellKnown(k) => FieldKindView::WellKnown(*k),
            FieldType::Custom(c) => FieldKindView::Custom(c.name@),
        }
    }
}

/// The name a field type is shown by: the scalar keyword, or the local
/// name of the referenced type.
pub open spec fn display_name(k: FieldKindView) -> Seq<char> {
    match k {
        FieldKindView::WellKnown(s) => scalar_keyword(s),
        FieldKindView::Custom(q) => q.name,
    }
}

impl FieldType {
    pub fn name(&self) -> (r: &str)
        ensures
            r@ == display_name(self@),
    {
        match self {
            FieldType::WellKnown(ty) => scalar_type_name(*ty),
            FieldType::Custom(ty) => ty.name.name.as_str(),
        }
    }
}

/// A field with no explicit type reference is shown by the keyword of its
/// scalar kind, which is empty only for the message kind.
pub proof fn lemma_untyped_field_name(d: FieldDescriptor, locs: Seq<Location>, path: Seq<i32>)
    requires
        d.type_ref is None,
    ensures
        display_name(field_view(d, locs, path).kind) == scalar_keyword(d.kind),
        d.kind != ScalarKind::Message ==> display_name(field_view(d, locs, path).kind).len() > 0,
{
    lemma_scalar_keyword_nonempty(d.kind);
}

/// The field's type reference, when it has one, can be split.
pub open spec fn type_ref_ok(d: FieldDescriptor) -> bool {
    d.type_ref matches Some(t) ==> qualified_view(t@) is Some
}

/// `e` reports the type reference of field `d` as malformed.
pub open spec fn malformed_reference_of(d: FieldDescriptor, e: DocError) -> bool {
    e matches DocError::MalformedTypeReference(t) && d.type_ref matches Some(n) && t@ == n@
}

/// A field is custom exactly when it carries an explicit type reference.
/// (A reference that cannot be split is refused before this is asked.)
pub open spec fn field_kind(d: FieldDescriptor) -> FieldKindView {
    match d.type_ref {
        Some(t) => match qualified_view(t@) {
            Some(q) => FieldKindView::Custom(q),
            None => FieldKindView::WellKnown(d.kind),
        },
        None => FieldKindView::WellKnown(d.kind),
    }
}

/// The field built from descriptor `d` whose comments sit at `path`.
pub open spec fn field_view(d: FieldDescriptor, locs: Seq<Location>, path: Seq<i32>) -> FieldView {
    FieldView {
        name: d.name@,
        kind: field_kind(d),
        number: d.number,
        optional: d.proto3_optional,
        repeated: d.label == Some(LABEL_REPEATED),
        leading_comments: leading_of(locs, path),
        trailing_comments: trailing_of(locs, path),
    }
}

/// Field type found in messages.
pub struct Field {
    pub name: String,
    pub ty: FieldType,
    pub number: i32,
    pub optional: bool,
    pub repeated: bool,
    pub leading_comments: String,
    pub trailing_comments: String,
}

impl View for Field {
    type V = FieldView;

    open spec fn view(&self) -> FieldView {
        FieldView {
            name: self.name@,
            kind: self.ty@,
            number: self.number,
            optional: self.optional,
            repeated: self.repeated,
            leading_comments: self.leading_comments@,
            trailing_comments: self.trailing_comments@,
        }
    }
}

impl FieldType {
    /// Classifies a field: custom when it names a type, well-known otherwise.
    pub fn from(field: &FieldDescriptor) -> (r: Result<FieldType, DocError>)
        ensures
            r is Ok <==> type_ref_ok(*field),
            r matches Ok(t) ==> t@ == field_kind(*field),
            r matches Err(e) ==> malformed_reference_of(*field, e),
    {
        match &field.type_ref {
            Some(t) => match FullyQualifiedTypeName::parse(t.as_str()) {
                Ok(name) => Ok(FieldType::Custom(CustomType { name })),
                Err(e) => Err(e),
            },
            None => Ok(FieldType::WellKnown(field.kind)),
        }
    }
}

impl Field {
    /// Construct field.
    pub fn from(field: &FieldDescriptor, info: &SourceInfo, path: &Vec<i32>) -> (r: Result<
        Field,
        DocError,
    >)
        ensures
            r is Ok <==> type_ref_ok(*field),
            r matches Ok(f) ==> f@ == field_view(*field, info.location@, path@),
            r matches Err(e) ==> malformed_reference_of(*field, e),
    {
        let ty = match FieldType::from(field) {
            Ok(ty) => ty,
            Err(e) => return Err(e),
        };
        let (leading_comments, trailing_comments) = match position_of_path(&info.location, path) {
            Some(i) => (
                info.location[i].leading_comments.clone(),
                info.location[i].trailing_comments.clone(),
            ),
            None => (String::new(), String::new()),
        };
        let repeated = match field.label {
            Some(l) => l == LABEL_REPEATED,
            None => false,
        };
        Ok(Field {
            name: field.name.clone(),
            ty,
            number: field.number,
            optional: field.proto3_optional,
            repeated,
            leading_comments,
            trailing_comments,
        })
    }
}


// ----- structural paths -----
/// A path of two steps.
pub fn path_of(a: i32, b: i32) -> (r: Vec<i32>)
    ensures
        r@ == seq![a, b],
{
    let mut r: Vec<i32> = Vec::new();
    r.push(a);
    r.push(b);
    assert(r@ =~= seq![a, b]);
    r
}

/// `path` followed by two more steps.
pub fn extend_path(path: &Vec<i32>, a: i32, b: i32) -> (r: Vec<i32>)
    ensures
        r@ == path@.push(a).push(b),
{
    let mut r: Vec<i32> = Vec::new();
    let mut i: usize = 0;
    while i < path.len()
        invariant
            i <= path.len(),
            r@ == path@.subrange(0, i as int),
        decreases path.len() - i,
    {
        r.push(path[i]);
        i = i + 1;
        assert(r@ =~= path@.subrange(0, i as int));
    }
    assert(path@.subrange(0, path.len() as int) =~= path@);
    r.push(a);
    r.push(b);
    r
}

// ----- enums -----
/// Names what `str::trim_end` returns for a text.
pub uninterp spec fn trim_end_of(s: Seq<char>) -> Seq<char>;

/// Relies on `str::trim_end`: the text with its trailing whitespace
/// removed, which is a prefix of it.
#[verifier::external_body]
fn trim_end(s: &str) -> (r: String)
    ensures
        r@ == trim_end_of(s@),
        r@.len() <= s@.len(),
        r@ == s@.subrange(0, r@.len() as int),
{
    s.trim_end().to_string()
}

/// The keys of enum values: their numbers.
pub open spec fn value_numbers(vs: Seq<EnumValueDescriptor>) -> Seq<i32> {
    vs.map_values(|v: EnumValueDescriptor| v.number)
}

/// The keys of fields: their numbers.
pub open spec fn field_numbers(fs: Seq<FieldDescriptor>) -> Seq<i32> {
    fs.map_values(|f: FieldDescriptor| f.number)
}

/// The enum value built from `d` whose comments sit at `path`; its trailing
/// comment loses trailing whitespace.
pub open spec fn enum_value_view(d: EnumValueDescriptor, locs: Seq<Location>, path: Seq<i32>) -> EnumValueView {
    EnumValueView {
        name: d.name@,
        number: d.number,
        leading_comments: leading_of(locs, path),
        trailing_comments: trim_end_of(trailing_of(locs, path)),
    }
}

/// The enum node built from the enum `e` declared at `path`: values in
/// stable ascending order of their numbers, each with the comments of its
/// declaration position.
pub open spec fn enum_view(e: EnumDescriptor, path: Seq<i32>, locs: Seq<Location>) -> EnumView {
    let order = stable_order(value_numbers(e.values@));
    EnumView {
        name: e.name@,
        description: leading_of(locs, path),
        values: Seq::new(
            e.values@.len(),
            |k: int| enum_value_view(e.values@[order[k]], locs, path.push(2).push(#[verifier::truncate] (order[k] as i32))),
        ),
    }
}

/// Enum value types.
pub struct EnumValue {
    pub name: String,
    pub number: i32,
    pub leading_comments: String,
    pub trailing_comments: String,
}

impl View for EnumValue {
    type V = EnumValueView;

    open spec fn view(&self) -> EnumValueView {
        EnumValueView {
            name: self.name@,
            number: self.number,
            leading_comments: self.leading_comments@,
            trailing_comments: self.trailing_comments@,
        }
    }
}

/// Enum types.
pub struct EnumType {
    pub name: String,
    pub description: String,
    pub values: Vec<EnumValue>,
}

impl View for EnumType {
    type V = EnumView;

    open spec fn view(&self) -> EnumView {
        EnumView {
            name: self.name@,
            description: self.description@,
            values: self.values@.map_values(|v: EnumValue| v@),
        }
    }
}

impl EnumValue {
    /// Construct enum value.
    pub fn from(value: &EnumValueDescriptor, info: &SourceInfo, path: &Vec<i32>) -> (r: EnumValue)
        ensures
            r@ == enum_value_view(*value, info.location@, path@),
    {
        let (leading_comments, trailing_comments) = match position_of_path(&info.location, path) {
            Some(i) => (
                info.location[i].leading_comments.clone(),
                trim_end(info.location[i].trailing_comments.as_str()),
            ),
            None => {
                let none = String::new();
                (String::new(), trim_end(none.as_str()))
            },
        };
        EnumValue { name: value.name.clone(), number: value.number, leading_comments, trailing_comments }
    }
}

impl EnumType {
    /// Construct the enum type declared at `path`.
    pub fn from(enum_type: &EnumDescriptor, path: &Vec<i32>, info: &SourceInfo) -> (r: EnumType)
        ensures
            r@ == enum_view(*enum_type, path@, info.location@),
            forall|a: int, b: int|
                0 <= a < b < r@.values.len() ==> (#[trigger] r@.values[a]).number <= (#[trigger] r@.values[b]).number,
            is_stable_order(
                value_numbers(enum_type.values@),
                enum_type.values@.len() as int,
                stable_order(value_numbers(enum_type.values@)),
            ),
    {
        let description = get_description(info, path);
        let mut keys: Vec<i32> = Vec::new();
        let mut i: usize = 0;
        while i < enum_type.values.len()
            invariant
                i <= enum_type.values.len(),
                keys@ =~= value_numbers(enum_type.values@.subrange(0, i as int)),
            decreases enum_type.values.len() - i,
        {
            keys.push(enum_type.values[i].number);
            i = i + 1;
        }
        assert(enum_type.values@.subrange(0, i as int) =~= enum_type.values@);
        let order = stable_positions(&keys);
        let ghost spec_order = stable_order(value_numbers(enum_type.values@));
        let mut values: Vec<EnumValue> = Vec::new();
        let mut k: usize = 0;
        while k < order.len()
            invariant
                k <= order.len(),
                order@.len() == enum_type.values@.len(),
                order@.map_values(|i: usize| i as int) == spec_order,
                spec_order == stable_order(value_numbers(enum_type.values@)),
                is_stable_order(value_numbers(enum_type.values@), enum_type.values@.len() as int, spec_order),
                values@.len() == k,
                forall|j: int| 0 <= j < k ==> (#[trigger] values@[j])@ == enum_value_view(
                    enum_type.values@[spec_order[j]],
                    info.location@,
                    path@.push(2).push(#[verifier::truncate] (spec_order[j] as i32)),
                ),
            decreases order.len() - k,
        {
            let at = order[k];
            assert(spec_order[k as int] == at as int);
            let value_path = extend_path(path, 2, as_i32(at));
            values.push(EnumValue::from(&enum_type.values[at], info, &value_path));
            k = k + 1;
        }
        let r = EnumType { name: enum_type.name.clone(), description, values };
        assert(r@.values =~= enum_view(*enum_type, path@, info.location@).values);
        assert forall|a: int, b: int| 0 <= a < b < r@.values.len() implies (#[trigger] r@.values[a]).number
            <= (#[trigger] r@.values[b]).number by {
            assert(comes_before(value_numbers(enum_type.values@), spec_order[a], spec_order[b]));
        }
        r
    }
}


// ----- messages -----
/// Every type reference among the fields can be split.
pub open spec fn fields_ok(fs: Seq<FieldDescriptor>) -> bool {
    forall|j: int| 0 <= j < fs.len() ==> type_ref_ok(#[trigger] fs[j])
}

/// The message node built from `m` declared at `path`, `depth` levels
/// below the top: fields in stable ascending order of their numbers, each
/// with the comments of its declaration position.
pub open spec fn message_view(m: MessageDescriptor, path: Seq<i32>, depth: nat, locs: Seq<Location>) -> MessageView {
    let order = stable_order(field_numbers(m.fields@));
    MessageView {
        name: m.name@,
        description: leading_of(locs, path),
        fields: Seq::new(
            m.fields@.len(),
            |k: int| field_view(m.fields@[order[k]], locs, path.push(2).push(#[verifier::truncate] (order[k] as i32))),
        ),
        depth,
    }
}

/// Message types referenced as inputs and outputs in methods.
pub struct MessageType {
    pub name: String,
    pub description: String,
    pub fields: Vec<Field>,
    /// Nesting level: 0 for a message declared at the top of its file.
    pub depth: usize,
}

impl View for MessageType {
    type V = MessageView;

    open spec fn view(&self) -> MessageView {
        MessageView {
            name: self.name@,
            description: self.description@,
            fields: self.fields@.map_values(|f: Field| f@),
            depth: self.depth as nat,
        }
    }
}

impl MessageType {
    /// Construct the node of message `message_type` declared at `path`.
    pub fn from(message_type: &MessageDescriptor, path: &Vec<i32>, info: &SourceInfo, depth: usize) -> (r: Result<MessageType, DocError>)
        ensures
            r is Ok <==> fields_ok(message_type.fields@),
            r matches Ok(t) ==> t@ == message_view(*message_type, path@, depth as nat, info.location@),
            r matches Ok(t) ==> forall|a: int, b: int|
                0 <= a < b < t@.fields.len() ==> (#[trigger] t@.fields[a]).number <= (#[trigger] t@.fields[b]).number,
            r matches Err(e) ==> exists|j: int|
                0 <= j < message_type.fields@.len() && malformed_reference_of(#[trigger] message_type.fields@[j], e),
            is_stable_order(
                field_numbers(message_type.fields@),
                message_type.fields@.len() as int,
                stable_order(field_numbers(message_type.fields@)),
            ),
    {
        let description = get_description(info, path);
        let ghost fs = message_type.fields@;
        let mut keys: Vec<i32> = Vec::new();
        let mut i: usize = 0;
        while i < message_type.fields.len()
            invariant
                i <= fs.len(),
                fs == message_type.fields@,
                keys@ =~= field_numbers(fs.subrange(0, i as int)),
            decreases fs.len() - i,
        {
            keys.push(message_type.fields[i].number);
            i = i + 1;
        }
        assert(fs.subrange(0, i as int) =~= fs);
        let order = stable_positions(&keys);
        let ghost spec_order = stable_order(field_numbers(fs));
        let mut fields: Vec<Field> = Vec::new();
        let mut k: usize = 0;
        while k < order.len()
            invariant
                k <= order.len(),
                fs == message_type.fields@,
                order@.len() == fs.len(),
                order@.map_values(|i: usize| i as int) == spec_order,
                spec_order == stable_order(field_numbers(fs)),
                is_stable_order(field_numbers(fs), fs.len() as int, spec_order),
                fields@.len() == k,
                forall|j: int| 0 <= j < k ==> type_ref_ok(#[trigger] fs[spec_order[j]]),
                forall|j: int| 0 <= j < k ==> (#[trigger] fields@[j])@ == field_view(
                    fs[spec_order[j]],
                    info.location@,
                    path@.push(2).push(#[verifier::truncate] (spec_order[j] as i32)),
                ),
            decreases order.len() - k,
        {
            let at = order[k];
            assert(spec_order[k as int] == at as int);
            let field_path = extend_path(path, 2, as_i32(at));
            match Field::from(&message_type.fields[at], info, &field_path) {
                Ok(f) => fields.push(f),
                Err(e) => {
                    assert(!fields_ok(fs));
                    assert(malformed_reference_of(fs[at as int], e));
                    return Err(e);
                },
            }
            k = k + 1;
        }
        assert forall|j: int| 0 <= j < fs.len() implies type_ref_ok(#[trigger] fs[j]) by {
            assert(occurs(spec_order, j));
            let w = choose|w: int| 0 <= w < spec_order.len() && spec_order[w] == j;
            assert(type_ref_ok(fs[spec_order[w]]));
        }
        let r = MessageType { name: message_type.name.clone(), description, fields, depth };
        assert(r@.fields =~= message_view(*message_type, path@, depth as nat, info.location@).fields);
        assert forall|a: int, b: int| 0 <= a < b < r@.fields.len() implies (#[trigger] r@.fields[a]).number
            <= (#[trigger] r@.fields[b]).number by {
            assert(comes_before(field_numbers(fs), spec_order[a], spec_order[b]));
        }
        Ok(r)
    }
}


// ----- flattening nested messages -----
/// Every type reference in `m` and in the messages nested in it can be split.
pub open spec fn message_ok(m: MessageDescriptor) -> bool
    decreases m, m.nested@.len() + 1,
{
    fields_ok(m.fields@) && nested_ok(m, m.nested@.len())
}

/// The first `k` messages nested in `m` are well formed.
pub open spec fn nested_ok(m: MessageDescriptor, k: nat) -> bool
    decreases m, k,
{
    if k == 0 || k > m.nested@.len() {
        true
    } else {
        nested_ok(m, (k - 1) as nat) && message_ok(m.nested@[k - 1])
    }
}

/// The enums declared inside message `m`, which sits at `path`; the `k`-th
/// sits at `path ++ [4, k]`.
pub open spec fn inner_enum_nodes(m: MessageDescriptor, path: Seq<i32>, locs: Seq<Location>) -> Seq<TypesView> {
    Seq::new(
        m.enums@.len(),
        |k: int| TypesView::Enum(enum_view(m.enums@[k], path.push(4).push(#[verifier::truncate] (k as i32)), locs)),
    )
}

/// The nodes of `m` and of all messages nested in it, in pre-order: each
/// message precedes the messages declared inside it, which sit at
/// `path ++ [3, k]` one level deeper, and then the enums declared inside it.
pub open spec fn message_nodes(m: MessageDescriptor, path: Seq<i32>, depth: nat, locs: Seq<Location>) -> Seq<TypesView>
    decreases m, m.nested@.len() + 1,
{
    seq![TypesView::Message(message_view(m, path, depth, locs))] + nested_nodes(m, m.nested@.len(), path, depth, locs)
        + inner_enum_nodes(m, path, locs)
}

/// The nodes of the first `k` messages nested in `m`, with their own
/// nested messages.
pub open spec fn nested_nodes(m: MessageDescriptor, k: nat, path: Seq<i32>, depth: nat, locs: Seq<Location>) -> Seq<TypesView>
    decreases m, k,
{
    if k == 0 || k > m.nested@.len() {
        Seq::empty()
    } else {
        nested_nodes(m, (k - 1) as nat, path, depth, locs) + message_nodes(
            m.nested@[k - 1],
            path.push(3).push(#[verifier::truncate] ((k - 1) as i32)),
            depth + 1,
            locs,
        )
    }
}

/// Wrap message and enum types for generic rendering.
pub enum Types {
    Message(MessageType),
    Enum(EnumType),
}

impl View for Types {
    type V = TypesView;

    open spec fn view(&self) -> TypesView {
        match self {
            Types::Message(m) => TypesView::Message(m@),
            Types::Enum(e) => TypesView::Enum(e@),
        }
    }
}

/// The views of a sequence of nodes.
pub open spec fn types_view(ts: Seq<Types>) -> Seq<TypesView> {
    ts.map_values(|t: Types| t@)
}

impl Types {
    /// Return `true` if `name` matches.
    pub fn has_name(&self, name: &str) -> (r: bool)
        ensures
            r == (self@.name() == name@),
    {
        let own = match self {
            Types::Message(ty) => ty.name.as_str(),
            Types::Enum(ty) => ty.name.as_str(),
        };
        str_equal(own, name)
    }
}

/// Compares two texts character by character.
pub fn str_equal(a: &str, b: &str) -> (r: bool)
    ensures
        r == (a@ == b@),
{
    let n = a.unicode_len();
    if n != b.unicode_len() {
        return false;
    }
    let mut i: usize = 0;
    while i < n
        invariant
            n == a@.len(),
            n == b@.len(),
            i <= n,
            forall|k: int| 0 <= k < i ==> a@[k] == b@[k],
        decreases n - i,
    {
        if a.get_char(i) != b.get_char(i) {
            return false;
        }
        i = i + 1;
    }
    assert(a@ =~= b@);
    true
}

/// Appends to `out` the node of `m` and the nodes of every message nested
/// in it, in pre-order.
pub(crate) fn flatten_message(
    m: &MessageDescriptor,
    path: &Vec<i32>,
    depth: usize,
    info: &SourceInfo,
    out: &mut Vec<Types>,
) -> (r: Result<(), DocError>)
    requires
        path@.len() == 2 * depth + 2,
    ensures
        r is Ok <==> message_ok(*m),
        r is Ok ==> types_view(final(out)@) == types_view(old(out)@) + message_nodes(
            *m,
            path@,
            depth as nat,
            info.location@,
        ),
        r matches Err(e) ==> e is MalformedTypeReference,
    decreases m,
{
    let node = match MessageType::from(m, path, info, depth) {
        Ok(node) => node,
        Err(e) => return Err(e),
    };
    out.push(Types::Message(node));
    let ghost start = types_view(old(out)@) + seq![TypesView::Message(message_view(*m, path@, depth as nat, info.location@))];
    assert(types_view(out@) =~= start);
    let mut k: usize = 0;
    while k < m.nested.len()
        invariant
            k <= m.nested@.len(),
            path@.len() == 2 * depth + 2,
            fields_ok(m.fields@),
            nested_ok(*m, k as nat),
            types_view(out@) == start + nested_nodes(*m, k as nat, path@, depth as nat, info.location@),
        decreases m.nested@.len() - k,
    {
        let child_path = extend_path(path, 3, as_i32(k));
        let child_len = child_path.len();
        assert(child_len == 2 * depth + 4);
        assert(decreases_to!(*m => m.nested@[k as int]));
        match flatten_message(&m.nested[k], &child_path, depth + 1, info, out) {
            Ok(()) => {},
            Err(e) => {
                assert(!nested_ok(*m, (k + 1) as nat));
                proof {
                    if message_ok(*m) {
                        lemma_nested_ok_prefix(*m, (k + 1) as nat, m.nested@.len());
                    }
                }
                return Err(e);
            },
        }
        k = k + 1;
        assert(types_view(out@) =~= start + nested_nodes(*m, k as nat, path@, depth as nat, info.location@));
    }
    let ghost with_nested = types_view(out@);
    let mut k: usize = 0;
    while k < m.enums.len()
        invariant
            k <= m.enums@.len(),
            types_view(out@) == with_nested + inner_enum_nodes(*m, path@, info.location@).subrange(0, k as int),
        decreases m.enums@.len() - k,
    {
        let enum_path = extend_path(path, 4, as_i32(k));
        let node = EnumType::from(&m.enums[k], &enum_path, info);
        let ghost before = types_view(out@);
        let ghost nv = TypesView::Enum(node@);
        out.push(Types::Enum(node));
        assert(types_view(out@) =~= before.push(nv));
        k = k + 1;
        assert(types_view(out@) =~= with_nested + inner_enum_nodes(*m, path@, info.location@).subrange(0, k as int));
    }
    assert(inner_enum_nodes(*m, path@, info.location@).subrange(0, k as int) =~= inner_enum_nodes(*m, path@, info.location@));
    assert(types_view(out@) =~= types_view(old(out)@) + message_nodes(*m, path@, depth as nat, info.location@));
    Ok(())
}

/// Well-formedness of a longer prefix of nested messages covers a shorter one.
proof fn lemma_nested_ok_prefix(m: MessageDescriptor, k: nat, n: nat)
    requires
        k <= n <= m.nested@.len(),
        nested_ok(m, n),
    ensures
        nested_ok(m, k),
    decreases n - k,
{
    if k < n {
        lemma_nested_ok_prefix(m, k, (n - 1) as nat);
    }
}

} // verus!

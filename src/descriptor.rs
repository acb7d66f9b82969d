//! The descriptor set handed to the generator, as plain values.
use vstd::prelude::*;
use crate::comments::SourceInfo;

verus! {

/// Label value that marks a repeated field.
pub const LABEL_REPEATED: i32 = 3;

/// The scalar kind a field has when it names no type of its own.
#[derive(Debug, Clone, Copy, PartialEq, Eq, Structural)]
pub enum ScalarKind {
    Double,
    Float,
    Int64,
    Uint64,
    Int32,
    Fixed64,
    Fixed32,
    Bool,
    String,
    Group,
    Message,
    Bytes,
    Uint32,
    Enum,
    Sfixed32,
    Sfixed64,
    Sint32,
    Sint64,
}

/// A field of a message.
pub struct FieldDescriptor {
    pub name: String,
    pub number: i32,
    /// Raw label value; `LABEL_REPEATED` marks a repeated field.
    pub label: Option<i32>,
    pub kind: ScalarKind,
    /// Explicit reference to a message or enum type, when there is one.
    pub type_ref: Option<String>,
    pub proto3_optional: bool,
}

/// A message with its fields and the messages and enums declared inside it.
pub struct MessageDescriptor {
    pub name: String,
    pub fields: Vec<FieldDescriptor>,
    pub nested: Vec<MessageDescriptor>,
    pub enums: Vec<EnumDescriptor>,
}

/// A value of an enum.
pub struct EnumValueDescriptor {
    pub name: String,
    pub number: i32,
}

/// An enum with its values in declaration order.
pub struct EnumDescriptor {
    pub name: String,
    pub values: Vec<EnumValueDescriptor>,
}

/// An RPC method.
pub struct MethodDescriptor {
    pub name: String,
    pub input_type: String,
    pub output_type: String,
    pub client_streaming: bool,
    pub server_streaming: bool,
    /// The `deprecated` option, when it is set.
    pub deprecated: Option<bool>,
}

/// A service with its methods in declaration order.
pub struct ServiceDescriptor {
    pub name: String,
    pub methods: Vec<MethodDescriptor>,
    /// The `deprecated` option, when it is set.
    pub deprecated: Option<bool>,
}

/// One compiled proto file.
pub struct FileDescriptor {
    pub name: String,
    pub package: String,
    pub messages: Vec<MessageDescriptor>,
    pub enums: Vec<EnumDescriptor>,
    pub services: Vec<ServiceDescriptor>,
    /// The comment table, when the compiler emitted one.
    pub source_info: Option<SourceInfo>,
}

/// What the compiler asks the generator for.
pub struct GeneratorRequest {
    pub files: Vec<FileDescriptor>,
    pub files_to_generate: Vec<String>,
    pub parameter: Option<String>,
}

impl Default for GeneratorRequest {
    fn default() -> (r: GeneratorRequest)
        ensures
            r.files@.len() == 0,
            r.files_to_generate@.len() == 0,
            r.parameter is None,
    {
        GeneratorRequest { files: Vec::new(), files_to_generate: Vec::new(), parameter: None }
    }
}

} // verus!

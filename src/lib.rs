//! Reflection over schema-described messages: a uniform value type, a pool
//! of message and enum descriptors, dynamic message storage, and field
//! accessors that read, test, set and iterate fields by position.
pub mod value;
pub mod descriptor;
pub mod accessor;
pub mod laws;
pub mod render;

pub use accessor::{MapMut, MapView, RepeatedMut, RepeatedView};
pub use descriptor::{
    new_instance, runtime_type_of, value_for_type, Cardinality, EnumDescriptor, EnumValueDescriptor,
    FieldDescriptor, FieldType, FileDescriptor, MessageDescriptor,
};
pub use value::{values_eq, DynamicMessage, FieldStorage, ReflectValueBox, RuntimeType};

//! What the collector has to know of an object and of its class in order to scan it.

use crate::address::Address;
use vstd::prelude::*;

verus! {

/// The kinds of class that the virtual machine tells apart.
#[derive(Clone, Copy, Debug, PartialEq, Eq, Structural)]
pub enum KlassKind {
    Instance,
    InstanceRef,
    InstanceMirror,
    InstanceClassLoader,
    InstanceStackChunk,
    TypeArray,
    ObjArray,
    Unknown,
}

/// How strongly a `java.lang.ref.Reference` holds what it refers to; `NoReference` for a class
/// whose instances are no such references.
#[derive(Clone, Copy, Debug, PartialEq, Eq, Structural)]
pub enum ReferenceType {
    NoReference,
    Soft,
    Weak,
    Final,
    Phantom,
}

/// A run of `count` reference fields that begins `offset` bytes from the start of the object.
#[derive(Clone, Copy, Debug, PartialEq, Eq, Structural)]
pub struct OopMapBlock {
    pub offset: i32,
    pub count: u32,
}

/// A class whose instances hold their references in the fields that the oop maps list.
#[derive(Debug, PartialEq, Eq)]
pub struct InstanceKlass {
    pub nonstatic_oop_maps: Vec<OopMapBlock>,
    pub reference_type: ReferenceType,
}

/// The class of the mirrors of classes. A mirror also holds the static fields of the class that
/// it stands for: `static_oop_field_count` references from `static_fields` on.
#[derive(Debug, PartialEq, Eq)]
pub struct InstanceMirrorKlass {
    pub instance_klass: InstanceKlass,
    pub static_fields: Address,
    pub static_oop_field_count: usize,
}

/// The class of a class loader.
#[derive(Debug, PartialEq, Eq)]
pub struct InstanceClassLoaderKlass {
    pub instance_klass: InstanceKlass,
}

/// The class of an array of `length` references from `base` on.
#[derive(Clone, Copy, Debug, PartialEq, Eq, Structural)]
pub struct ObjArrayKlass {
    pub base: Address,
    pub length: usize,
}

/// The class of an array of primitive values.
#[derive(Clone, Copy, Debug, PartialEq, Eq, Structural)]
pub struct TypeArrayKlass;

/// The class of a `java.lang.ref.Reference`, with the addresses of the two fields of the object
/// that its oop maps leave out.
#[derive(Debug, PartialEq, Eq)]
pub struct InstanceRefKlass {
    pub instance_klass: InstanceKlass,
    pub referent_address: Address,
    pub discovered_address: Address,
}

/// The class of an object, with what lies at addresses of that object.
#[derive(Debug, PartialEq, Eq)]
pub enum Klass {
    Instance(InstanceKlass),
    InstanceRef(InstanceRefKlass),
    InstanceMirror(InstanceMirrorKlass),
    InstanceClassLoader(InstanceClassLoaderKlass),
    InstanceStackChunk,
    TypeArray(TypeArrayKlass),
    ObjArray(ObjArrayKlass),
    Unknown,
}

/// An object: where it starts, and its class.
#[derive(Debug, PartialEq, Eq)]
pub struct Oop {
    pub start: Address,
    pub klass: Klass,
}

impl Klass {
    /// The kind of the class.
    pub open spec fn spec_kind(&self) -> KlassKind {
        match self {
            Klass::Instance(_) => KlassKind::Instance,
            Klass::InstanceRef(_) => KlassKind::InstanceRef,
            Klass::InstanceMirror(_) => KlassKind::InstanceMirror,
            Klass::InstanceClassLoader(_) => KlassKind::InstanceClassLoader,
            Klass::InstanceStackChunk => KlassKind::InstanceStackChunk,
            Klass::TypeArray(_) => KlassKind::TypeArray,
            Klass::ObjArray(_) => KlassKind::ObjArray,
            Klass::Unknown => KlassKind::Unknown,
        }
    }

    /// The kind of the class.
    pub fn kind(&self) -> (kind: KlassKind)
        ensures
            kind == self.spec_kind(),
    {
        match self {
            Klass::Instance(_) => KlassKind::Instance,
            Klass::InstanceRef(_) => KlassKind::InstanceRef,
            Klass::InstanceMirror(_) => KlassKind::InstanceMirror,
            Klass::InstanceClassLoader(_) => KlassKind::InstanceClassLoader,
            Klass::InstanceStackChunk => KlassKind::InstanceStackChunk,
            Klass::TypeArray(_) => KlassKind::TypeArray,
            Klass::ObjArray(_) => KlassKind::ObjArray,
            Klass::Unknown => KlassKind::Unknown,
        }
    }
}

/// A class is of the kind after which it is called.
pub proof fn law_classes_have_their_kinds(klass: Klass)
    ensures
        klass.spec_kind() == KlassKind::Instance <==> klass is Instance,
        klass.spec_kind() == KlassKind::InstanceRef <==> klass is InstanceRef,
        klass.spec_kind() == KlassKind::InstanceMirror <==> klass is InstanceMirror,
        klass.spec_kind() == KlassKind::InstanceClassLoader <==> klass is InstanceClassLoader,
        klass.spec_kind() == KlassKind::InstanceStackChunk <==> klass is InstanceStackChunk,
        klass.spec_kind() == KlassKind::TypeArray <==> klass is TypeArray,
        klass.spec_kind() == KlassKind::ObjArray <==> klass is ObjArray,
        klass.spec_kind() == KlassKind::Unknown <==> klass is Unknown,
{
}

impl KlassKind {
    /// The name of the kind.
    pub open spec fn spec_name(self) -> Seq<char> {
        match self {
            KlassKind::Instance => "Instance"@,
            KlassKind::InstanceRef => "InstanceRef"@,
            KlassKind::InstanceMirror => "InstanceMirror"@,
            KlassKind::InstanceClassLoader => "InstanceClassLoader"@,
            KlassKind::InstanceStackChunk => "InstanceStackChunk"@,
            KlassKind::TypeArray => "TypeArray"@,
            KlassKind::ObjArray => "ObjArray"@,
            KlassKind::Unknown => "Unknown"@,
        }
    }

    /// The name of the kind.
    pub fn name(self) -> (name: &'static str)
        ensures
            name@ == self.spec_name(),
    {
        match self {
            KlassKind::Instance => "Instance",
            KlassKind::InstanceRef => "InstanceRef",
            KlassKind::InstanceMirror => "InstanceMirror",
            KlassKind::InstanceClassLoader => "InstanceClassLoader",
            KlassKind::InstanceStackChunk => "InstanceStackChunk",
            KlassKind::TypeArray => "TypeArray",
            KlassKind::ObjArray => "ObjArray",
            KlassKind::Unknown => "Unknown",
        }
    }
}

/// Each kind goes by its own name.
pub proof fn law_kinds_have_their_names()
    ensures
        KlassKind::Instance.spec_name() == "Instance"@,
        KlassKind::InstanceRef.spec_name() == "InstanceRef"@,
        KlassKind::InstanceMirror.spec_name() == "InstanceMirror"@,
        KlassKind::InstanceClassLoader.spec_name() == "InstanceClassLoader"@,
        KlassKind::InstanceStackChunk.spec_name() == "InstanceStackChunk"@,
        KlassKind::TypeArray.spec_name() == "TypeArray"@,
        KlassKind::ObjArray.spec_name() == "ObjArray"@,
        KlassKind::Unknown.spec_name() == "Unknown"@,
{
}

/// Each strength goes by its own name.
pub proof fn law_strengths_have_their_names()
    ensures
        ReferenceType::NoReference.spec_name() == "None"@,
        ReferenceType::Soft.spec_name() == "Soft"@,
        ReferenceType::Weak.spec_name() == "Weak"@,
        ReferenceType::Final.spec_name() == "Final"@,
        ReferenceType::Phantom.spec_name() == "Phantom"@,
{
}

impl ReferenceType {
    /// The name of the strength.
    pub open spec fn spec_name(self) -> Seq<char> {
        match self {
            ReferenceType::NoReference => "None"@,
            ReferenceType::Soft => "Soft"@,
            ReferenceType::Weak => "Weak"@,
            ReferenceType::Final => "Final"@,
            ReferenceType::Phantom => "Phantom"@,
        }
    }

    /// The name of the strength.
    pub fn name(self) -> (name: &'static str)
        ensures
            name@ == self.spec_name(),
    {
        match self {
            ReferenceType::NoReference => "None",
            ReferenceType::Soft => "Soft",
            ReferenceType::Weak => "Weak",
            ReferenceType::Final => "Final",
            ReferenceType::Phantom => "Phantom",
        }
    }
}

} // verus!

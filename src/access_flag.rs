use vstd::prelude::*;

verus! {

/// One named access flag of a class, field or method.
#[derive(Debug, Clone, Copy, PartialEq, Eq, Structural)]
pub enum AccessFlag {
    Public,
    Private,
    Protected,
    Static,
    Final,
    Super,
    Synchronized,
    Volatile,
    Bridge,
    Transient,
    Varargs,
    Native,
    Interface,
    Abstract,
    Strict,
    Synthetic,
    Annotation,
    Enum,
}

pub const ACC_PUBLIC: u16 = 0x0001;
pub const ACC_PRIVATE: u16 = 0x0002;
pub const ACC_PROTECTED: u16 = 0x0004;
pub const ACC_STATIC: u16 = 0x0008;
pub const ACC_FINAL: u16 = 0x0010;
pub const ACC_SUPER: u16 = 0x0020;
pub const ACC_SYNCHRONIZED: u16 = 0x0020;
pub const ACC_VOLATILE: u16 = 0x0040;
pub const ACC_BRIDGE: u16 = 0x0040;
pub const ACC_TRANSIENT: u16 = 0x0080;
pub const ACC_VARARGS: u16 = 0x0080;
pub const ACC_NATIVE: u16 = 0x0100;
pub const ACC_INTERFACE: u16 = 0x0200;
pub const ACC_ABSTRACT: u16 = 0x0400;
pub const ACC_STRICT: u16 = 0x0800;
pub const ACC_SYNTHETIC: u16 = 0x1000;
pub const ACC_ANNOTATION: u16 = 0x2000;
pub const ACC_ENUM: u16 = 0x4000;

/// `s` followed by `f` where `c` holds.
pub open spec fn push_if(s: Seq<AccessFlag>, c: bool, f: AccessFlag) -> Seq<AccessFlag> {
    if c {
        s.push(f)
    } else {
        s
    }
}

/// Every bit of `mask` is set in `bits`.
pub open spec fn has_bits(bits: u16, mask: u16) -> bool {
    bits & mask == mask
}

/// The flags of a class with the bit set `b`, in table order.
pub open spec fn class_flags(b: u16) -> Seq<AccessFlag> {
    let s = push_if(Seq::empty(), has_bits(b, ACC_PUBLIC), AccessFlag::Public);
    let s = push_if(s, has_bits(b, ACC_FINAL), AccessFlag::Final);
    let s = push_if(s, has_bits(b, ACC_SUPER), AccessFlag::Super);
    let s = push_if(s, has_bits(b, ACC_INTERFACE), AccessFlag::Interface);
    let s = push_if(s, has_bits(b, ACC_ABSTRACT), AccessFlag::Abstract);
    let s = push_if(s, has_bits(b, ACC_SYNTHETIC), AccessFlag::Synthetic);
    let s = push_if(s, has_bits(b, ACC_ANNOTATION), AccessFlag::Annotation);
    push_if(s, has_bits(b, ACC_ENUM), AccessFlag::Enum)
}

/// The flags of a field with the bit set `b`, in table order.
pub open spec fn field_flags(b: u16) -> Seq<AccessFlag> {
    let s = push_if(Seq::empty(), has_bits(b, ACC_PUBLIC), AccessFlag::Public);
    let s = push_if(s, has_bits(b, ACC_PRIVATE), AccessFlag::Private);
    let s = push_if(s, has_bits(b, ACC_PROTECTED), AccessFlag::Protected);
    let s = push_if(s, has_bits(b, ACC_STATIC), AccessFlag::Static);
    let s = push_if(s, has_bits(b, ACC_FINAL), AccessFlag::Final);
    let s = push_if(s, has_bits(b, ACC_VOLATILE), AccessFlag::Volatile);
    let s = push_if(s, has_bits(b, ACC_TRANSIENT), AccessFlag::Transient);
    let s = push_if(s, has_bits(b, ACC_SYNTHETIC), AccessFlag::Synthetic);
    push_if(s, has_bits(b, ACC_ENUM), AccessFlag::Enum)
}

/// The flags of a method with the bit set `b`, in table order.
pub open spec fn method_flags(b: u16) -> Seq<AccessFlag> {
    let s = push_if(Seq::empty(), has_bits(b, ACC_PUBLIC), AccessFlag::Public);
    let s = push_if(s, has_bits(b, ACC_PRIVATE), AccessFlag::Private);
    let s = push_if(s, has_bits(b, ACC_PROTECTED), AccessFlag::Protected);
    let s = push_if(s, has_bits(b, ACC_STATIC), AccessFlag::Static);
    let s = push_if(s, has_bits(b, ACC_FINAL), AccessFlag::Final);
    let s = push_if(s, has_bits(b, ACC_SYNCHRONIZED), AccessFlag::Synchronized);
    let s = push_if(s, has_bits(b, ACC_BRIDGE), AccessFlag::Bridge);
    let s = push_if(s, has_bits(b, ACC_VARARGS), AccessFlag::Varargs);
    let s = push_if(s, has_bits(b, ACC_NATIVE), AccessFlag::Native);
    let s = push_if(s, has_bits(b, ACC_ABSTRACT), AccessFlag::Abstract);
    let s = push_if(s, has_bits(b, ACC_STRICT), AccessFlag::Strict);
    push_if(s, has_bits(b, ACC_SYNTHETIC), AccessFlag::Synthetic)
}

/// The name of each flag as the JVM specification writes it.
pub open spec fn flag_name(f: AccessFlag) -> Seq<char> {
    match f {
        AccessFlag::Public => "ACC_PUBLIC"@,
        AccessFlag::Private => "ACC_PRIVATE"@,
        AccessFlag::Protected => "ACC_PROTECTED"@,
        AccessFlag::Static => "ACC_STATIC"@,
        AccessFlag::Final => "ACC_FINAL"@,
        AccessFlag::Super => "ACC_SUPER"@,
        AccessFlag::Synchronized => "ACC_SYNCHRONIZED"@,
        AccessFlag::Volatile => "ACC_VOLATILE"@,
        AccessFlag::Bridge => "ACC_BRIDGE"@,
        AccessFlag::Transient => "ACC_TRANSIENT"@,
        AccessFlag::Varargs => "ACC_VARARGS"@,
        AccessFlag::Native => "ACC_NATIVE"@,
        AccessFlag::Interface => "ACC_INTERFACE"@,
        AccessFlag::Abstract => "ACC_ABSTRACT"@,
        AccessFlag::Strict => "ACC_STRICT"@,
        AccessFlag::Synthetic => "ACC_SYNTHETIC"@,
        AccessFlag::Annotation => "ACC_ANNOTATION"@,
        AccessFlag::Enum => "ACC_ENUM"@,
    }
}

impl AccessFlag {
    /// The flag's name, such as `ACC_PUBLIC`.
    pub fn name(&self) -> (r: &'static str)
        ensures
            r@ == flag_name(*self),
    {
        match self {
            AccessFlag::Public => "ACC_PUBLIC",
            AccessFlag::Private => "ACC_PRIVATE",
            AccessFlag::Protected => "ACC_PROTECTED",
            AccessFlag::Static => "ACC_STATIC",
            AccessFlag::Final => "ACC_FINAL",
            AccessFlag::Super => "ACC_SUPER",
            AccessFlag::Synchronized => "ACC_SYNCHRONIZED",
            AccessFlag::Volatile => "ACC_VOLATILE",
            AccessFlag::Bridge => "ACC_BRIDGE",
            AccessFlag::Transient => "ACC_TRANSIENT",
            AccessFlag::Varargs => "ACC_VARARGS",
            AccessFlag::Native => "ACC_NATIVE",
            AccessFlag::Interface => "ACC_INTERFACE",
            AccessFlag::Abstract => "ACC_ABSTRACT",
            AccessFlag::Strict => "ACC_STRICT",
            AccessFlag::Synthetic => "ACC_SYNTHETIC",
            AccessFlag::Annotation => "ACC_ANNOTATION",
            AccessFlag::Enum => "ACC_ENUM",
        }
    }
}

/// A bit set of access flags with the named flags it holds.
#[derive(Debug)]
pub struct AccessFlags(pub Vec<AccessFlag>, pub u16);

fn push_if_set(v: &mut Vec<AccessFlag>, bits: u16, mask: u16, f: AccessFlag)
    ensures
        final(v)@ == push_if(old(v)@, has_bits(bits, mask), f),
{
    if bits & mask == mask {
        v.push(f);
    }
}

impl AccessFlags {
    /// The flags of a class.
    pub fn new_class_flag(flag: u16) -> (r: Self)
        ensures
            r.0@ == class_flags(flag),
            r.1 == flag,
    {
        let mut v: Vec<AccessFlag> = Vec::new();
        push_if_set(&mut v, flag, ACC_PUBLIC, AccessFlag::Public);
        push_if_set(&mut v, flag, ACC_FINAL, AccessFlag::Final);
        push_if_set(&mut v, flag, ACC_SUPER, AccessFlag::Super);
        push_if_set(&mut v, flag, ACC_INTERFACE, AccessFlag::Interface);
        push_if_set(&mut v, flag, ACC_ABSTRACT, AccessFlag::Abstract);
        push_if_set(&mut v, flag, ACC_SYNTHETIC, AccessFlag::Synthetic);
        push_if_set(&mut v, flag, ACC_ANNOTATION, AccessFlag::Annotation);
        push_if_set(&mut v, flag, ACC_ENUM, AccessFlag::Enum);
        AccessFlags(v, flag)
    }

    /// The flags of a field.
    pub fn new_field_flag(flag: u16) -> (r: Self)
        ensures
            r.0@ == field_flags(flag),
            r.1 == flag,
    {
        let mut v: Vec<AccessFlag> = Vec::new();
        push_if_set(&mut v, flag, ACC_PUBLIC, AccessFlag::Public);
        push_if_set(&mut v, flag, ACC_PRIVATE, AccessFlag::Private);
        push_if_set(&mut v, flag, ACC_PROTECTED, AccessFlag::Protected);
        push_if_set(&mut v, flag, ACC_STATIC, AccessFlag::Static);
        push_if_set(&mut v, flag, ACC_FINAL, AccessFlag::Final);
        push_if_set(&mut v, flag, ACC_VOLATILE, AccessFlag::Volatile);
        push_if_set(&mut v, flag, ACC_TRANSIENT, AccessFlag::Transient);
        push_if_set(&mut v, flag, ACC_SYNTHETIC, AccessFlag::Synthetic);
        push_if_set(&mut v, flag, ACC_ENUM, AccessFlag::Enum);
        AccessFlags(v, flag)
    }

    /// The flags of a method.
    pub fn new_method_flag(flag: u16) -> (r: Self)
        ensures
            r.0@ == method_flags(flag),
            r.1 == flag,
    {
        let mut v: Vec<AccessFlag> = Vec::new();
        push_if_set(&mut v, flag, ACC_PUBLIC, AccessFlag::Public);
        push_if_set(&mut v, flag, ACC_PRIVATE, AccessFlag::Private);
        push_if_set(&mut v, flag, ACC_PROTECTED, AccessFlag::Protected);
        push_if_set(&mut v, flag, ACC_STATIC, AccessFlag::Static);
        push_if_set(&mut v, flag, ACC_FINAL, AccessFlag::Final);
        push_if_set(&mut v, flag, ACC_SYNCHRONIZED, AccessFlag::Synchronized);
        push_if_set(&mut v, flag, ACC_BRIDGE, AccessFlag::Bridge);
        push_if_set(&mut v, flag, ACC_VARARGS, AccessFlag::Varargs);
        push_if_set(&mut v, flag, ACC_NATIVE, AccessFlag::Native);
        push_if_set(&mut v, flag, ACC_ABSTRACT, AccessFlag::Abstract);
        push_if_set(&mut v, flag, ACC_STRICT, AccessFlag::Strict);
        push_if_set(&mut v, flag, ACC_SYNTHETIC, AccessFlag::Synthetic);
        AccessFlags(v, flag)
    }
}

} // verus!

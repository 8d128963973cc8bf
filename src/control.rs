//! Control descriptions, menu items and control values.
use vstd::prelude::*;

verus! {

/// The type tag of a control, as the driver reports it.
#[derive(Debug, Clone, Copy, PartialEq, Eq, Structural)]
pub enum ControlType {
    Integer,
    Boolean,
    Menu,
    Button,
    Integer64,
    CtrlClass,
    String,
    Bitmask,
    IntegerMenu,
    /// A tag this library does not name, kept as reported.
    Other(u32),
}

impl ControlType {
    /// The tag that the raw protocol value `t` stands for.
    pub open spec fn spec_from_raw(t: u32) -> ControlType {
        if t == 1 {
            ControlType::Integer
        } else if t == 2 {
            ControlType::Boolean
        } else if t == 3 {
            ControlType::Menu
        } else if t == 4 {
            ControlType::Button
        } else if t == 5 {
            ControlType::Integer64
        } else if t == 6 {
            ControlType::CtrlClass
        } else if t == 7 {
            ControlType::String
        } else if t == 8 {
            ControlType::Bitmask
        } else if t == 9 {
            ControlType::IntegerMenu
        } else {
            ControlType::Other(t)
        }
    }

    /// Decodes a raw protocol type value.
    pub fn from_raw(t: u32) -> (r: ControlType)
        ensures
            r == Self::spec_from_raw(t),
    {
        match t {
            1 => ControlType::Integer,
            2 => ControlType::Boolean,
            3 => ControlType::Menu,
            4 => ControlType::Button,
            5 => ControlType::Integer64,
            6 => ControlType::CtrlClass,
            7 => ControlType::String,
            8 => ControlType::Bitmask,
            9 => ControlType::IntegerMenu,
            _ => ControlType::Other(t),
        }
    }

    /// Whether controls of this type carry a menu of items.
    pub open spec fn spec_is_menu(self) -> bool {
        self == ControlType::Menu || self == ControlType::IntegerMenu
    }

    /// Returns whether controls of this type carry a menu of items.
    pub fn is_menu(&self) -> (r: bool)
        ensures
            r == self.spec_is_menu(),
    {
        match self {
            ControlType::Menu => true,
            ControlType::IntegerMenu => true,
            _ => false,
        }
    }
}

/// The bytes of a fixed-size, zero-terminated name up to its first zero byte.
pub open spec fn c_name(s: Seq<u8>) -> Seq<u8>
    decreases s.len(),
{
    if s.len() == 0 || s[0] == 0 {
        Seq::empty()
    } else {
        seq![s[0]] + c_name(s.drop_first())
    }
}

proof fn lemma_c_name_prefix(s: Seq<u8>, i: int)
    requires
        0 <= i <= s.len(),
        forall|j: int| 0 <= j < i ==> s[j] != 0,
        i == s.len() || s[i] == 0,
    ensures
        c_name(s) == s.take(i),
    decreases i,
{
    if i == 0 {
        assert(s.take(0) =~= Seq::<u8>::empty());
    } else {
        let t = s.drop_first();
        assert forall|j: int| 0 <= j < i - 1 implies t[j] != 0 by {
            assert(t[j] == s[j + 1]);
        }
        if i - 1 < t.len() {
            assert(t[i - 1] == s[i]);
        }
        lemma_c_name_prefix(t, i - 1);
        assert(s.take(i) =~= seq![s[0]] + t.take(i - 1));
    }
}

/// Copies a zero-terminated name out of its fixed-size buffer.
pub fn name_from_bytes(raw: &[u8]) -> (r: Vec<u8>)
    ensures
        r@ == c_name(raw@),
{
    let mut out: Vec<u8> = Vec::new();
    let mut i: usize = 0;
    while i < raw.len() && raw[i] != 0
        invariant
            0 <= i <= raw@.len(),
            forall|j: int| 0 <= j < i ==> raw@[j] != 0,
            out@ == raw@.take(i as int),
        decreases raw@.len() - i,
    {
        out.push(raw[i]);
        i = i + 1;
        assert(out@ =~= raw@.take(i as int));
    }
    proof {
        lemma_c_name_prefix(raw@, i as int);
    }
    out
}

/// One entry of a menu control.
#[derive(Debug, Clone, PartialEq, Eq)]
pub enum MenuItem {
    /// A labelled choice of a menu control.
    Name(Vec<u8>),
    /// A numeric choice of an integer-menu control.
    Value(i64),
}

/// A menu entry as the driver reports it: the label buffer and the numeric
/// value share one record, and the parent control's type decides which counts.
#[derive(Debug, Clone)]
pub struct RawMenuItem {
    pub name: Vec<u8>,
    pub value: i64,
}

impl MenuItem {
    /// The item that `raw` decodes to under a control of type `typ`.
    pub open spec fn decodes_to(self, typ: ControlType, raw: RawMenuItem) -> bool {
        match self {
            MenuItem::Name(n) => typ == ControlType::Menu && n@ == c_name(raw.name@),
            MenuItem::Value(v) => typ == ControlType::IntegerMenu && v == raw.value,
        }
    }

    /// Decodes a reported entry by the type of the control it belongs to.
    pub fn decode(typ: ControlType, raw: &RawMenuItem) -> (r: MenuItem)
        requires
            typ.spec_is_menu(),
        ensures
            r.decodes_to(typ, *raw),
    {
        match typ {
            ControlType::IntegerMenu => MenuItem::Value(raw.value),
            _ => MenuItem::Name(name_from_bytes(raw.name.as_slice())),
        }
    }
}

/// A control as the driver reports it in answer to a "next control" request.
#[derive(Debug, Clone)]
pub struct RawControl {
    pub id: u32,
    pub typ: u32,
    pub name: Vec<u8>,
    pub minimum: i32,
    pub maximum: i32,
    pub step: i32,
    pub default: i32,
    pub flags: u32,
}

/// A configurable device parameter.
#[derive(Debug, Clone, PartialEq, Eq)]
pub struct Description {
    pub id: u32,
    pub typ: ControlType,
    pub name: Vec<u8>,
    pub minimum: i32,
    pub maximum: i32,
    pub step: i32,
    pub default: i32,
    pub flags: u32,
    /// The menu entries, as (index, item) pairs; present exactly for menu types.
    pub items: Option<Vec<(u32, MenuItem)>>,
}

impl Description {
    /// Menu entries are present if and only if the type is a menu kind.
    pub open spec fn wf(self) -> bool {
        self.items.is_some() <==> self.typ.spec_is_menu()
    }

    /// The description carries the fields of `raw`.
    pub open spec fn describes(self, raw: RawControl) -> bool {
        &&& self.id == raw.id
        &&& self.typ == ControlType::spec_from_raw(raw.typ)
        &&& self.name@ == c_name(raw.name@)
        &&& self.minimum == raw.minimum
        &&& self.maximum == raw.maximum
        &&& self.step == raw.step
        &&& self.default == raw.default
        &&& self.flags == raw.flags
    }
}

/// The value of a control.
#[derive(Debug, Clone, PartialEq, Eq)]
pub enum Control {
    /// A single scalar value, the one kind that can be written.
    Value(i32),
    /// A compound value, which this layer reads but does not write.
    Compound(Vec<u8>),
}

} // verus!

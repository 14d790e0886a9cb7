//! The closed sum types through which property values flow: one for whole
//! property bags, one for the typed values expressions return. Downcasting is
//! a safe match whose failure surfaces as a runtime violation at the caller.

use vstd::prelude::*;

use crate::rendering::PathSegment;
use crate::rendering::Size;
use crate::rendering::Transform2D;
use crate::rendering::copy_segments;

verus! {

/// A rectangle property bag declared by a component.
#[derive(Clone, Copy, PartialEq, Eq, Structural, Debug)]
pub struct RectDef {
    pub x: usize,
    pub y: usize,
    pub width: usize,
    pub height: usize,
}

impl Default for RectDef {
    /// The zero rectangle.
    fn default() -> (r: RectDef)
        ensures
            r == (RectDef { x: 0, y: 0, width: 0, height: 0 }),
    {
        RectDef { x: 0, y: 0, width: 0, height: 0 }
    }
}

/// The closed union of property bags a scope frame can carry.
pub enum PropertiesCoproduct {
    /// No properties: frames pushed for plain grouping.
    Empty,
    /// The bindings of one repeat iteration: the element and its index.
    RepeatItem { datum: Box<PropertiesCoproduct>, i: usize },
    Isize(isize),
    Usize(usize),
    Bool(bool),
    Str(String),
    Rect(RectDef),
}

/// A structural copy of a property bag.
pub fn clone_properties(p: &PropertiesCoproduct) -> (r: PropertiesCoproduct)
    ensures
        r == *p,
    decreases *p,
{
    match p {
        PropertiesCoproduct::Empty => PropertiesCoproduct::Empty,
        PropertiesCoproduct::RepeatItem { datum, i } => PropertiesCoproduct::RepeatItem {
            datum: Box::new(clone_properties(&**datum)),
            i: *i,
        },
        PropertiesCoproduct::Isize(v) => PropertiesCoproduct::Isize(*v),
        PropertiesCoproduct::Usize(v) => PropertiesCoproduct::Usize(*v),
        PropertiesCoproduct::Bool(v) => PropertiesCoproduct::Bool(*v),
        PropertiesCoproduct::Str(s) => PropertiesCoproduct::Str(s.clone()),
        PropertiesCoproduct::Rect(rd) => PropertiesCoproduct::Rect(*rd),
    }
}

/// An element-for-element copy of a list of property bags.
pub fn clone_properties_list(v: &Vec<PropertiesCoproduct>) -> (r: Vec<PropertiesCoproduct>)
    ensures
        r@ == v@,
{
    let mut r: Vec<PropertiesCoproduct> = Vec::new();
    let n = v.len();
    let mut i: usize = 0;
    while i < n
        invariant
            n == v@.len(),
            i <= n,
            r@.len() == i,
            forall|j: int| 0 <= j < i ==> r@[j] == v@[j],
        decreases n - i,
    {
        r.push(clone_properties(&v[i]));
        i += 1;
    }
    assert(r@ =~= v@);
    r
}

/// The closed union of values an expression can return.
pub enum TypesCoproduct {
    Usize(usize),
    Isize(isize),
    Bool(bool),
    Str(String),
    /// A half-open numeric range, for repeat sources.
    RangeIsize { start: isize, end: isize },
    /// A list of property bags, for iterable repeat sources.
    PropertiesList(Vec<PropertiesCoproduct>),
    Transform(Transform2D),
    SizeValue(Size),
    Segments(Vec<PathSegment>),
    ColorValue(crate::rendering::Color),
    U64(u64),
}

impl TypesCoproduct {
    /// Downcast to `usize`; any other variant is a mismatch.
    pub fn unwrap_usize(self) -> (r: Option<usize>)
        ensures
            match self {
                TypesCoproduct::Usize(v) => r == Some(v),
                _ => r is None,
            },
    {
        match self {
            TypesCoproduct::Usize(v) => Some(v),
            _ => None,
        }
    }

    /// Downcast to `isize`; any other variant is a mismatch.
    pub fn unwrap_isize(self) -> (r: Option<isize>)
        ensures
            match self {
                TypesCoproduct::Isize(v) => r == Some(v),
                _ => r is None,
            },
    {
        match self {
            TypesCoproduct::Isize(v) => Some(v),
            _ => None,
        }
    }

    /// Downcast to `bool`; any other variant is a mismatch.
    pub fn unwrap_bool(self) -> (r: Option<bool>)
        ensures
            match self {
                TypesCoproduct::Bool(v) => r == Some(v),
                _ => r is None,
            },
    {
        match self {
            TypesCoproduct::Bool(v) => Some(v),
            _ => None,
        }
    }

    /// Downcast to `String`; any other variant is a mismatch.
    pub fn unwrap_str(self) -> (r: Option<String>)
        ensures
            match self {
                TypesCoproduct::Str(v) => r == Some(v),
                _ => r is None,
            },
    {
        match self {
            TypesCoproduct::Str(v) => Some(v),
            _ => None,
        }
    }

    /// Downcast to a numeric range; any other variant is a mismatch.
    pub fn unwrap_range(self) -> (r: Option<(isize, isize)>)
        ensures
            match self {
                TypesCoproduct::RangeIsize { start, end } => r == Some((start, end)),
                _ => r is None,
            },
    {
        match self {
            TypesCoproduct::RangeIsize { start, end } => Some((start, end)),
            _ => None,
        }
    }

    /// Downcast to a list of property bags; any other variant is a mismatch.
    pub fn unwrap_properties_list(self) -> (r: Option<Vec<PropertiesCoproduct>>)
        ensures
            match self {
                TypesCoproduct::PropertiesList(v) => r == Some(v),
                _ => r is None,
            },
    {
        match self {
            TypesCoproduct::PropertiesList(v) => Some(v),
            _ => None,
        }
    }

    /// Downcast to a transform; any other variant is a mismatch.
    pub fn unwrap_transform(self) -> (r: Option<Transform2D>)
        ensures
            match self {
                TypesCoproduct::Transform(v) => r == Some(v),
                _ => r is None,
            },
    {
        match self {
            TypesCoproduct::Transform(v) => Some(v),
            _ => None,
        }
    }

    /// Downcast to a declared size; any other variant is a mismatch.
    pub fn unwrap_size(self) -> (r: Option<Size>)
        ensures
            match self {
                TypesCoproduct::SizeValue(v) => r == Some(v),
                _ => r is None,
            },
    {
        match self {
            TypesCoproduct::SizeValue(v) => Some(v),
            _ => None,
        }
    }

    /// Downcast to a segment list; any other variant is a mismatch.
    pub fn unwrap_segments(self) -> (r: Option<Vec<PathSegment>>)
        ensures
            match self {
                TypesCoproduct::Segments(v) => r == Some(v),
                _ => r is None,
            },
    {
        match self {
            TypesCoproduct::Segments(v) => Some(v),
            _ => None,
        }
    }

    /// Downcast to a color; any other variant is a mismatch.
    pub fn unwrap_color(self) -> (r: Option<crate::rendering::Color>)
        ensures
            match self {
                TypesCoproduct::ColorValue(v) => r == Some(v),
                _ => r is None,
            },
    {
        match self {
            TypesCoproduct::ColorValue(v) => Some(v),
            _ => None,
        }
    }

    /// Downcast to `u64`; any other variant is a mismatch.
    pub fn unwrap_u64(self) -> (r: Option<u64>)
        ensures
            match self {
                TypesCoproduct::U64(v) => r == Some(v),
                _ => r is None,
            },
    {
        match self {
            TypesCoproduct::U64(v) => Some(v),
            _ => None,
        }
    }
}

/// A structural copy of a typed expression value.
pub fn clone_types_value(t: &TypesCoproduct) -> (r: TypesCoproduct)
    ensures
        match *t {
            TypesCoproduct::PropertiesList(ref v) => r matches TypesCoproduct::PropertiesList(w)
                && w@ == v@,
            TypesCoproduct::Segments(ref v) => r matches TypesCoproduct::Segments(w) && w@ == v@,
            _ => r == *t,
        },
{
    match t {
        TypesCoproduct::Usize(v) => TypesCoproduct::Usize(*v),
        TypesCoproduct::Isize(v) => TypesCoproduct::Isize(*v),
        TypesCoproduct::Bool(v) => TypesCoproduct::Bool(*v),
        TypesCoproduct::Str(s) => TypesCoproduct::Str(s.clone()),
        TypesCoproduct::RangeIsize { start, end } => TypesCoproduct::RangeIsize {
            start: *start,
            end: *end,
        },
        TypesCoproduct::PropertiesList(v) => TypesCoproduct::PropertiesList(clone_properties_list(v)),
        TypesCoproduct::Transform(v) => TypesCoproduct::Transform(*v),
        TypesCoproduct::SizeValue(v) => TypesCoproduct::SizeValue(*v),
        TypesCoproduct::Segments(v) => TypesCoproduct::Segments(copy_segments(v)),
        TypesCoproduct::ColorValue(v) => TypesCoproduct::ColorValue(*v),
        TypesCoproduct::U64(v) => TypesCoproduct::U64(*v),
    }
}

} // verus!

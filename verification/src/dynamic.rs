//! Types and traits for accessing tag data without knowing its structure.

use vstd::prelude::*;
use vstd::string::{StrSliceExecFns, StringSliceAdditionalSpecFns};
use crate::error::{Error, RinghopperResult};
use crate::primitive::range::{ReflexiveAccessRange, parse_range_bytes, spec_canonical, spec_covered, spec_parse_ranges, spec_ranges_int};

verus! {

/// The kind of a piece of tag data.
#[derive(PartialEq, Eq, Structural, Debug, Clone, Copy)]
pub enum DynamicTagDataType {
    Reflexive,
    Array,
    Block,
    Data,
    TagReference,
    Enum,
    SimplePrimitive(SimplePrimitiveType),
}

/// The kind of a fixed-size piece of tag data.
#[derive(PartialEq, Eq, Structural, Debug, Clone, Copy)]
pub enum SimplePrimitiveType {
    Bool,
    String32,
    I8,
    U8,
    I16,
    U16,
    I32,
    U32,
    F32,
    Angle,
    Vector2D,
    Vector3D,
    Plane2D,
    Plane3D,
    Euler2D,
    Euler3D,
    Quaternion,
    Matrix3x3,
    Vector2DInt,
    Rectangle,
    ColorRGBFloat,
    ColorARGBInt,
    ColorARGBIntBytes,
    ColorARGBFloat,
    Padding,
    ID,
    TagGroup,
    Address,
    Size,
    ScenarioScriptNodeValue,
    TagFileHeader,
    DataC,
    ReflexiveC,
    TagReferenceC,
    CompressedFloat,
    CompressedVector3D,
    CompressedVector2D,
}

/// What the start of a matcher asks for.
///
/// A matcher names fields by their names, separated by `.`, and the items of arrays by ranges in brackets, as in
/// `strings[0-2].string`. Positions are byte offsets into the matcher.
#[derive(PartialEq, Eq, Structural, Debug, Clone, Copy)]
pub enum MatcherStep {
    /// The matcher is empty: it asks for the object itself.
    Here,

    /// A field whose name is the bytes before `end`; the rest of the matcher starts at `next`.
    Field { end: usize, next: usize },

    /// A subscript: its range is the bytes from 1 to `close`, where a `]` closes it, and the rest of the matcher
    /// starts at `next`.
    Subscript { close: usize, next: usize },

    /// A subscript that no `]` closes.
    UnclosedSubscript,
}

/// `i` is the first position at or after `from` of a byte among `targets`, or the end where there is none.
pub open spec fn spec_first_among(b: Seq<u8>, from: int, i: int, targets: Set<u8>) -> bool {
    &&& from <= i <= b.len()
    &&& forall|j: int| from <= j < i ==> !targets.contains(#[trigger] b[j])
    &&& i < b.len() ==> targets.contains(b[i])
}

/// Where the rest of a matcher starts after a part that ends at `end`: a `.` there is skipped.
pub open spec fn spec_skip_dot(b: Seq<u8>, end: int) -> int {
    if end < b.len() && b[end] == 0x2Eu8 {
        end + 1
    } else {
        end
    }
}

/// The first position at or after `from` of a byte among `targets`, or the end of `b`.
fn first_among(b: &[u8], from: usize, x: u8, y: u8) -> (r: usize)
    requires
        from <= b@.len(),
    ensures
        spec_first_among(b@, from as int, r as int, set![x, y]),
{
    let mut i = from;
    while i < b.len()
        invariant
            from <= i <= b@.len(),
            forall|j: int| from <= j < i ==> !set![x, y].contains(#[trigger] b@[j]),
        decreases b@.len() - i,
    {
        if b[i] == x || b[i] == y {
            return i;
        }
        i = i + 1;
    }
    i
}

/// Read the first step of a matcher.
///
/// A field name cannot start with `.`: that gives an error.
pub fn next_matcher_step(matcher: &str) -> (r: Result<MatcherStep, &'static str>)
    ensures
        ({
            let b = matcher.spec_bytes();
            if b.len() == 0 {
                r == Ok::<MatcherStep, &'static str>(MatcherStep::Here)
            } else if b[0] == 0x2Eu8 {
                r matches Err(e) && e@ == "bad matcher: cannot start a field name with '.'"@
            } else if b[0] == 0x5Bu8 {
                match r {
                    Ok(MatcherStep::Subscript { close, next }) => spec_first_among(b, 1, close as int, set![0x5Du8])
                        && close < b.len() && next == spec_skip_dot(b, close + 1),
                    Ok(MatcherStep::UnclosedSubscript) => spec_first_among(b, 1, b.len() as int, set![0x5Du8]),
                    _ => false,
                }
            } else {
                r matches Ok(MatcherStep::Field { end, next }) && spec_first_among(b, 0, end as int, set![0x2Eu8, 0x5Bu8])
                    && next == spec_skip_dot(b, end as int)
            }
        }),
{
    let b = matcher.as_bytes();
    proof {
        reveal_strlit("bad matcher: cannot start a field name with '.'");
    }
    if b.len() == 0 {
        return Ok(MatcherStep::Here);
    }
    if b[0] == 0x2E {
        return Err("bad matcher: cannot start a field name with '.'");
    }
    if b[0] == 0x5B {
        let close = first_among(b, 1, 0x5D, 0x5D);
        assert(set![0x5Du8, 0x5Du8] =~= set![0x5Du8]);
        if close == b.len() {
            return Ok(MatcherStep::UnclosedSubscript);
        }
        let next = if close + 1 < b.len() && b[close + 1] == 0x2E { close + 2 } else { close + 1 };
        return Ok(MatcherStep::Subscript { close, next });
    }
    let end = first_among(b, 0, 0x2E, 0x5B);
    let next = if end < b.len() && b[end] == 0x2E { end + 1 } else { end };
    Ok(MatcherStep::Field { end, next })
}

/// The item ranges that the subscript at the start of a matcher names, and where the rest of the matcher starts;
/// `len` is the number of items, `None` where the object is not an array.
///
/// Fails where the object is not an array, the step is not a closed subscript, or the range does not parse.
pub fn subscript_ranges(matcher: &str, step: MatcherStep, len: Option<usize>) -> (r: Result<
    (Vec<ReflexiveAccessRange>, usize),
    &'static str,
>)
    requires
        step matches MatcherStep::Subscript { close, next } ==> 1 <= close <= matcher.spec_bytes().len(),
    ensures
        match len {
            None => r matches Err(e) && e@ == "bad matcher: type is not subscriptable"@,
            Some(l) => match step {
                MatcherStep::Subscript { close, next } => match spec_parse_ranges(
                    matcher.spec_bytes().subrange(1, close as int),
                    l as int,
                ) {
                    Ok(pieces) => r matches Ok((v, n)) && n == next && spec_canonical(spec_ranges_int(v@)) && forall|x: int|
                        spec_covered(spec_ranges_int(v@), x) <==> spec_covered(pieces, x),
                    Err(e) => r matches Err(m) && m@ == e,
                },
                _ => r matches Err(e) && e@ == "bad matcher: expected a ] to close a ["@,
            },
        },
{
    proof {
        reveal_strlit("bad matcher: type is not subscriptable");
        reveal_strlit("bad matcher: expected a ] to close a [");
    }
    let len = match len {
        Some(l) => l,
        None => return Err("bad matcher: type is not subscriptable"),
    };
    match step {
        MatcherStep::Subscript { close, next } => {
            let bytes = matcher.as_bytes();
            match parse_range_bytes(vstd::slice::slice_subrange(bytes, 1, close), len) {
                Ok(v) => Ok((v, next)),
                Err(e) => Err(e),
            }
        },
        _ => Err("bad matcher: expected a ] to close a ["),
    }
}

/// Trait for enum objects that can be named by strings.
pub trait DynamicEnumImpl: Sized {
    /// The value a string names, if any.
    spec fn spec_from_str(value: Seq<char>) -> Option<Self>;

    /// Get an enum value from a value.
    ///
    /// Returns `None` if the string does not correspond to a valid option.
    fn from_str(value: &str) -> (r: Option<Self>)
        ensures
            r == Self::spec_from_str(value@),
    ;

    /// Convert the value to a string.
    fn to_str(&self) -> &'static str;

    /// Retrieve all values for the enum.
    fn str_vals() -> &'static [&'static str];
}

/// Overwrite an enum object with the value that a string names.
///
/// Returns [`Error::InvalidEnum`], leaving the object as it is, if the string names no value.
pub fn set_enum_string_value<T: DynamicEnumImpl>(target: &mut T, value: &str) -> (r: RinghopperResult<()>)
    ensures
        match T::spec_from_str(value@) {
            Some(n) => r is Ok && *final(target) == n,
            None => r == Err::<(), Error>(Error::InvalidEnum) && *final(target) == *old(target),
        },
{
    match T::from_str(value) {
        Some(n) => {
            *target = n;
            Ok(())
        },
        None => Err(Error::InvalidEnum),
    }
}

} // verus!

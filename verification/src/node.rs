//! The node model: a tagged union of Property, List and Action capabilities
//! behind one uniform named-entity shape, together with the visitor structure
//! that hosts fill with their children.
//!
//! Nodes own their data. A host assembles a [`Visit`] of [`Node`]s and hands
//! it to the operations in [`crate::console`]; every mutation is specified
//! against the mathematical views defined here.

use vstd::prelude::*;
use vstd::string::StringExecFns;
use crate::value::{
    clamp_spec, clamp_value, comparable, opt_value_view, same_tag, value_parse, Value, ValueV,
};

verus! {

/// Property state: whether the current value still equals the default.
#[derive(Copy, Clone, Debug, Eq, PartialEq, Structural)]
#[non_exhaustive]
pub enum PropState {
    /// The property has its default value set.
    Default,
    /// The property has a non-default value.
    UserSet,
    /// The value is not valid in the current context; reserved for
    /// validation extensions, never produced by the base property kinds.
    Invalid,
}

/// The state derived from a current and a default value.
pub open spec fn state_of(value: ValueV, default: ValueV) -> PropState {
    if value == default {
        PropState::Default
    } else {
        PropState::UserSet
    }
}

/// Diagnostic written when a string does not parse at a property's type.
pub open spec fn parse_err_msg() -> Seq<char> {
    seq!['i', 'n', 'v', 'a', 'l', 'i', 'd', ' ', 'v', 'a', 'l', 'u', 'e']
}

/// Diagnostic written when a direct assignment has the wrong concrete type.
pub open spec fn mismatch_msg() -> Seq<char> {
    seq!['m', 'i', 's', 'm', 'a', 't', 'c', 'h', 'e', 'd', ' ', 't', 'y', 'p', 'e', 's']
}

/// Diagnostic written when a read-only property is assigned to.
pub open spec fn read_only_msg() -> Seq<char> {
    seq![
        'c', 'a', 'n', 'n', 'o', 't', ' ', 's', 'e', 't', ' ', 'r', 'e', 'a', 'd', '-', 'o',
        'n', 'l', 'y', ' ', 'p', 'r', 'o', 'p', 'e', 'r', 't', 'y',
    ]
}

fn write_parse_err(writer: &mut String)
    ensures
        final(writer)@ == old(writer)@ + parse_err_msg(),
{
    proof {
        reveal_strlit("invalid value");
        assert("invalid value"@ =~= parse_err_msg());
    }
    writer.append("invalid value");
}

fn write_mismatch(writer: &mut String)
    ensures
        final(writer)@ == old(writer)@ + mismatch_msg(),
{
    proof {
        reveal_strlit("mismatched types");
        assert("mismatched types"@ =~= mismatch_msg());
    }
    writer.append("mismatched types");
}

fn write_read_only(writer: &mut String)
    ensures
        final(writer)@ == old(writer)@ + read_only_msg(),
{
    proof {
        reveal_strlit("cannot set read-only property");
        assert("cannot set read-only property"@ =~= read_only_msg());
    }
    writer.append("cannot set read-only property");
}

/// The mathematical form of a plain property: name, current value, default.
pub struct PropV {
    pub name: Seq<char>,
    pub value: ValueV,
    pub default: ValueV,
}

/// The mathematical form of a clamped property.
pub struct ClampedV {
    pub name: Seq<char>,
    pub value: ValueV,
    pub default: ValueV,
    pub min: Option<ValueV>,
    pub max: Option<ValueV>,
}

/// A plain property after parsing and assigning `s`; unchanged when `s` does
/// not parse at its type.
pub open spec fn propv_set(d: PropV, s: Seq<char>) -> PropV {
    match value_parse(d.value, s) {
        Some(nv) => PropV { value: nv, ..d },
        None => d,
    }
}

/// A plain property after a direct assignment of `v`; unchanged when the
/// concrete types differ.
pub open spec fn propv_set_value(d: PropV, v: ValueV) -> PropV {
    if same_tag(d.value, v) {
        PropV { value: v, ..d }
    } else {
        d
    }
}

/// Standard property node: an unconstrained settable value.
pub struct Property {
    name: String,
    value: Value,
    default: Value,
}

impl View for Property {
    type V = PropV;

    closed spec fn view(&self) -> PropV {
        PropV { name: self.name@, value: self.value@, default: self.default@ }
    }
}

impl Property {
    /// Creates a property with its name, current value and fixed default.
    pub fn new(name: &str, value: Value, default: Value) -> (r: Property)
        ensures
            r@ == (PropV { name: name@, value: value@, default: default@ }),
    {
        Property { name: String::from_str(name), value, default }
    }

    /// Returns the node name.
    pub fn name(&self) -> (r: &str)
        ensures
            r@ == self@.name,
    {
        self.name.as_str()
    }

    /// Gets the current value.
    pub fn get_value(&self) -> (r: &Value)
        ensures
            r@ == self@.value,
    {
        &self.value
    }

    /// Gets the default value.
    pub fn default_value(&self) -> (r: &Value)
        ensures
            r@ == self@.default,
    {
        &self.default
    }

    /// Sets the value parsed from a string; on failure the value is
    /// unchanged and a diagnostic is appended to `writer`.
    pub fn set(&mut self, val: &str, writer: &mut String) -> (r: bool)
        ensures
            r == (value_parse(old(self)@.value, val@) is Some),
            final(self)@ == propv_set(old(self)@, val@),
            final(writer)@ == old(writer)@ + if r {
                Seq::<char>::empty()
            } else {
                parse_err_msg()
            },
    {
        let parsed = self.value.parse_as(val);
        match parsed {
            Some(nv) => {
                self.value = nv;
                proof {
                    assert(final(writer)@ =~= old(writer)@ + Seq::<char>::empty());
                }
                true
            },
            None => {
                write_parse_err(writer);
                false
            },
        }
    }

    /// Sets the value directly; fails when the concrete types differ.
    pub fn set_value(&mut self, val: &Value, writer: &mut String) -> (r: bool)
        ensures
            r == same_tag(old(self)@.value, val@),
            final(self)@ == propv_set_value(old(self)@, val@),
            final(writer)@ == old(writer)@ + if r {
                Seq::<char>::empty()
            } else {
                mismatch_msg()
            },
    {
        if self.value.tag_matches(val) {
            self.value = val.duplicate();
            proof {
                assert(final(writer)@ =~= old(writer)@ + Seq::<char>::empty());
            }
            true
        } else {
            write_mismatch(writer);
            false
        }
    }

    /// Resets the value to its default.
    pub fn reset(&mut self)
        ensures
            final(self)@ == (PropV { value: old(self)@.default, ..old(self)@ }),
    {
        self.value = self.default.duplicate();
    }

    /// Returns the state of the property.
    pub fn state(&self) -> (r: PropState)
        ensures
            r == state_of(self@.value, self@.default),
    {
        if self.value.eq_value(&self.default) {
            PropState::Default
        } else {
            PropState::UserSet
        }
    }
}

/// Property node whose assigned values are clamped into `[min, max]`.
///
/// A missing bound leaves that side open. Out-of-range inputs are clamped,
/// not rejected. Bounds are supported for the numeric value types; the
/// constructor demands that each present bound is comparable with the value
/// (same numeric concrete type), so a bound can never be silently inert.
pub struct ClampedProp {
    name: String,
    value: Value,
    default: Value,
    min: Option<Value>,
    max: Option<Value>,
}

impl View for ClampedProp {
    type V = ClampedV;

    closed spec fn view(&self) -> ClampedV {
        ClampedV {
            name: self.name@,
            value: self.value@,
            default: self.default@,
            min: opt_value_view(self.min),
            max: opt_value_view(self.max),
        }
    }
}

/// Well-formedness of a clamped property: the default has the value's
/// concrete type, and each present bound is comparable with the value.
/// [`ClampedProp::new`] demands it, and every mutation preserves it, so a
/// bound can never become inert over the property's life.
pub open spec fn clamped_wf(c: ClampedV) -> bool {
    &&& same_tag(c.value, c.default)
    &&& (c.min is Some ==> crate::value::comparable(c.value, c.min->0))
    &&& (c.max is Some ==> crate::value::comparable(c.value, c.max->0))
}

/// A clamped property after parsing, clamping and assigning `s`.
pub open spec fn clampedv_set(c: ClampedV, s: Seq<char>) -> ClampedV {
    match value_parse(c.value, s) {
        Some(nv) => ClampedV { value: clamp_spec(nv, c.min, c.max), ..c },
        None => c,
    }
}

/// A clamped property after a direct, clamped assignment of `v`.
pub open spec fn clampedv_set_value(c: ClampedV, v: ValueV) -> ClampedV {
    if same_tag(c.value, v) {
        ClampedV { value: clamp_spec(v, c.min, c.max), ..c }
    } else {
        c
    }
}

/// Well-formedness of a clamped property is an invariant: assigning a
/// parsed string, assigning a value directly, and resetting all preserve
/// it.
pub proof fn lemma_clamped_wf_preserved(c: ClampedV, s: Seq<char>, v: ValueV)
    requires
        clamped_wf(c),
    ensures
        clamped_wf(clampedv_set(c, s)),
        clamped_wf(clampedv_set_value(c, v)),
        clamped_wf(ClampedV { value: c.default, ..c }),
{
}

impl ClampedProp {
    /// Creates a clamped property with its inclusive bounds.
    ///
    /// The default must have the value's concrete type, and each present
    /// bound must be numeric and of that same type: this keeps the bounds
    /// applicable to every value the property can ever hold.
    pub fn new(name: &str, value: Value, default: Value, min: Option<Value>, max: Option<Value>)
        -> (r: ClampedProp)
        requires
            same_tag(value@, default@),
            min is Some ==> comparable(value@, min->0@),
            max is Some ==> comparable(value@, max->0@),
        ensures
            r@ == (ClampedV {
                name: name@,
                value: value@,
                default: default@,
                min: opt_value_view(min),
                max: opt_value_view(max),
            }),
    {
        ClampedProp { name: String::from_str(name), value, default, min, max }
    }

    /// Returns the node name.
    pub fn name(&self) -> (r: &str)
        ensures
            r@ == self@.name,
    {
        self.name.as_str()
    }

    /// Gets the current value.
    pub fn get_value(&self) -> (r: &Value)
        ensures
            r@ == self@.value,
    {
        &self.value
    }

    /// Gets the default value.
    pub fn default_value(&self) -> (r: &Value)
        ensures
            r@ == self@.default,
    {
        &self.default
    }

    /// Sets the value parsed from a string, clamped into the bounds; on
    /// parse failure the value is unchanged and a diagnostic is appended.
    pub fn set(&mut self, val: &str, writer: &mut String) -> (r: bool)
        ensures
            r == (value_parse(old(self)@.value, val@) is Some),
            final(self)@ == clampedv_set(old(self)@, val@),
            final(writer)@ == old(writer)@ + if r {
                Seq::<char>::empty()
            } else {
                parse_err_msg()
            },
    {
        let parsed = self.value.parse_as(val);
        match parsed {
            Some(nv) => {
                self.value = clamp_value(nv, &self.min, &self.max);
                proof {
                    assert(final(writer)@ =~= old(writer)@ + Seq::<char>::empty());
                }
                true
            },
            None => {
                write_parse_err(writer);
                false
            },
        }
    }

    /// Sets the value directly, clamped into the bounds; fails when the
    /// concrete types differ.
    pub fn set_value(&mut self, val: &Value, writer: &mut String) -> (r: bool)
        ensures
            r == same_tag(old(self)@.value, val@),
            final(self)@ == clampedv_set_value(old(self)@, val@),
            final(writer)@ == old(writer)@ + if r {
                Seq::<char>::empty()
            } else {
                mismatch_msg()
            },
    {
        if self.value.tag_matches(val) {
            self.value = clamp_value(val.duplicate(), &self.min, &self.max);
            proof {
                assert(final(writer)@ =~= old(writer)@ + Seq::<char>::empty());
            }
            true
        } else {
            write_mismatch(writer);
            false
        }
    }

    /// Resets the value to its default.
    pub fn reset(&mut self)
        ensures
            final(self)@ == (ClampedV { value: old(self)@.default, ..old(self)@ }),
    {
        self.value = self.default.duplicate();
    }

    /// Returns the state of the property.
    pub fn state(&self) -> (r: PropState)
        ensures
            r == state_of(self@.value, self@.default),
    {
        if self.value.eq_value(&self.default) {
            PropState::Default
        } else {
            PropState::UserSet
        }
    }
}

/// Read-only property node: reads work, every mutation is refused.
pub struct ReadOnlyProp {
    name: String,
    value: Value,
    default: Value,
}

impl View for ReadOnlyProp {
    type V = PropV;

    closed spec fn view(&self) -> PropV {
        PropV { name: self.name@, value: self.value@, default: self.default@ }
    }
}

impl ReadOnlyProp {
    /// Creates a read-only property.
    pub fn new(name: &str, value: Value, default: Value) -> (r: ReadOnlyProp)
        ensures
            r@ == (PropV { name: name@, value: value@, default: default@ }),
    {
        ReadOnlyProp { name: String::from_str(name), value, default }
    }

    /// Returns the node name.
    pub fn name(&self) -> (r: &str)
        ensures
            r@ == self@.name,
    {
        self.name.as_str()
    }

    /// Gets the current value.
    pub fn get_value(&self) -> (r: &Value)
        ensures
            r@ == self@.value,
    {
        &self.value
    }

    /// Gets the default value.
    pub fn default_value(&self) -> (r: &Value)
        ensures
            r@ == self@.default,
    {
        &self.default
    }

    /// Refuses the assignment with a fixed diagnostic.
    pub fn set(&mut self, val: &str, writer: &mut String) -> (r: bool)
        ensures
            r == false,
            final(self)@ == old(self)@,
            final(writer)@ == old(writer)@ + read_only_msg(),
    {
        let _ = val;
        write_read_only(writer);
        false
    }

    /// Refuses the assignment with a fixed diagnostic.
    pub fn set_value(&mut self, val: &Value, writer: &mut String) -> (r: bool)
        ensures
            r == false,
            final(self)@ == old(self)@,
            final(writer)@ == old(writer)@ + read_only_msg(),
    {
        let _ = val;
        write_read_only(writer);
        false
    }

    /// A silent no-op: read-only properties keep their value.
    pub fn reset(&mut self)
        ensures
            final(self)@ == old(self)@,
    {
    }

    /// Returns the state of the property.
    pub fn state(&self) -> (r: PropState)
        ensures
            r == state_of(self@.value, self@.default),
    {
        if self.value.eq_value(&self.default) {
            PropState::Default
        } else {
            PropState::UserSet
        }
    }
}

/// Property node which owns its name and value storage; used for nodes
/// created dynamically at runtime. Its semantics equal [`Property`].
pub struct OwnedProp {
    name: String,
    value: Value,
    default: Value,
}

impl View for OwnedProp {
    type V = PropV;

    closed spec fn view(&self) -> PropV {
        PropV { name: self.name@, value: self.value@, default: self.default@ }
    }
}

impl OwnedProp {
    /// Creates an owned property.
    pub fn new(name: String, value: Value, default: Value) -> (r: OwnedProp)
        ensures
            r@ == (PropV { name: name@, value: value@, default: default@ }),
    {
        OwnedProp { name, value, default }
    }

    /// Returns the node name.
    pub fn name(&self) -> (r: &str)
        ensures
            r@ == self@.name,
    {
        self.name.as_str()
    }

    /// Gets the current value.
    pub fn get_value(&self) -> (r: &Value)
        ensures
            r@ == self@.value,
    {
        &self.value
    }

    /// Gets the default value.
    pub fn default_value(&self) -> (r: &Value)
        ensures
            r@ == self@.default,
    {
        &self.default
    }

    /// Sets the value parsed from a string; on failure the value is
    /// unchanged and a diagnostic is appended to `writer`.
    pub fn set(&mut self, val: &str, writer: &mut String) -> (r: bool)
        ensures
            r == (value_parse(old(self)@.value, val@) is Some),
            final(self)@ == propv_set(old(self)@, val@),
            final(writer)@ == old(writer)@ + if r {
                Seq::<char>::empty()
            } else {
                parse_err_msg()
            },
    {
        let parsed = self.value.parse_as(val);
        match parsed {
            Some(nv) => {
                self.value = nv;
                proof {
                    assert(final(writer)@ =~= old(writer)@ + Seq::<char>::empty());
                }
                true
            },
            None => {
                write_parse_err(writer);
                false
            },
        }
    }

    /// Sets the value directly; fails when the concrete types differ.
    pub fn set_value(&mut self, val: &Value, writer: &mut String) -> (r: bool)
        ensures
            r == same_tag(old(self)@.value, val@),
            final(self)@ == propv_set_value(old(self)@, val@),
            final(writer)@ == old(writer)@ + if r {
                Seq::<char>::empty()
            } else {
                mismatch_msg()
            },
    {
        if self.value.tag_matches(val) {
            self.value = val.duplicate();
            proof {
                assert(final(writer)@ =~= old(writer)@ + Seq::<char>::empty());
            }
            true
        } else {
            write_mismatch(writer);
            false
        }
    }

    /// Resets the value to its default.
    pub fn reset(&mut self)
        ensures
            final(self)@ == (PropV { value: old(self)@.default, ..old(self)@ }),
    {
        self.value = self.default.duplicate();
    }

    /// Returns the state of the property.
    pub fn state(&self) -> (r: PropState)
        ensures
            r == state_of(self@.value, self@.default),
    {
        if self.value.eq_value(&self.default) {
            PropState::Default
        } else {
            PropState::UserSet
        }
    }
}

/// A standard property holding an unsigned value shown in hexadecimal.
#[allow(non_snake_case)]
pub fn HexProp(name: &str, value: u64, default: u64) -> (r: Property)
    ensures
        r@ == (PropV {
            name: name@,
            value: ValueV::Hex(value),
            default: ValueV::Hex(default),
        }),
{
    Property::new(name, Value::Hex(value), Value::Hex(default))
}

/// A property of any variant, behind one dispatching type.
pub enum PropNode {
    Standard(Property),
    Clamped(ClampedProp),
    ReadOnly(ReadOnlyProp),
    Owned(OwnedProp),
}

/// The mathematical form of a [`PropNode`].
pub enum PropNodeV {
    Standard(PropV),
    Clamped(ClampedV),
    ReadOnly(PropV),
    Owned(PropV),
}

impl View for PropNode {
    type V = PropNodeV;

    open spec fn view(&self) -> PropNodeV {
        match self {
            PropNode::Standard(p) => PropNodeV::Standard(p@),
            PropNode::Clamped(p) => PropNodeV::Clamped(p@),
            PropNode::ReadOnly(p) => PropNodeV::ReadOnly(p@),
            PropNode::Owned(p) => PropNodeV::Owned(p@),
        }
    }
}

/// The name of a property node.
pub open spec fn prop_name_of(p: PropNodeV) -> Seq<char> {
    match p {
        PropNodeV::Standard(d) => d.name,
        PropNodeV::Clamped(c) => c.name,
        PropNodeV::ReadOnly(d) => d.name,
        PropNodeV::Owned(d) => d.name,
    }
}

/// The current value of a property node.
pub open spec fn prop_value_of(p: PropNodeV) -> ValueV {
    match p {
        PropNodeV::Standard(d) => d.value,
        PropNodeV::Clamped(c) => c.value,
        PropNodeV::ReadOnly(d) => d.value,
        PropNodeV::Owned(d) => d.value,
    }
}

/// The default value of a property node.
pub open spec fn prop_default_of(p: PropNodeV) -> ValueV {
    match p {
        PropNodeV::Standard(d) => d.default,
        PropNodeV::Clamped(c) => c.default,
        PropNodeV::ReadOnly(d) => d.default,
        PropNodeV::Owned(d) => d.default,
    }
}

/// A property node after `set(s)`: parse at its type, clamp where the
/// variant clamps, refuse where it is read-only.
pub open spec fn prop_set_spec(p: PropNodeV, s: Seq<char>) -> PropNodeV {
    match p {
        PropNodeV::Standard(d) => PropNodeV::Standard(propv_set(d, s)),
        PropNodeV::Clamped(c) => PropNodeV::Clamped(clampedv_set(c, s)),
        PropNodeV::ReadOnly(d) => PropNodeV::ReadOnly(d),
        PropNodeV::Owned(d) => PropNodeV::Owned(propv_set(d, s)),
    }
}

/// Whether `set(s)` succeeds on the property node.
pub open spec fn prop_set_ok(p: PropNodeV, s: Seq<char>) -> bool {
    match p {
        PropNodeV::ReadOnly(_) => false,
        _ => value_parse(prop_value_of(p), s) is Some,
    }
}

/// The diagnostic `set(s)` appends on the property node.
pub open spec fn prop_set_out(p: PropNodeV, s: Seq<char>) -> Seq<char> {
    match p {
        PropNodeV::ReadOnly(_) => read_only_msg(),
        _ => if value_parse(prop_value_of(p), s) is Some {
            Seq::<char>::empty()
        } else {
            parse_err_msg()
        },
    }
}

/// A property node after `set_value(v)`.
pub open spec fn prop_set_value_spec(p: PropNodeV, v: ValueV) -> PropNodeV {
    match p {
        PropNodeV::Standard(d) => PropNodeV::Standard(propv_set_value(d, v)),
        PropNodeV::Clamped(c) => PropNodeV::Clamped(clampedv_set_value(c, v)),
        PropNodeV::ReadOnly(d) => PropNodeV::ReadOnly(d),
        PropNodeV::Owned(d) => PropNodeV::Owned(propv_set_value(d, v)),
    }
}

/// Whether `set_value(v)` succeeds on the property node.
pub open spec fn prop_set_value_ok(p: PropNodeV, v: ValueV) -> bool {
    match p {
        PropNodeV::ReadOnly(_) => false,
        _ => same_tag(prop_value_of(p), v),
    }
}

/// The diagnostic `set_value(v)` appends on the property node.
pub open spec fn prop_set_value_out(p: PropNodeV, v: ValueV) -> Seq<char> {
    match p {
        PropNodeV::ReadOnly(_) => read_only_msg(),
        _ => if same_tag(prop_value_of(p), v) {
            Seq::<char>::empty()
        } else {
            mismatch_msg()
        },
    }
}

/// A property node after `reset()`: the default over the current value,
/// silently skipped for read-only properties.
pub open spec fn prop_reset_spec(p: PropNodeV) -> PropNodeV {
    match p {
        PropNodeV::Standard(d) => PropNodeV::Standard(PropV { value: d.default, ..d }),
        PropNodeV::Clamped(c) => PropNodeV::Clamped(ClampedV { value: c.default, ..c }),
        PropNodeV::ReadOnly(d) => PropNodeV::ReadOnly(d),
        PropNodeV::Owned(d) => PropNodeV::Owned(PropV { value: d.default, ..d }),
    }
}

/// Round-trip at the property level: setting a standard property from the
/// display string of any value of its own concrete type stores exactly that
/// value, so a following read yields it back.
pub proof fn lemma_set_get_round_trip(d: PropV, v: ValueV)
    requires
        same_tag(d.value, v),
    ensures
        propv_set(d, crate::value::value_fmt(v)).value == v,
{
    crate::value::lemma_value_roundtrip(d.value, v);
}

/// Resetting is idempotent: a second `reset()` changes nothing, and after a
/// reset every property that can be reset at all (that is, every variant but
/// the read-only one, whose reset is a silent no-op) reports `Default`.
pub proof fn lemma_reset_idempotent(p: PropNodeV)
    ensures
        prop_reset_spec(prop_reset_spec(p)) == prop_reset_spec(p),
        !(p is ReadOnly) ==> state_of(
            prop_value_of(prop_reset_spec(p)),
            prop_default_of(prop_reset_spec(p)),
        ) == PropState::Default,
{
}

impl PropNode {
    /// Returns the node name.
    pub fn name(&self) -> (r: &str)
        ensures
            r@ == prop_name_of(self@),
    {
        match self {
            PropNode::Standard(p) => p.name(),
            PropNode::Clamped(p) => p.name(),
            PropNode::ReadOnly(p) => p.name(),
            PropNode::Owned(p) => p.name(),
        }
    }

    /// Gets the current value.
    pub fn get_value(&self) -> (r: &Value)
        ensures
            r@ == prop_value_of(self@),
    {
        match self {
            PropNode::Standard(p) => p.get_value(),
            PropNode::Clamped(p) => p.get_value(),
            PropNode::ReadOnly(p) => p.get_value(),
            PropNode::Owned(p) => p.get_value(),
        }
    }

    /// Gets the default value.
    pub fn default_value(&self) -> (r: &Value)
        ensures
            r@ == prop_default_of(self@),
    {
        match self {
            PropNode::Standard(p) => p.default_value(),
            PropNode::Clamped(p) => p.default_value(),
            PropNode::ReadOnly(p) => p.default_value(),
            PropNode::Owned(p) => p.default_value(),
        }
    }

    /// Sets the value parsed from a string.
    pub fn set(&mut self, val: &str, writer: &mut String) -> (r: bool)
        ensures
            r == prop_set_ok(old(self)@, val@),
            final(self)@ == prop_set_spec(old(self)@, val@),
            final(writer)@ == old(writer)@ + prop_set_out(old(self)@, val@),
    {
        match self {
            PropNode::Standard(p) => p.set(val, writer),
            PropNode::Clamped(p) => p.set(val, writer),
            PropNode::ReadOnly(p) => p.set(val, writer),
            PropNode::Owned(p) => p.set(val, writer),
        }
    }

    /// Sets the value directly.
    pub fn set_value(&mut self, val: &Value, writer: &mut String) -> (r: bool)
        ensures
            r == prop_set_value_ok(old(self)@, val@),
            final(self)@ == prop_set_value_spec(old(self)@, val@),
            final(writer)@ == old(writer)@ + prop_set_value_out(old(self)@, val@),
    {
        match self {
            PropNode::Standard(p) => p.set_value(val, writer),
            PropNode::Clamped(p) => p.set_value(val, writer),
            PropNode::ReadOnly(p) => p.set_value(val, writer),
            PropNode::Owned(p) => p.set_value(val, writer),
        }
    }

    /// Resets the value to its default; a silent no-op on read-only
    /// properties.
    pub fn reset(&mut self)
        ensures
            final(self)@ == prop_reset_spec(old(self)@),
    {
        match self {
            PropNode::Standard(p) => p.reset(),
            PropNode::Clamped(p) => p.reset(),
            PropNode::ReadOnly(p) => p.reset(),
            PropNode::Owned(p) => p.reset(),
        }
    }

    /// Returns the state of the property.
    pub fn state(&self) -> (r: PropState)
        ensures
            r == state_of(prop_value_of(self@), prop_default_of(self@)),
    {
        match self {
            PropNode::Standard(p) => p.state(),
            PropNode::Clamped(p) => p.state(),
            PropNode::ReadOnly(p) => p.state(),
            PropNode::Owned(p) => p.state(),
        }
    }
}

impl Property {
    /// Returns a copy of this property.
    pub fn duplicate(&self) -> (r: Property)
        ensures
            r@ == self@,
    {
        Property {
            name: self.name.clone(),
            value: self.value.duplicate(),
            default: self.default.duplicate(),
        }
    }
}

impl ClampedProp {
    /// Returns a copy of this property.
    pub fn duplicate(&self) -> (r: ClampedProp)
        ensures
            r@ == self@,
    {
        ClampedProp {
            name: self.name.clone(),
            value: self.value.duplicate(),
            default: self.default.duplicate(),
            min: match &self.min {
                Some(m) => Some(m.duplicate()),
                None => None,
            },
            max: match &self.max {
                Some(m) => Some(m.duplicate()),
                None => None,
            },
        }
    }
}

impl ReadOnlyProp {
    /// Returns a copy of this property.
    pub fn duplicate(&self) -> (r: ReadOnlyProp)
        ensures
            r@ == self@,
    {
        ReadOnlyProp {
            name: self.name.clone(),
            value: self.value.duplicate(),
            default: self.default.duplicate(),
        }
    }
}

impl OwnedProp {
    /// Returns a copy of this property.
    pub fn duplicate(&self) -> (r: OwnedProp)
        ensures
            r@ == self@,
    {
        OwnedProp {
            name: self.name.clone(),
            value: self.value.duplicate(),
            default: self.default.duplicate(),
        }
    }
}

impl PropNode {
    /// Returns a copy of this property node.
    pub fn duplicate(&self) -> (r: PropNode)
        ensures
            r@ == self@,
    {
        match self {
            PropNode::Standard(p) => PropNode::Standard(p.duplicate()),
            PropNode::Clamped(p) => PropNode::Clamped(p.duplicate()),
            PropNode::ReadOnly(p) => PropNode::ReadOnly(p.duplicate()),
            PropNode::Owned(p) => PropNode::Owned(p.duplicate()),
        }
    }
}

/// Action node: a named, invocable unit taking a raw argument string.
///
/// The tree records each invocation: the argument strings are appended, in
/// order, to the action's call log. The host performs the action's actual
/// effect by reading that log (or by reacting to the result of
/// [`crate::console::invoke`]); validation and output are the host's own
/// responsibility.
pub struct Action {
    name: String,
    calls: Vec<String>,
}

/// The mathematical form of an [`Action`]: its name and the argument of
/// every invocation so far, in order.
pub struct ActionV {
    pub name: Seq<char>,
    pub calls: Seq<Seq<char>>,
}

impl View for Action {
    type V = ActionV;

    closed spec fn view(&self) -> ActionV {
        ActionV { name: self.name@, calls: self.calls.deep_view() }
    }
}

impl Action {
    /// Creates an action with an empty call log.
    pub fn new(name: &str) -> (r: Action)
        ensures
            r@.name == name@,
            r@.calls == Seq::<Seq<char>>::empty(),
    {
        let r = Action { name: String::from_str(name), calls: Vec::new() };
        proof {
            assert(r@.calls =~= Seq::<Seq<char>>::empty());
        }
        r
    }

    /// Returns the node name.
    pub fn name(&self) -> (r: &str)
        ensures
            r@ == self@.name,
    {
        self.name.as_str()
    }

    /// Invokes the action with a raw argument string: the argument is
    /// appended to the call log.
    pub fn invoke(&mut self, args: &str)
        ensures
            final(self)@.name == old(self)@.name,
            final(self)@.calls == old(self)@.calls.push(args@),
    {
        self.calls.push(String::from_str(args));
        proof {
            assert(self@.calls =~= old(self)@.calls.push(args@));
        }
    }

    /// The arguments of every invocation so far, in order.
    pub fn calls(&self) -> (r: &Vec<String>)
        ensures
            r.deep_view() == self@.calls,
    {
        &self.calls
    }
}

/// The children a host structure exposes, in a fixed order that callers may
/// rely on.
pub struct Visit {
    pub nodes: Vec<Node>,
}

/// List node: a named sub-tree exposing children of its own.
pub struct List {
    pub name: String,
    pub visit: Visit,
}

/// A node of the tree: exactly one of the three capabilities.
pub enum Node {
    Prop(PropNode),
    List(List),
    Action(Action),
}

/// The mathematical form of a [`Node`].
pub enum NodeV {
    Prop(PropNodeV),
    List(Seq<char>, Seq<NodeV>),
    Action(ActionV),
}

/// The view of one node; lists carry the views of their children.
pub open spec fn node_view(n: Node) -> NodeV
    decreases n,
{
    match n {
        Node::Prop(p) => NodeV::Prop(p@),
        Node::List(l) => NodeV::List(l.name@, nodes_view(l.visit.nodes@)),
        Node::Action(a) => NodeV::Action(a@),
    }
}

/// The views of a sequence of nodes.
pub open spec fn nodes_view(s: Seq<Node>) -> Seq<NodeV>
    decreases s,
{
    if s.len() == 0 {
        Seq::<NodeV>::empty()
    } else {
        nodes_view(s.drop_last()).push(node_view(s.last()))
    }
}

/// Views distribute over indexing.
pub proof fn lemma_nodes_view_index(s: Seq<Node>)
    ensures
        nodes_view(s).len() == s.len(),
        forall|i: int| 0 <= i < s.len() ==> nodes_view(s)[i] == node_view(#[trigger] s[i]),
    decreases s,
{
    if s.len() > 0 {
        lemma_nodes_view_index(s.drop_last());
        assert forall|i: int| 0 <= i < s.len() implies nodes_view(s)[i] == node_view(
            #[trigger] s[i],
        ) by {
            if i < s.len() - 1 {
                assert(s.drop_last()[i] == s[i]);
                assert(nodes_view(s)[i] == nodes_view(s.drop_last())[i]);
            } else {
                assert(s.last() == s[i]);
            }
        }
    }
}

impl View for Visit {
    type V = Seq<NodeV>;

    open spec fn view(&self) -> Seq<NodeV> {
        nodes_view(self.nodes@)
    }
}

impl Visit {
    /// Creates an empty visitor.
    pub fn new() -> (r: Visit)
        ensures
            r@ == Seq::<NodeV>::empty(),
    {
        let r = Visit { nodes: Vec::new() };
        proof {
            assert(r@ =~= Seq::<NodeV>::empty());
        }
        r
    }

    /// Appends one child node.
    pub fn add(&mut self, n: Node)
        ensures
            final(self)@ == old(self)@.push(node_view(n)),
    {
        self.nodes.push(n);
        proof {
            assert(self.nodes@.drop_last() =~= old(self).nodes@);
        }
    }
}

impl List {
    /// Creates a list node over a visitor of children.
    pub fn new(name: &str, visit: Visit) -> (r: List)
        ensures
            node_view(Node::List(r)) == NodeV::List(name@, visit@),
    {
        List { name: String::from_str(name), visit }
    }
}

/// The name of a node.
pub open spec fn node_name(n: NodeV) -> Seq<char> {
    match n {
        NodeV::Prop(p) => prop_name_of(p),
        NodeV::List(name, _) => name,
        NodeV::Action(a) => a.name,
    }
}

impl Action {
    /// Returns a copy of this action, call log included.
    pub fn duplicate(&self) -> (r: Action)
        ensures
            r@ == self@,
    {
        let mut calls: Vec<String> = Vec::new();
        let n = self.calls.len();
        let mut i: usize = 0;
        while i < n
            invariant
                i <= n,
                n == self.calls@.len(),
                calls@.len() == i,
                forall|j: int| 0 <= j < i ==> calls@[j]@ == #[trigger] self.calls@[j]@,
            decreases n - i,
        {
            calls.push(self.calls[i].clone());
            i += 1;
        }
        let r = Action { name: self.name.clone(), calls };
        proof {
            assert(r@.calls =~= self@.calls);
        }
        r
    }
}

impl Node {
    /// Returns the node name.
    pub fn name(&self) -> (r: &str)
        ensures
            r@ == node_name(node_view(*self)),
    {
        match self {
            Node::Prop(p) => p.name(),
            Node::List(l) => l.name.as_str(),
            Node::Action(a) => a.name(),
        }
    }

    /// Returns a deep copy of this node and, for a list, of its whole
    /// sub-tree.
    pub fn duplicate(&self) -> (r: Node)
        ensures
            node_view(r) == node_view(*self),
        decreases *self,
    {
        match self {
            Node::Prop(p) => Node::Prop(p.duplicate()),
            Node::Action(a) => Node::Action(a.duplicate()),
            Node::List(l) => {
                let mut kids: Vec<Node> = Vec::new();
                let n = l.visit.nodes.len();
                let mut i: usize = 0;
                while i < n
                    invariant
                        *self == Node::List(*l),
                        i <= n,
                        n == l.visit.nodes@.len(),
                        kids@.len() == i,
                        forall|j: int|
                            0 <= j < i ==> node_view(kids@[j]) == node_view(
                                #[trigger] l.visit.nodes@[j],
                            ),
                    decreases n - i,
                {
                    let child = &l.visit.nodes[i];
                    proof {
                        broadcast use vstd::std_specs::vec::group_vec_axioms;

                        assert((*self)->List_0 == *l);
                        assert(decreases_to!(*self => (*self)->List_0));
                        assert(decreases_to!(*l => l.visit));
                        assert(decreases_to!(l.visit => l.visit.nodes));
                        assert(decreases_to!(l.visit.nodes => l.visit.nodes@));
                        assert(decreases_to!(l.visit.nodes@ => l.visit.nodes@[i as int]));
                    }
                    kids.push(child.duplicate());
                    i += 1;
                }
                proof {
                    lemma_nodes_view_index(kids@);
                    lemma_nodes_view_index(l.visit.nodes@);
                    assert forall|j: int|
                        0 <= j < n implies nodes_view(kids@)[j] == nodes_view(
                        l.visit.nodes@,
                    )[j] by {
                        assert(node_view(kids@[j]) == node_view(l.visit.nodes@[j]));
                    }
                    assert(nodes_view(kids@) =~= nodes_view(l.visit.nodes@));
                }
                Node::List(List { name: l.name.clone(), visit: Visit { nodes: kids } })
            },
        }
    }
}

} // verus!

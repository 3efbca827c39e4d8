//! The three-valued optional used by partial configurations.
//!
//! A field of type [`DoubleOption`] is either left out of a document ("unset",
//! inherit the default), written as the string `"none"` ("explicit none"), or
//! written with its value.
use vstd::prelude::*;

verus! {

/// The text that stands for an explicit "no value".
pub open spec fn explicit_none_text() -> Seq<char> {
    seq!['n', 'o', 'n', 'e']
}

/// Marker for an explicit "no value"; serialised as the string `"none"`.
/// It has no public constructor: it exists only inside [`ExplicitOption`].
#[derive(Debug, Clone, Copy, PartialEq, Eq, Structural)]
pub struct ExplicitNone {
    private: bool,
}

impl ExplicitNone {
    /// The marker.
    pub fn new() -> (r: ExplicitNone) {
        ExplicitNone { private: false }
    }

    /// The text this marker is written as.
    pub fn as_str() -> (r: &'static str)
        ensures
            r@ == explicit_none_text(),
    {
        proof {
            reveal_strlit("none");
        }
        "none"
    }

    /// Reads the marker from a string: only `"none"` is accepted.
    pub fn from_text(text: &str) -> (r: Option<ExplicitNone>)
        ensures
            r is Some <==> text@ == explicit_none_text(),
    {
        let expected = ExplicitNone::as_str();
        let n = text.unicode_len();
        if n != 4 {
            return None;
        }
        let mut i: usize = 0;
        while i < 4
            invariant
                0 <= i <= 4,
                text@.len() == 4,
                expected@ == explicit_none_text(),
                forall|j: int| 0 <= j < i ==> text@[j] == explicit_none_text()[j],
            decreases 4 - i,
        {
            if text.get_char(i) != expected.get_char(i) {
                return None;
            }
            i = i + 1;
        }
        assert(text@ =~= explicit_none_text());
        Some(ExplicitNone::new())
    }
}

/// An optional value whose absence is written out explicitly.
#[derive(Debug, Clone, Copy, PartialEq, Eq)]
pub enum ExplicitOption<T> {
    Nothing(ExplicitNone),
    Value(T),
}

impl<T> ExplicitOption<T> {
    /// The value this stands for, as an ordinary option.
    pub open spec fn spec_to_option(self) -> Option<T> {
        match self {
            ExplicitOption::Nothing(_) => None,
            ExplicitOption::Value(v) => Some(v),
        }
    }

    /// The explicit "no value".
    pub fn none() -> (r: ExplicitOption<T>)
        ensures
            r is Nothing,
    {
        ExplicitOption::Nothing(ExplicitNone::new())
    }

    /// Converts from an ordinary option.
    pub fn from_option(value: Option<T>) -> (r: ExplicitOption<T>)
        ensures
            r.spec_to_option() == value,
    {
        match value {
            None => ExplicitOption::none(),
            Some(inner) => ExplicitOption::Value(inner),
        }
    }

    /// Converts into an ordinary option.
    pub fn into_option(self) -> (r: Option<T>)
        ensures
            r == self.spec_to_option(),
    {
        match self {
            ExplicitOption::Nothing(_) => None,
            ExplicitOption::Value(inner) => Some(inner),
        }
    }

    /// Whether this is the explicit "no value".
    pub fn is_none(&self) -> (r: bool)
        ensures
            r == (self is Nothing),
    {
        match self {
            ExplicitOption::Nothing(_) => true,
            ExplicitOption::Value(_) => false,
        }
    }
}

impl<T> Default for ExplicitOption<T> {
    fn default() -> (r: ExplicitOption<T>)
        ensures
            r is Nothing,
    {
        ExplicitOption::none()
    }
}

/// Tells an unspecified field apart from one set to "no value".
pub type DoubleOption<T> = Option<ExplicitOption<T>>;

/// What a three-valued field says.
#[derive(Debug, Clone, Copy, PartialEq, Eq, Structural)]
pub enum FieldKind {
    /// Left out: inherit the default.
    Unset,
    /// Written as `"none"`: no value, overriding any default.
    ExplicitNone,
    /// Written with a value.
    Value,
}

/// What a field holding `d` says.
pub open spec fn kind_of<T>(d: DoubleOption<T>) -> FieldKind {
    match d {
        None => FieldKind::Unset,
        Some(ExplicitOption::Nothing(_)) => FieldKind::ExplicitNone,
        Some(ExplicitOption::Value(_)) => FieldKind::Value,
    }
}

/// How a field holding `d` is written, given how its value (if any) is
/// written: `None` when left out, `Some(Some(s))` for the string `s`, and
/// `Some(None)` for a value that is not a string.
pub open spec fn written_form<T>(d: DoubleOption<T>, value_form: Option<Seq<char>>) -> Option<Option<Seq<char>>> {
    match d {
        None => None,
        Some(ExplicitOption::Nothing(_)) => Some(Some(explicit_none_text())),
        Some(ExplicitOption::Value(_)) => Some(value_form),
    }
}

/// What a written field reads back as (untagged: the string `"none"` is the
/// marker, anything else is a value).
pub open spec fn spec_read_kind(written: Option<Option<Seq<char>>>) -> FieldKind {
    match written {
        None => FieldKind::Unset,
        Some(Some(s)) => if s == explicit_none_text() {
            FieldKind::ExplicitNone
        } else {
            FieldKind::Value
        },
        Some(None) => FieldKind::Value,
    }
}

/// What a field holding `d` says.
pub fn field_kind<T>(d: &DoubleOption<T>) -> (r: FieldKind)
    ensures
        r == kind_of(*d),
{
    match d {
        None => FieldKind::Unset,
        Some(ExplicitOption::Nothing(_)) => FieldKind::ExplicitNone,
        Some(ExplicitOption::Value(_)) => FieldKind::Value,
    }
}

/// Decides what a written field says: `None` when the field is left out,
/// `Some(Some(s))` when it holds the string `s`, `Some(None)` when it holds
/// another kind of value.
pub fn read_kind(written: Option<Option<&str>>) -> (r: FieldKind)
    ensures
        r == spec_read_kind(
            match written {
                None => None,
                Some(None) => Some(None),
                Some(Some(s)) => Some(Some(s@)),
            },
        ),
{
    match written {
        None => FieldKind::Unset,
        Some(None) => FieldKind::Value,
        Some(Some(s)) => match ExplicitNone::from_text(s) {
            Some(_) => FieldKind::ExplicitNone,
            None => FieldKind::Value,
        },
    }
}

/// The three states of a [`DoubleOption`] survive being written and read
/// back: unset stays unset, explicit none stays explicit none, and a value
/// stays a value, provided that the value itself is not written as the
/// string `"none"`.
pub proof fn lemma_double_option_round_trip<T>(d: DoubleOption<T>, value_form: Option<Seq<char>>)
    requires
        kind_of(d) == FieldKind::Value ==> value_form != Some(explicit_none_text()),
    ensures
        spec_read_kind(written_form(d, value_form)) == kind_of(d),
        d is None <==> written_form(d, value_form) is None,
{
}

} // verus!

//! IPP responses as the library reads them: attributes in the order they
//! arrived, each with its group, its name and its first value.

use vstd::prelude::*;

verus! {

/// The group an IPP attribute was sent in.
#[derive(Clone, Copy, Debug, PartialEq, Eq, Structural)]
pub enum IppGroup {
    Operation,
    Job,
    Printer,
    Unsupported,
    Subscription,
    EventNotification,
    Other,
}

/// One attribute of an IPP response. A nameless attribute is the separator
/// the IPP library puts between two groups.
#[derive(Clone, Debug)]
pub struct IppAttribute {
    /// The attribute's name; `None` for a group separator.
    pub name: Option<String>,
    /// The group the attribute belongs to.
    pub group: IppGroup,
    /// The first value read as a string, where it is one.
    pub text: Option<String>,
    /// The first value read as an integer (zero where it is none).
    pub integer: i32,
}

/// An attribute as plain values.
pub struct IppAttributeView {
    pub name: Option<Seq<char>>,
    pub group: IppGroup,
    pub text: Option<Seq<char>>,
    pub integer: i32,
}

pub open spec fn opt_view(s: Option<String>) -> Option<Seq<char>> {
    match s {
        Some(v) => Some(v@),
        None => None,
    }
}

/// A copy of an optional string.
pub fn copy_opt(s: &Option<String>) -> (r: Option<String>)
    ensures
        opt_view(r) == opt_view(*s),
{
    match s {
        Some(v) => Some(crate::text::string_of(crate::text::chars_of(v.as_str()))),
        None => None,
    }
}

/// Whether two optional strings are equal.
pub fn same_opt(a: &Option<String>, b: &Option<String>) -> (r: bool)
    ensures
        r == (opt_view(*a) == opt_view(*b)),
{
    match (a, b) {
        (Some(x), Some(y)) => crate::text::str_eq(x.as_str(), y.as_str()),
        (None, None) => true,
        _ => false,
    }
}

impl View for IppAttribute {
    type V = IppAttributeView;

    open spec fn view(&self) -> IppAttributeView {
        IppAttributeView {
            name: opt_view(self.name),
            group: self.group,
            text: opt_view(self.text),
            integer: self.integer,
        }
    }
}

/// The views of a list of attributes.
pub open spec fn attributes_view(attrs: Seq<IppAttribute>) -> Seq<IppAttributeView> {
    attrs.map_values(|a: IppAttribute| a@)
}

/// How an attribute value sent in a request is typed.
#[derive(Clone, Copy, Debug, PartialEq, Eq, Structural)]
pub enum ValueTag {
    Keyword,
    Uri,
    Name,
    Text,
}

/// One string attribute to send in a request.
#[derive(Clone, Debug, PartialEq, Eq)]
pub struct RequestAttribute {
    pub group: IppGroup,
    pub tag: ValueTag,
    pub name: &'static str,
    pub value: String,
}

/// A request attribute as plain values.
pub open spec fn request_attribute_view(a: RequestAttribute) -> (IppGroup, ValueTag, Seq<char>, Seq<char>) {
    (a.group, a.tag, a.name@, a.value@)
}

pub open spec fn request_view(attrs: Seq<RequestAttribute>) -> Seq<(IppGroup, ValueTag, Seq<char>, Seq<char>)> {
    attrs.map_values(|a: RequestAttribute| request_attribute_view(a))
}

} // verus!

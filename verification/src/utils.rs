//! Helpers for reading the attributes of a proxy declaration.
//!
//! The attributes are given as values of the types of this module, which hold
//! of an attribute what these helpers read: the identifier of its path, and the
//! meta item that its tokens spell.

use crate::ascii::bytes_eq;
use vstd::prelude::*;
use vstd::utf8::*;

verus! {

/// The upper-case form of an ASCII lower-case letter; any other character is
/// returned as it is.
pub open spec fn spec_ascii_upper(c: char) -> char {
    if 'a' <= c && c <= 'z' {
        ((c as u32) - 32) as char
    } else {
        c
    }
}

/// `snake_case` to `PascalCase`, read from the left: an underscore is dropped and
/// asks for the next character that is kept to be upper-cased; `capitalize` says
/// whether such a request is pending at the start of `s`.
pub open spec fn spec_pascal_from(s: Seq<char>, capitalize: bool) -> Seq<char>
    decreases s.len(),
{
    if s.len() == 0 {
        Seq::empty()
    } else if s[0] == '_' {
        spec_pascal_from(s.drop_first(), true)
    } else if capitalize {
        seq![spec_ascii_upper(s[0])] + spec_pascal_from(s.drop_first(), false)
    } else {
        seq![s[0]] + spec_pascal_from(s.drop_first(), false)
    }
}

/// The `PascalCase` form of a `snake_case` name.
pub open spec fn spec_pascal_case(s: Seq<char>) -> Seq<char> {
    spec_pascal_from(s, true)
}

/// `char::to_ascii_uppercase` maps the letters `a` to `z` onto `A` to `Z` and
/// leaves every other character unchanged.
pub assume_specification[ char::to_ascii_uppercase ](c: &char) -> (r: char)
    ensures
        r == spec_ascii_upper(*c),
;

/// Converts a `snake_case` name to `PascalCase`.
pub fn pascal_case(s: &str) -> (pascal: String)
    ensures
        pascal@ == spec_pascal_case(s@),
{
    let mut pascal = String::new();
    let mut capitalize = true;
    assert(s@.skip(0) == s@);
    assert(pascal@ + spec_pascal_from(s@, true) == spec_pascal_from(s@, true));
    for ch in it: s.chars()
        invariant
            it.seq() == s@,
            pascal@ + spec_pascal_from(s@.skip(it.index() as int), capitalize) == spec_pascal_case(s@),
    {
        proof {
            let rest = s@.skip(it.index() as int);
            assert(rest[0] == ch);
            assert(rest.drop_first() == s@.skip(it.index() + 1));
        }
        if ch == '_' {
            capitalize = true;
        } else if capitalize {
            pascal.push(ch.to_ascii_uppercase());
            capitalize = false;
        } else {
            pascal.push(ch);
        }
    }
    pascal
}

/// One attribute given on an item of a proxy declaration.
#[derive(Debug, PartialEq)]
pub enum ItemAttribute {
    Property,
    Name(String),
}

impl ItemAttribute {
    /// Whether this attribute marks the item as a property.
    pub fn is_property(&self) -> (r: bool)
        ensures
            r == (*self is Property),
    {
        match self {
            Self::Property => true,
            _ => false,
        }
    }
}

/// Whether two texts are the same.
pub fn str_eq(a: &str, b: &str) -> (r: bool)
    ensures
        r == (a@ == b@),
{
    proof {
        encode_utf8_decode_utf8(a@);
        encode_utf8_decode_utf8(b@);
    }
    bytes_eq(a.as_bytes(), b.as_bytes())
}

/// Why the tokens of an attribute do not spell a meta item.
#[derive(Debug, Clone, PartialEq)]
pub struct ParseError {
    pub message: String,
}

/// The path of an attribute or of a meta item: its identifier, where the path
/// is a single identifier.
#[derive(Debug, Clone, PartialEq)]
pub struct Path {
    pub ident: Option<String>,
}

/// A literal: its text, where it is a string literal.
#[derive(Debug, Clone, PartialEq)]
pub enum Lit {
    Str(String),
    Other,
}

/// A list of meta items under a path, as in `name(a, b = "c")`.
#[derive(Debug)]
pub struct MetaList {
    pub path: Path,
    pub nested: Vec<NestedMeta>,
}

/// A literal under a path, as in `name = "value"`.
#[derive(Debug, Clone, PartialEq)]
pub struct MetaNameValue {
    pub path: Path,
    pub lit: Lit,
}

/// A meta item.
#[derive(Debug)]
pub enum Meta {
    Path(Path),
    List(MetaList),
    NameValue(MetaNameValue),
}

/// An element of a list of meta items.
#[derive(Debug)]
pub enum NestedMeta {
    Meta(Meta),
    Lit(Lit),
}

/// An attribute: its path, and the meta item that its tokens spell or the
/// reason why they spell none.
#[derive(Debug)]
pub struct Attribute {
    pub path: Path,
    pub meta: Result<Meta, ParseError>,
}

impl Path {
    /// Whether the path is the single identifier `name`.
    pub open spec fn spec_is_ident(&self, name: Seq<char>) -> bool {
        self.ident matches Some(s) && s@ == name
    }

    /// Whether the path is the single identifier `name`.
    pub fn is_ident(&self, name: &str) -> (r: bool)
        ensures
            r == self.spec_is_ident(name@),
    {
        match &self.ident {
            Some(s) => str_eq(s.as_str(), name),
            None => false,
        }
    }
}

/// The attributes whose path is the identifier `name`, in their order.
pub open spec fn spec_select_attrs(attrs: Seq<Attribute>, name: Seq<char>) -> Seq<Attribute>
    decreases attrs.len(),
{
    if attrs.len() == 0 {
        Seq::empty()
    } else if attrs.last().path.spec_is_ident(name) {
        spec_select_attrs(attrs.drop_last(), name).push(attrs.last())
    } else {
        spec_select_attrs(attrs.drop_last(), name)
    }
}

/// The first attribute whose path is the identifier `name`.
pub open spec fn spec_find_attr(attrs: Seq<Attribute>, name: Seq<char>) -> Option<Attribute>
    decreases attrs.len(),
{
    if attrs.len() == 0 {
        None
    } else if attrs[0].path.spec_is_ident(name) {
        Some(attrs[0])
    } else {
        spec_find_attr(attrs.drop_first(), name)
    }
}

/// The values that references refer to.
pub open spec fn spec_referents(refs: Seq<&Attribute>) -> Seq<Attribute> {
    Seq::new(refs.len(), |i: int| *refs[i])
}

/// The documentation attributes among `attrs`.
pub fn get_doc_attrs(attrs: &[Attribute]) -> (docs: Vec<&Attribute>)
    ensures
        spec_referents(docs@) == spec_select_attrs(attrs@, "doc"@),
{
    let mut docs: Vec<&Attribute> = Vec::new();
    let mut i: usize = 0;
    assert(attrs@.take(0) == Seq::<Attribute>::empty());
    assert(spec_referents(docs@) == Seq::<Attribute>::empty());
    while i < attrs.len()
        invariant
            i <= attrs@.len(),
            spec_referents(docs@) == spec_select_attrs(attrs@.take(i as int), "doc"@),
        decreases attrs@.len() - i,
    {
        proof {
            assert(attrs@.take(i + 1).drop_last() == attrs@.take(i as int));
            assert(attrs@.take(i + 1).last() == attrs@[i as int]);
        }
        if attrs[i].path.is_ident("doc") {
            let ghost before = spec_referents(docs@);
            docs.push(&attrs[i]);
            assert(spec_referents(docs@) == before.push(attrs@[i as int]));
        }
        i = i + 1;
    }
    assert(attrs@.take(i as int) == attrs@);
    docs
}

/// Whether the meta item of the attribute named `attr_name` can be looked for:
/// the first attribute of that name, if its tokens spell a meta item, spells a
/// list.
pub open spec fn spec_can_find_meta(attrs: Seq<Attribute>, attr_name: Seq<char>) -> bool {
    spec_find_attr(attrs, attr_name) matches Some(a) ==> (a.meta matches Ok(m) ==> m is List)
}

/// What looking for the meta item of the attribute named `attr_name` gives:
/// nothing where no attribute has that name; otherwise the list that the first
/// such attribute spells, or the reason why its tokens spell no meta item.
pub open spec fn spec_find_attribute_meta(attrs: Seq<Attribute>, attr_name: Seq<char>) -> Result<
    Option<MetaList>,
    ParseError,
> {
    match spec_find_attr(attrs, attr_name) {
        None => Ok(None),
        Some(a) => match a.meta {
            Ok(Meta::List(list)) => Ok(Some(list)),
            Ok(_) => Ok(None),
            Err(e) => Err(e),
        },
    }
}

/// The first attribute whose path is the identifier `name`.
fn find_attr<'a>(attrs: &'a [Attribute], name: &str) -> (r: Option<&'a Attribute>)
    ensures
        match spec_find_attr(attrs@, name@) {
            Some(a) => r == Some(&a),
            None => r is None,
        },
{
    let mut i: usize = 0;
    assert(attrs@.skip(0) == attrs@);
    while i < attrs.len()
        invariant
            i <= attrs@.len(),
            spec_find_attr(attrs@, name@) == spec_find_attr(attrs@.skip(i as int), name@),
        decreases attrs@.len() - i,
    {
        proof {
            assert(attrs@.skip(i as int)[0] == attrs@[i as int]);
            assert(attrs@.skip(i as int).drop_first() == attrs@.skip(i + 1));
        }
        if attrs[i].path.is_ident(name) {
            return Some(&attrs[i]);
        }
        i = i + 1;
    }
    assert(attrs@.skip(i as int).len() == 0);
    None
}

/// Whether the meta item of the attribute named `attr_name` can be looked for.
pub fn can_find_attribute_meta(attrs: &[Attribute], attr_name: &str) -> (r: bool)
    ensures
        r == spec_can_find_meta(attrs@, attr_name@),
{
    match find_attr(attrs, attr_name) {
        Some(a) => match &a.meta {
            Ok(Meta::List(_)) => true,
            Ok(_) => false,
            Err(_) => true,
        },
        None => true,
    }
}

/// Finds the attribute named `attr_name` and hands out the list of meta items
/// that it spells.
pub fn find_attribute_meta<'a>(attrs: &'a [Attribute], attr_name: &str) -> (r: Result<
    Option<&'a MetaList>,
    &'a ParseError,
>)
    requires
        spec_can_find_meta(attrs@, attr_name@),
    ensures
        match spec_find_attribute_meta(attrs@, attr_name@) {
            Ok(Some(list)) => r == Ok::<Option<&MetaList>, &ParseError>(Some(&list)),
            Ok(None) => r == Ok::<Option<&MetaList>, &ParseError>(None),
            Err(e) => r == Err::<Option<&MetaList>, &ParseError>(&e),
        },
{
    let meta: &Result<Meta, ParseError> = match find_attr(attrs, attr_name) {
        Some(a) => &a.meta,
        None => {
            return Ok(None);
        },
    };
    match meta {
        Ok(Meta::List(list)) => Ok(Some(list)),
        Ok(_) => Ok(None),
        Err(e) => Err(e),
    }
}

/// The name and the value that a meta item of the form `name` or
/// `name = "value"` gives; a bare name has the empty value.
pub open spec fn spec_parse_attribute(meta: NestedMeta) -> Option<(Seq<char>, Seq<char>)> {
    match meta {
        NestedMeta::Meta(Meta::Path(p)) => match p.ident {
            Some(name) => Some((name@, Seq::empty())),
            None => None,
        },
        NestedMeta::Meta(Meta::NameValue(nv)) => match (nv.path.ident, nv.lit) {
            (Some(name), Lit::Str(value)) => Some((name@, value@)),
            _ => None,
        },
        _ => None,
    }
}

/// Whether a meta item has the form `name` or `name = "value"`.
pub fn can_parse_attribute(meta: &NestedMeta) -> (r: bool)
    ensures
        r == spec_parse_attribute(*meta) is Some,
{
    match meta {
        NestedMeta::Meta(Meta::Path(p)) => p.ident.is_some(),
        NestedMeta::Meta(Meta::NameValue(nv)) => match (&nv.path.ident, &nv.lit) {
            (Some(_), Lit::Str(_)) => true,
            _ => false,
        },
        _ => false,
    }
}

/// Reads a meta item of the form `name` or `name = "value"`.
pub fn parse_attribute(meta: &NestedMeta) -> (r: Result<(String, String), ParseError>)
    requires
        spec_parse_attribute(*meta) is Some,
    ensures
        r matches Ok((name, value)) && Some((name@, value@)) == spec_parse_attribute(*meta),
{
    match meta {
        NestedMeta::Meta(Meta::Path(p)) => match &p.ident {
            Some(name) => Ok((name.clone(), String::new())),
            None => Ok((String::new(), String::new())),
        },
        NestedMeta::Meta(Meta::NameValue(nv)) => match (&nv.path.ident, &nv.lit) {
            (Some(name), Lit::Str(value)) => Ok((name.clone(), value.clone())),
            _ => Ok((String::new(), String::new())),
        },
        _ => Ok((String::new(), String::new())),
    }
}

/// One attribute given on an item of a proxy declaration, as a mathematical
/// value.
pub enum ItemAttributeView {
    Property,
    Name(Seq<char>),
}

impl View for ItemAttribute {
    type V = ItemAttributeView;

    open spec fn view(&self) -> ItemAttributeView {
        match self {
            ItemAttribute::Property => ItemAttributeView::Property,
            ItemAttribute::Name(s) => ItemAttributeView::Name(s@),
        }
    }
}

/// The attribute of an item that a meta item spells: `name = "value"` gives the
/// item a name, `property` marks it as a property.
pub open spec fn spec_parse_item_attribute(meta: NestedMeta) -> Option<ItemAttributeView> {
    match spec_parse_attribute(meta) {
        Some((name, value)) => if name == "name"@ {
            Some(ItemAttributeView::Name(value))
        } else if name == "property"@ {
            Some(ItemAttributeView::Property)
        } else {
            None
        },
        None => None,
    }
}

/// Whether a meta item spells an attribute of an item.
pub fn can_parse_item_attribute(meta: &NestedMeta) -> (r: bool)
    ensures
        r == spec_parse_item_attribute(*meta) is Some,
{
    if !can_parse_attribute(meta) {
        return false;
    }
    match parse_attribute(meta) {
        Ok((name, _)) => str_eq(name.as_str(), "name") || str_eq(name.as_str(), "property"),
        Err(_) => false,
    }
}

/// Reads the attribute of an item that a meta item spells.
pub fn parse_item_attribute(meta: &NestedMeta) -> (r: Result<ItemAttribute, ParseError>)
    requires
        spec_parse_item_attribute(*meta) is Some,
    ensures
        r matches Ok(a) && Some(a@) == spec_parse_item_attribute(*meta),
{
    match parse_attribute(meta) {
        Ok((name, value)) => {
            if str_eq(name.as_str(), "name") {
                Ok(ItemAttribute::Name(value))
            } else {
                Ok(ItemAttribute::Property)
            }
        },
        Err(e) => Err(e),
    }
}

/// Whether every meta item of a list spells an attribute of an item.
pub open spec fn spec_all_item_attributes(nested: Seq<NestedMeta>) -> bool {
    forall|i: int| 0 <= i < nested.len() ==> spec_parse_item_attribute(#[trigger] nested[i]) is Some
}

/// Whether the attributes of an item can be read from `attrs`: the meta item of
/// the attribute `dbus_proxy` can be looked for, and every meta item of its
/// list spells an attribute of an item.
pub open spec fn spec_can_parse_item_attributes(attrs: Seq<Attribute>) -> bool {
    &&& spec_can_find_meta(attrs, "dbus_proxy"@)
    &&& spec_find_attribute_meta(attrs, "dbus_proxy"@) matches Ok(Some(list))
        ==> spec_all_item_attributes(list.nested@)
}

/// Whether the attributes of an item can be read from `attrs`.
pub fn can_parse_item_attributes(attrs: &[Attribute]) -> (r: bool)
    ensures
        r == spec_can_parse_item_attributes(attrs@),
{
    if !can_find_attribute_meta(attrs, "dbus_proxy") {
        return false;
    }
    match find_attribute_meta(attrs, "dbus_proxy") {
        Ok(Some(list)) => {
            let mut i: usize = 0;
            while i < list.nested.len()
                invariant
                    i <= list.nested@.len(),
                    spec_can_find_meta(attrs@, "dbus_proxy"@),
                    spec_find_attribute_meta(attrs@, "dbus_proxy"@) == Ok::<
                        Option<MetaList>,
                        ParseError,
                    >(Some(*list)),
                    forall|j: int|
                        0 <= j < i ==> spec_parse_item_attribute(#[trigger] list.nested@[j])
                            is Some,
                decreases list.nested@.len() - i,
            {
                if !can_parse_item_attribute(&list.nested[i]) {
                    assert(!(spec_parse_item_attribute(list.nested@[i as int]) is Some));
                    return false;
                }
                i = i + 1;
            }
            true
        },
        _ => true,
    }
}

/// The attributes of an item as mathematical values.
pub open spec fn spec_item_views(items: Seq<ItemAttribute>) -> Seq<ItemAttributeView> {
    Seq::new(items.len(), |i: int| items[i]@)
}

/// The attributes that the meta items of a list spell.
pub open spec fn spec_item_attributes(nested: Seq<NestedMeta>) -> Seq<ItemAttributeView> {
    Seq::new(nested.len(), |i: int| spec_parse_item_attribute(nested[i]).unwrap())
}

/// Reads the attributes of an item, such as `#[dbus_proxy(name = "MyName",
/// property)]`: the attributes that the list of the attribute `dbus_proxy`
/// spells, none where there is no such attribute, and the reason why its tokens
/// spell no meta item where they do not.
pub fn parse_item_attributes(attrs: &[Attribute]) -> (r: Result<Vec<ItemAttribute>, ParseError>)
    requires
        spec_can_parse_item_attributes(attrs@),
    ensures
        match spec_find_attribute_meta(attrs@, "dbus_proxy"@) {
            Ok(Some(list)) => r matches Ok(items) && spec_item_views(items@)
                == spec_item_attributes(list.nested@),
            Ok(None) => r matches Ok(items) && items@.len() == 0,
            Err(e) => r matches Err(x) && x.message@ == e.message@,
        },
{
    match find_attribute_meta(attrs, "dbus_proxy") {
        Ok(Some(list)) => {
            let mut items: Vec<ItemAttribute> = Vec::new();
            let mut i: usize = 0;
            while i < list.nested.len()
                invariant
                    i <= list.nested@.len(),
                    spec_all_item_attributes(list.nested@),
                    items@.len() == i,
                    forall|j: int|
                        0 <= j < i ==> Some((#[trigger] items@[j])@) == spec_parse_item_attribute(
                            list.nested@[j],
                        ),
                decreases list.nested@.len() - i,
            {
                match parse_item_attribute(&list.nested[i]) {
                    Ok(item) => {
                        items.push(item);
                    },
                    Err(e) => {
                        return Err(e);
                    },
                }
                i = i + 1;
            }
            assert(spec_item_views(items@) =~= spec_item_attributes(list.nested@));
            Ok(items)
        },
        Ok(None) => Ok(Vec::new()),
        Err(e) => Err(ParseError { message: e.message.clone() }),
    }
}

} // verus!

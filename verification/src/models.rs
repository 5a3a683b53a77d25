//! The manifest that a console offers: the items that can be copied from it,
//! and the members under which each item goes over the wire.

use vstd::prelude::*;
use vstd::string::*;
use crate::error::Error;
use crate::text::to_chars;

verus! {

/// A member of an item on the wire.
#[derive(Debug, Clone, Copy, PartialEq, Eq, Structural)]
pub enum Field {
    Type,
    HasContentId,
    IsXvc,
    ContentId,
    ProductId,
    PackageFamilyName,
    OneStoreProductId,
    Version,
    Size,
    AllowedProductId,
    AllowedPackageFamilyName,
    Path,
    Availability,
    Generation,
    RelatedMedia,
    RelatedMediaFamilyNames,
}

/// The value of a member on the wire.
#[derive(Debug)]
pub enum Value {
    Bool(bool),
    Number(usize),
    Text(String),
    TextList(Vec<String>),
    /// Anything else: null, a fraction, a negative number, a nested value.
    Other,
}

/// A value as plain data.
pub enum ValueView {
    Bool(bool),
    Number(usize),
    Text(Seq<char>),
    TextList(Seq<Seq<char>>),
    Other,
}

/// The texts of a list as plain data.
pub open spec fn texts(list: Seq<String>) -> Seq<Seq<char>> {
    Seq::new(list.len(), |i: int| list[i]@)
}

impl View for Value {
    type V = ValueView;

    open spec fn view(&self) -> ValueView {
        match self {
            Value::Bool(b) => ValueView::Bool(*b),
            Value::Number(n) => ValueView::Number(*n),
            Value::Text(t) => ValueView::Text(t@),
            Value::TextList(l) => ValueView::TextList(texts(l@)),
            Value::Other => ValueView::Other,
        }
    }
}

/// The view of a member that may be absent.
pub open spec fn member_view(member: Option<Value>) -> Option<ValueView> {
    match member {
        Some(v) => Some(v@),
        None => None,
    }
}

/// One item of the manifest.
#[derive(Debug)]
pub struct MetadataItem {
    pub typ: String,
    pub has_content_id: bool,
    pub is_xvc: Option<bool>,
    pub content_id: String,
    pub product_id: String,
    pub package_family_name: String,
    pub one_store_product_id: String,
    pub version: String,
    pub size: usize,
    pub allowed_product_id: String,
    pub allowed_package_family_name: String,
    /// The URL-encoded content key of the item, behind the content path.
    pub path: String,
    pub availability: String,
    pub generation: String,
    pub related_media: Vec<String>,
    pub related_media_family_names: Vec<String>,
}

/// An item as plain data.
pub struct MetadataItemView {
    pub typ: Seq<char>,
    pub has_content_id: bool,
    pub is_xvc: Option<bool>,
    pub content_id: Seq<char>,
    pub product_id: Seq<char>,
    pub package_family_name: Seq<char>,
    pub one_store_product_id: Seq<char>,
    pub version: Seq<char>,
    pub size: usize,
    pub allowed_product_id: Seq<char>,
    pub allowed_package_family_name: Seq<char>,
    pub path: Seq<char>,
    pub availability: Seq<char>,
    pub generation: Seq<char>,
    pub related_media: Seq<Seq<char>>,
    pub related_media_family_names: Seq<Seq<char>>,
}

impl View for MetadataItem {
    type V = MetadataItemView;

    open spec fn view(&self) -> MetadataItemView {
        MetadataItemView {
            typ: self.typ@,
            has_content_id: self.has_content_id,
            is_xvc: self.is_xvc,
            content_id: self.content_id@,
            product_id: self.product_id@,
            package_family_name: self.package_family_name@,
            one_store_product_id: self.one_store_product_id@,
            version: self.version@,
            size: self.size,
            allowed_product_id: self.allowed_product_id@,
            allowed_package_family_name: self.allowed_package_family_name@,
            path: self.path@,
            availability: self.availability@,
            generation: self.generation@,
            related_media: texts(self.related_media@),
            related_media_family_names: texts(self.related_media_family_names@),
        }
    }
}

/// An item as it goes over the wire: its members by name, each present or
/// absent, each of whatever kind the sender chose.
#[derive(Debug)]
pub struct WireItem {
    pub typ: Option<Value>,
    pub has_content_id: Option<Value>,
    pub is_xvc: Option<Value>,
    pub content_id: Option<Value>,
    pub product_id: Option<Value>,
    pub package_family_name: Option<Value>,
    pub one_store_product_id: Option<Value>,
    pub version: Option<Value>,
    pub size: Option<Value>,
    pub allowed_product_id: Option<Value>,
    pub allowed_package_family_name: Option<Value>,
    pub path: Option<Value>,
    pub availability: Option<Value>,
    pub generation: Option<Value>,
    pub related_media: Option<Value>,
    pub related_media_family_names: Option<Value>,
}

/// A wire item as plain data.
pub struct WireItemView {
    pub typ: Option<ValueView>,
    pub has_content_id: Option<ValueView>,
    pub is_xvc: Option<ValueView>,
    pub content_id: Option<ValueView>,
    pub product_id: Option<ValueView>,
    pub package_family_name: Option<ValueView>,
    pub one_store_product_id: Option<ValueView>,
    pub version: Option<ValueView>,
    pub size: Option<ValueView>,
    pub allowed_product_id: Option<ValueView>,
    pub allowed_package_family_name: Option<ValueView>,
    pub path: Option<ValueView>,
    pub availability: Option<ValueView>,
    pub generation: Option<ValueView>,
    pub related_media: Option<ValueView>,
    pub related_media_family_names: Option<ValueView>,
}

impl View for WireItem {
    type V = WireItemView;

    open spec fn view(&self) -> WireItemView {
        WireItemView {
            typ: member_view(self.typ),
            has_content_id: member_view(self.has_content_id),
            is_xvc: member_view(self.is_xvc),
            content_id: member_view(self.content_id),
            product_id: member_view(self.product_id),
            package_family_name: member_view(self.package_family_name),
            one_store_product_id: member_view(self.one_store_product_id),
            version: member_view(self.version),
            size: member_view(self.size),
            allowed_product_id: member_view(self.allowed_product_id),
            allowed_package_family_name: member_view(self.allowed_package_family_name),
            path: member_view(self.path),
            availability: member_view(self.availability),
            generation: member_view(self.generation),
            related_media: member_view(self.related_media),
            related_media_family_names: member_view(self.related_media_family_names),
        }
    }
}

/// The manifest: its items, in the order in which the console lists them.
#[derive(Debug)]
pub struct Metadata {
    pub items: Vec<MetadataItem>,
}

/// The name of a member on the wire.
pub open spec fn wire_name_text(field: Field) -> Seq<char> {
    match field {
        Field::Type => "type"@,
        Field::HasContentId => "hasContentId"@,
        Field::IsXvc => "isXvc"@,
        Field::ContentId => "contentId"@,
        Field::ProductId => "productId"@,
        Field::PackageFamilyName => "packageFamilyName"@,
        Field::OneStoreProductId => "oneStoreProductId"@,
        Field::Version => "version"@,
        Field::Size => "size"@,
        Field::AllowedProductId => "allowedProductId"@,
        Field::AllowedPackageFamilyName => "allowedPackageFamilyName"@,
        Field::Path => "path"@,
        Field::Availability => "availability"@,
        Field::Generation => "generation"@,
        Field::RelatedMedia => "relatedMedia"@,
        Field::RelatedMediaFamilyNames => "relatedMediaFamilyNames"@,
    }
}

/// What is wrong with a member that must be a text, if anything.
pub open spec fn text_fault(member: Option<ValueView>, field: Field) -> Option<Error> {
    match member {
        None => Some(Error::MissingField(field)),
        Some(ValueView::Text(_)) => None,
        Some(_) => Some(Error::InvalidField(field)),
    }
}

/// What is wrong with a member that must be a boolean, if anything.
pub open spec fn bool_fault(member: Option<ValueView>, field: Field) -> Option<Error> {
    match member {
        None => Some(Error::MissingField(field)),
        Some(ValueView::Bool(_)) => None,
        Some(_) => Some(Error::InvalidField(field)),
    }
}

/// What is wrong with a member that is a boolean where it is present, if
/// anything.
pub open spec fn opt_bool_fault(member: Option<ValueView>, field: Field) -> Option<Error> {
    match member {
        None => None,
        Some(ValueView::Bool(_)) => None,
        Some(_) => Some(Error::InvalidField(field)),
    }
}

/// What is wrong with a member that must be a number, if anything.
pub open spec fn number_fault(member: Option<ValueView>, field: Field) -> Option<Error> {
    match member {
        None => Some(Error::MissingField(field)),
        Some(ValueView::Number(_)) => None,
        Some(_) => Some(Error::InvalidField(field)),
    }
}

/// What is wrong with a member that must be a list of texts, if anything.
pub open spec fn list_fault(member: Option<ValueView>, field: Field) -> Option<Error> {
    match member {
        None => Some(Error::MissingField(field)),
        Some(ValueView::TextList(_)) => None,
        Some(_) => Some(Error::InvalidField(field)),
    }
}

/// The first member of a wire item, in the order of the schema, that is
/// missing or of the wrong kind.
pub open spec fn wire_fault(w: WireItemView) -> Option<Error> {
    if text_fault(w.typ, Field::Type) is Some {
        text_fault(w.typ, Field::Type)
    } else if bool_fault(w.has_content_id, Field::HasContentId) is Some {
        bool_fault(w.has_content_id, Field::HasContentId)
    } else if opt_bool_fault(w.is_xvc, Field::IsXvc) is Some {
        opt_bool_fault(w.is_xvc, Field::IsXvc)
    } else if text_fault(w.content_id, Field::ContentId) is Some {
        text_fault(w.content_id, Field::ContentId)
    } else if text_fault(w.product_id, Field::ProductId) is Some {
        text_fault(w.product_id, Field::ProductId)
    } else if text_fault(w.package_family_name, Field::PackageFamilyName) is Some {
        text_fault(w.package_family_name, Field::PackageFamilyName)
    } else if text_fault(w.one_store_product_id, Field::OneStoreProductId) is Some {
        text_fault(w.one_store_product_id, Field::OneStoreProductId)
    } else if text_fault(w.version, Field::Version) is Some {
        text_fault(w.version, Field::Version)
    } else if number_fault(w.size, Field::Size) is Some {
        number_fault(w.size, Field::Size)
    } else if text_fault(w.allowed_product_id, Field::AllowedProductId) is Some {
        text_fault(w.allowed_product_id, Field::AllowedProductId)
    } else if text_fault(w.allowed_package_family_name, Field::AllowedPackageFamilyName) is Some {
        text_fault(w.allowed_package_family_name, Field::AllowedPackageFamilyName)
    } else if text_fault(w.path, Field::Path) is Some {
        text_fault(w.path, Field::Path)
    } else if text_fault(w.availability, Field::Availability) is Some {
        text_fault(w.availability, Field::Availability)
    } else if text_fault(w.generation, Field::Generation) is Some {
        text_fault(w.generation, Field::Generation)
    } else if list_fault(w.related_media, Field::RelatedMedia) is Some {
        list_fault(w.related_media, Field::RelatedMedia)
    } else {
        list_fault(w.related_media_family_names, Field::RelatedMediaFamilyNames)
    }
}

/// The text of a member, or the empty text where it is none.
pub open spec fn text_of(member: Option<ValueView>) -> Seq<char> {
    match member {
        Some(ValueView::Text(t)) => t,
        _ => Seq::empty(),
    }
}

/// The boolean of a member, where it is one.
pub open spec fn bool_of(member: Option<ValueView>) -> Option<bool> {
    match member {
        Some(ValueView::Bool(b)) => Some(b),
        _ => None,
    }
}

/// The number of a member, or 0 where it is none.
pub open spec fn number_of(member: Option<ValueView>) -> usize {
    match member {
        Some(ValueView::Number(n)) => n,
        _ => 0,
    }
}

/// The list of a member, or the empty list where it is none.
pub open spec fn list_of(member: Option<ValueView>) -> Seq<Seq<char>> {
    match member {
        Some(ValueView::TextList(l)) => l,
        _ => Seq::empty(),
    }
}

/// The item that a wire item denotes, or the first fault in it.
pub open spec fn decode_item(w: WireItemView) -> Result<MetadataItemView, Error> {
    match wire_fault(w) {
        Some(e) => Err(e),
        None => Ok(
            MetadataItemView {
                typ: text_of(w.typ),
                has_content_id: bool_of(w.has_content_id) == Some(true),
                is_xvc: bool_of(w.is_xvc),
                content_id: text_of(w.content_id),
                product_id: text_of(w.product_id),
                package_family_name: text_of(w.package_family_name),
                one_store_product_id: text_of(w.one_store_product_id),
                version: text_of(w.version),
                size: number_of(w.size),
                allowed_product_id: text_of(w.allowed_product_id),
                allowed_package_family_name: text_of(w.allowed_package_family_name),
                path: text_of(w.path),
                availability: text_of(w.availability),
                generation: text_of(w.generation),
                related_media: list_of(w.related_media),
                related_media_family_names: list_of(w.related_media_family_names),
            },
        ),
    }
}

/// The wire item of an item: every member present but an absent optional one.
pub open spec fn encode_item(item: MetadataItemView) -> WireItemView {
    WireItemView {
        typ: Some(ValueView::Text(item.typ)),
        has_content_id: Some(ValueView::Bool(item.has_content_id)),
        is_xvc: match item.is_xvc {
            Some(b) => Some(ValueView::Bool(b)),
            None => None,
        },
        content_id: Some(ValueView::Text(item.content_id)),
        product_id: Some(ValueView::Text(item.product_id)),
        package_family_name: Some(ValueView::Text(item.package_family_name)),
        one_store_product_id: Some(ValueView::Text(item.one_store_product_id)),
        version: Some(ValueView::Text(item.version)),
        size: Some(ValueView::Number(item.size)),
        allowed_product_id: Some(ValueView::Text(item.allowed_product_id)),
        allowed_package_family_name: Some(ValueView::Text(item.allowed_package_family_name)),
        path: Some(ValueView::Text(item.path)),
        availability: Some(ValueView::Text(item.availability)),
        generation: Some(ValueView::Text(item.generation)),
        related_media: Some(ValueView::TextList(item.related_media)),
        related_media_family_names: Some(ValueView::TextList(item.related_media_family_names)),
    }
}

/// Decoding what was encoded gives the item back, member for member.
pub proof fn lemma_item_round_trip(item: MetadataItemView)
    ensures
        decode_item(encode_item(item)) == Ok::<MetadataItemView, Error>(item),
{
}

/// The items that a list of wire items denotes, in their order, or the fault
/// of the first item that has one.
pub open spec fn decode_items(list: Seq<WireItemView>) -> Result<Seq<MetadataItemView>, Error>
    decreases list.len(),
{
    if list.len() == 0 {
        Ok(Seq::empty())
    } else {
        match decode_items(list.drop_last()) {
            Err(e) => Err(e),
            Ok(items) => match decode_item(list.last()) {
                Err(e) => Err(e),
                Ok(item) => Ok(items.push(item)),
            },
        }
    }
}

/// The wire items of a list of items, in their order.
pub open spec fn encode_items(items: Seq<MetadataItemView>) -> Seq<WireItemView> {
    Seq::new(items.len(), |i: int| encode_item(items[i]))
}

/// The items of a list as plain data.
pub open spec fn item_views(items: Seq<MetadataItem>) -> Seq<MetadataItemView> {
    Seq::new(items.len(), |i: int| items[i]@)
}

/// The wire items of a list as plain data.
pub open spec fn wire_views(list: Seq<WireItem>) -> Seq<WireItemView> {
    Seq::new(list.len(), |i: int| list[i]@)
}

/// Decoding an encoded manifest gives its items back, in their order.
pub proof fn lemma_manifest_round_trip(items: Seq<MetadataItemView>)
    ensures
        decode_items(encode_items(items)) == Ok::<Seq<MetadataItemView>, Error>(items),
    decreases items.len(),
{
    let list = encode_items(items);
    if items.len() > 0 {
        lemma_manifest_round_trip(items.drop_last());
        assert(list.drop_last() =~= encode_items(items.drop_last()));
        lemma_item_round_trip(items.last());
        assert(items.drop_last().push(items.last()) =~= items);
    } else {
        assert(items =~= Seq::empty());
    }
}

fn copy_texts(list: &Vec<String>) -> (r: Vec<String>)
    ensures
        texts(r@) == texts(list@),
{
    let mut r: Vec<String> = Vec::new();
    let mut i: usize = 0;
    while i < list.len()
        invariant
            i <= list.len(),
            r@.len() == i,
            forall|j: int| 0 <= j < i ==> r@[j]@ == list@[j]@,
        decreases list.len() - i,
    {
        r.push(list[i].clone());
        i = i + 1;
    }
    proof {
        assert(texts(r@) =~= texts(list@));
    }
    r
}

fn text_member(member: &Option<Value>, field: Field) -> (r: Result<String, Error>)
    ensures
        match text_fault(member_view(*member), field) {
            Some(e) => r == Err::<String, Error>(e),
            None => r is Ok && r->Ok_0@ == text_of(member_view(*member)),
        },
{
    match member {
        None => Err(Error::MissingField(field)),
        Some(Value::Text(t)) => Ok(t.clone()),
        Some(_) => Err(Error::InvalidField(field)),
    }
}

fn bool_member(member: &Option<Value>, field: Field) -> (r: Result<bool, Error>)
    ensures
        match bool_fault(member_view(*member), field) {
            Some(e) => r == Err::<bool, Error>(e),
            None => r is Ok && Some(r->Ok_0) == bool_of(member_view(*member)),
        },
{
    match member {
        None => Err(Error::MissingField(field)),
        Some(Value::Bool(b)) => Ok(*b),
        Some(_) => Err(Error::InvalidField(field)),
    }
}

fn opt_bool_member(member: &Option<Value>, field: Field) -> (r: Result<Option<bool>, Error>)
    ensures
        match opt_bool_fault(member_view(*member), field) {
            Some(e) => r == Err::<Option<bool>, Error>(e),
            None => r is Ok && r->Ok_0 == bool_of(member_view(*member)),
        },
{
    match member {
        None => Ok(None),
        Some(Value::Bool(b)) => Ok(Some(*b)),
        Some(_) => Err(Error::InvalidField(field)),
    }
}

fn number_member(member: &Option<Value>, field: Field) -> (r: Result<usize, Error>)
    ensures
        match number_fault(member_view(*member), field) {
            Some(e) => r == Err::<usize, Error>(e),
            None => r is Ok && r->Ok_0 == number_of(member_view(*member)),
        },
{
    match member {
        None => Err(Error::MissingField(field)),
        Some(Value::Number(n)) => Ok(*n),
        Some(_) => Err(Error::InvalidField(field)),
    }
}

fn list_member(member: &Option<Value>, field: Field) -> (r: Result<Vec<String>, Error>)
    ensures
        match list_fault(member_view(*member), field) {
            Some(e) => r == Err::<Vec<String>, Error>(e),
            None => r is Ok && texts(r->Ok_0@) == list_of(member_view(*member)),
        },
{
    match member {
        None => Err(Error::MissingField(field)),
        Some(Value::TextList(l)) => Ok(copy_texts(l)),
        Some(_) => Err(Error::InvalidField(field)),
    }
}

impl Field {
    /// The name of the member on the wire.
    pub fn wire_name(self) -> (name: &'static str)
        ensures
            name@ == wire_name_text(self),
    {
        match self {
            Field::Type => "type",
            Field::HasContentId => "hasContentId",
            Field::IsXvc => "isXvc",
            Field::ContentId => "contentId",
            Field::ProductId => "productId",
            Field::PackageFamilyName => "packageFamilyName",
            Field::OneStoreProductId => "oneStoreProductId",
            Field::Version => "version",
            Field::Size => "size",
            Field::AllowedProductId => "allowedProductId",
            Field::AllowedPackageFamilyName => "allowedPackageFamilyName",
            Field::Path => "path",
            Field::Availability => "availability",
            Field::Generation => "generation",
            Field::RelatedMedia => "relatedMedia",
            Field::RelatedMediaFamilyNames => "relatedMediaFamilyNames",
        }
    }
}

impl MetadataItem {
    /// The item as it goes over the wire.
    pub fn encode(&self) -> (w: WireItem)
        ensures
            w@ == encode_item(self@),
    {
        WireItem {
            typ: Some(Value::Text(self.typ.clone())),
            has_content_id: Some(Value::Bool(self.has_content_id)),
            is_xvc: match self.is_xvc {
                Some(b) => Some(Value::Bool(b)),
                None => None,
            },
            content_id: Some(Value::Text(self.content_id.clone())),
            product_id: Some(Value::Text(self.product_id.clone())),
            package_family_name: Some(Value::Text(self.package_family_name.clone())),
            one_store_product_id: Some(Value::Text(self.one_store_product_id.clone())),
            version: Some(Value::Text(self.version.clone())),
            size: Some(Value::Number(self.size)),
            allowed_product_id: Some(Value::Text(self.allowed_product_id.clone())),
            allowed_package_family_name: Some(Value::Text(self.allowed_package_family_name.clone())),
            path: Some(Value::Text(self.path.clone())),
            availability: Some(Value::Text(self.availability.clone())),
            generation: Some(Value::Text(self.generation.clone())),
            related_media: Some(Value::TextList(copy_texts(&self.related_media))),
            related_media_family_names: Some(Value::TextList(copy_texts(&self.related_media_family_names))),
        }
    }

    /// The item that a wire item denotes. It fails on the first member, in
    /// the order of the schema, that is missing or of the wrong kind; only
    /// `isXvc` may be missing.
    pub fn decode(w: &WireItem) -> (r: Result<MetadataItem, Error>)
        ensures
            match decode_item(w@) {
                Ok(item) => r is Ok && r->Ok_0@ == item,
                Err(e) => r == Err::<MetadataItem, Error>(e),
            },
    {
        let typ = match text_member(&w.typ, Field::Type) {
            Ok(v) => v,
            Err(e) => {
                return Err(e);
            },
        };
        let has_content_id = match bool_member(&w.has_content_id, Field::HasContentId) {
            Ok(v) => v,
            Err(e) => {
                return Err(e);
            },
        };
        let is_xvc = match opt_bool_member(&w.is_xvc, Field::IsXvc) {
            Ok(v) => v,
            Err(e) => {
                return Err(e);
            },
        };
        let content_id = match text_member(&w.content_id, Field::ContentId) {
            Ok(v) => v,
            Err(e) => {
                return Err(e);
            },
        };
        let product_id = match text_member(&w.product_id, Field::ProductId) {
            Ok(v) => v,
            Err(e) => {
                return Err(e);
            },
        };
        let package_family_name = match text_member(&w.package_family_name, Field::PackageFamilyName) {
            Ok(v) => v,
            Err(e) => {
                return Err(e);
            },
        };
        let one_store_product_id = match text_member(&w.one_store_product_id, Field::OneStoreProductId) {
            Ok(v) => v,
            Err(e) => {
                return Err(e);
            },
        };
        let version = match text_member(&w.version, Field::Version) {
            Ok(v) => v,
            Err(e) => {
                return Err(e);
            },
        };
        let size = match number_member(&w.size, Field::Size) {
            Ok(v) => v,
            Err(e) => {
                return Err(e);
            },
        };
        let allowed_product_id = match text_member(&w.allowed_product_id, Field::AllowedProductId) {
            Ok(v) => v,
            Err(e) => {
                return Err(e);
            },
        };
        let allowed_package_family_name = match text_member(&w.allowed_package_family_name, Field::AllowedPackageFamilyName) {
            Ok(v) => v,
            Err(e) => {
                return Err(e);
            },
        };
        let path = match text_member(&w.path, Field::Path) {
            Ok(v) => v,
            Err(e) => {
                return Err(e);
            },
        };
        let availability = match text_member(&w.availability, Field::Availability) {
            Ok(v) => v,
            Err(e) => {
                return Err(e);
            },
        };
        let generation = match text_member(&w.generation, Field::Generation) {
            Ok(v) => v,
            Err(e) => {
                return Err(e);
            },
        };
        let related_media = match list_member(&w.related_media, Field::RelatedMedia) {
            Ok(v) => v,
            Err(e) => {
                return Err(e);
            },
        };
        let related_media_family_names = match list_member(&w.related_media_family_names, Field::RelatedMediaFamilyNames) {
            Ok(v) => v,
            Err(e) => {
                return Err(e);
            },
        };
        Ok(
            MetadataItem {
                typ,
                has_content_id,
                is_xvc,
                content_id,
                product_id,
                package_family_name,
                one_store_product_id,
                version,
                size,
                allowed_product_id,
                allowed_package_family_name,
                path,
                availability,
                generation,
                related_media,
                related_media_family_names,
            },
        )
    }
}

impl Metadata {
    /// The items of the manifest as they go over the wire, in their order.
    pub fn encode(&self) -> (list: Vec<WireItem>)
        ensures
            wire_views(list@) == encode_items(item_views(self.items@)),
    {
        let mut list: Vec<WireItem> = Vec::new();
        let mut i: usize = 0;
        while i < self.items.len()
            invariant
                i <= self.items.len(),
                list@.len() == i,
                forall|j: int| 0 <= j < i ==> list@[j]@ == encode_item(self.items@[j]@),
            decreases self.items.len() - i,
        {
            list.push(self.items[i].encode());
            i = i + 1;
        }
        proof {
            assert(wire_views(list@) =~= encode_items(item_views(self.items@)));
        }
        list
    }

    /// The manifest that a list of wire items denotes, in their order. It
    /// fails with the fault of the first item that has one.
    pub fn decode(list: &Vec<WireItem>) -> (r: Result<Metadata, Error>)
        ensures
            match decode_items(wire_views(list@)) {
                Ok(items) => r is Ok && item_views(r->Ok_0.items@) == items,
                Err(e) => r == Err::<Metadata, Error>(e),
            },
    {
        let mut items: Vec<MetadataItem> = Vec::new();
        let mut i: usize = 0;
        proof {
            assert(wire_views(list@).take(0) =~= Seq::empty());
            assert(item_views(items@) =~= Seq::empty());
        }
        while i < list.len()
            invariant
                i <= list.len(),
                decode_items(wire_views(list@).take(i as int)) == Ok::<
                    Seq<MetadataItemView>,
                    Error,
                >(item_views(items@)),
            decreases list.len() - i,
        {
            let ghost upto = wire_views(list@).take(i + 1);
            proof {
                assert(upto.drop_last() =~= wire_views(list@).take(i as int));
                assert(upto.last() == list@[i as int]@);
            }
            match MetadataItem::decode(&list[i]) {
                Ok(item) => {
                    let ghost before = item_views(items@);
                    items.push(item);
                    proof {
                        assert(item_views(items@) =~= before.push(item@));
                    }
                },
                Err(e) => {
                    proof {
                        lemma_decode_items_fails_on(wire_views(list@), i + 1);
                    }
                    return Err(e);
                },
            }
            i = i + 1;
        }
        proof {
            assert(wire_views(list@).take(list.len() as int) =~= wire_views(list@));
        }
        Ok(Metadata { items })
    }
}

/// A list whose prefix fails to decode fails with the same fault.
proof fn lemma_decode_items_fails_on(list: Seq<WireItemView>, k: int)
    requires
        0 <= k <= list.len(),
        decode_items(list.take(k)) is Err,
    ensures
        decode_items(list) == decode_items(list.take(k)),
    decreases list.len(),
{
    if k == list.len() {
        assert(list.take(k) =~= list);
    } else {
        assert(list.drop_last().take(k) =~= list.take(k));
        lemma_decode_items_fails_on(list.drop_last(), k);
    }
}

/// The member of a wire item that goes under the name of `field`.
pub open spec fn member(w: WireItemView, field: Field) -> Option<ValueView> {
    match field {
        Field::Type => w.typ,
        Field::HasContentId => w.has_content_id,
        Field::IsXvc => w.is_xvc,
        Field::ContentId => w.content_id,
        Field::ProductId => w.product_id,
        Field::PackageFamilyName => w.package_family_name,
        Field::OneStoreProductId => w.one_store_product_id,
        Field::Version => w.version,
        Field::Size => w.size,
        Field::AllowedProductId => w.allowed_product_id,
        Field::AllowedPackageFamilyName => w.allowed_package_family_name,
        Field::Path => w.path,
        Field::Availability => w.availability,
        Field::Generation => w.generation,
        Field::RelatedMedia => w.related_media,
        Field::RelatedMediaFamilyNames => w.related_media_family_names,
    }
}

/// The members of the schema, in its order.
pub open spec fn schema_fields() -> Seq<Field> {
    seq![
        Field::Type,
        Field::HasContentId,
        Field::IsXvc,
        Field::ContentId,
        Field::ProductId,
        Field::PackageFamilyName,
        Field::OneStoreProductId,
        Field::Version,
        Field::Size,
        Field::AllowedProductId,
        Field::AllowedPackageFamilyName,
        Field::Path,
        Field::Availability,
        Field::Generation,
        Field::RelatedMedia,
        Field::RelatedMediaFamilyNames,
    ]
}

/// The names of two different members differ.
pub proof fn lemma_wire_names_differ(a: Field, b: Field)
    requires
        a != b,
    ensures
        wire_name_text(a) != wire_name_text(b),
{
    reveal_strlit("type");
    reveal_strlit("hasContentId");
    reveal_strlit("isXvc");
    reveal_strlit("contentId");
    reveal_strlit("productId");
    reveal_strlit("packageFamilyName");
    reveal_strlit("oneStoreProductId");
    reveal_strlit("version");
    reveal_strlit("size");
    reveal_strlit("allowedProductId");
    reveal_strlit("allowedPackageFamilyName");
    reveal_strlit("path");
    reveal_strlit("availability");
    reveal_strlit("generation");
    reveal_strlit("relatedMedia");
    reveal_strlit("relatedMediaFamilyNames");
    let x = wire_name_text(a);
    let y = wire_name_text(b);
    if x.len() == y.len() {
        assert(x[0] != y[0] || x[x.len() - 1] != y[y.len() - 1] || x[1] != y[1]);
    }
}

impl WireItem {
    /// A wire item without members.
    pub fn empty() -> (w: WireItem)
        ensures
            forall|field: Field| member(w@, field) is None,
    {
        WireItem {
            typ: None,
            has_content_id: None,
            is_xvc: None,
            content_id: None,
            product_id: None,
            package_family_name: None,
            one_store_product_id: None,
            version: None,
            size: None,
            allowed_product_id: None,
            allowed_package_family_name: None,
            path: None,
            availability: None,
            generation: None,
            related_media: None,
            related_media_family_names: None,
        }
    }

    /// Puts `value` under the name of `field`, in place of what was there.
    pub fn set(&mut self, field: Field, value: Value)
        ensures
            member(final(self)@, field) == Some(value@),
            forall|other: Field| other != field ==> member(final(self)@, other) == member(
                old(self)@,
                other,
            ),
    {
        match field {
            Field::Type => {
                self.typ = Some(value);
            },
            Field::HasContentId => {
                self.has_content_id = Some(value);
            },
            Field::IsXvc => {
                self.is_xvc = Some(value);
            },
            Field::ContentId => {
                self.content_id = Some(value);
            },
            Field::ProductId => {
                self.product_id = Some(value);
            },
            Field::PackageFamilyName => {
                self.package_family_name = Some(value);
            },
            Field::OneStoreProductId => {
                self.one_store_product_id = Some(value);
            },
            Field::Version => {
                self.version = Some(value);
            },
            Field::Size => {
                self.size = Some(value);
            },
            Field::AllowedProductId => {
                self.allowed_product_id = Some(value);
            },
            Field::AllowedPackageFamilyName => {
                self.allowed_package_family_name = Some(value);
            },
            Field::Path => {
                self.path = Some(value);
            },
            Field::Availability => {
                self.availability = Some(value);
            },
            Field::Generation => {
                self.generation = Some(value);
            },
            Field::RelatedMedia => {
                self.related_media = Some(value);
            },
            Field::RelatedMediaFamilyNames => {
                self.related_media_family_names = Some(value);
            },
        }
    }

    /// What stands under the name of `field`.
    pub fn get(&self, field: Field) -> (r: &Option<Value>)
        ensures
            member_view(*r) == member(self@, field),
    {
        match field {
            Field::Type => &self.typ,
            Field::HasContentId => &self.has_content_id,
            Field::IsXvc => &self.is_xvc,
            Field::ContentId => &self.content_id,
            Field::ProductId => &self.product_id,
            Field::PackageFamilyName => &self.package_family_name,
            Field::OneStoreProductId => &self.one_store_product_id,
            Field::Version => &self.version,
            Field::Size => &self.size,
            Field::AllowedProductId => &self.allowed_product_id,
            Field::AllowedPackageFamilyName => &self.allowed_package_family_name,
            Field::Path => &self.path,
            Field::Availability => &self.availability,
            Field::Generation => &self.generation,
            Field::RelatedMedia => &self.related_media,
            Field::RelatedMediaFamilyNames => &self.related_media_family_names,
        }
    }
}

impl Field {
    /// The members of the schema, in its order.
    pub fn all() -> (fields: Vec<Field>)
        ensures
            fields@ == schema_fields(),
    {
        let mut fields: Vec<Field> = Vec::new();
        fields.push(Field::Type);
        fields.push(Field::HasContentId);
        fields.push(Field::IsXvc);
        fields.push(Field::ContentId);
        fields.push(Field::ProductId);
        fields.push(Field::PackageFamilyName);
        fields.push(Field::OneStoreProductId);
        fields.push(Field::Version);
        fields.push(Field::Size);
        fields.push(Field::AllowedProductId);
        fields.push(Field::AllowedPackageFamilyName);
        fields.push(Field::Path);
        fields.push(Field::Availability);
        fields.push(Field::Generation);
        fields.push(Field::RelatedMedia);
        fields.push(Field::RelatedMediaFamilyNames);
        proof {
            assert(fields@ =~= schema_fields());
        }
        fields
    }

    /// The member that goes under `name` on the wire, if there is one.
    pub fn from_wire_name(name: &str) -> (r: Option<Field>)
        ensures
            match r {
                Some(field) => wire_name_text(field) == name@,
                None => forall|field: Field| wire_name_text(field) != name@,
            },
    {
        let fields = Field::all();
        let wanted = String::from_str(name);
        let mut i: usize = 0;
        while i < fields.len()
            invariant
                i <= fields.len(),
                fields@ == schema_fields(),
                wanted@ == name@,
                forall|j: int| 0 <= j < i ==> wire_name_text(schema_fields()[j]) != name@,
            decreases fields.len() - i,
        {
            let candidate = String::from_str(fields[i].wire_name());
            if candidate == wanted {
                return Some(fields[i]);
            }
            i = i + 1;
        }
        proof {
            assert forall|field: Field| wire_name_text(field) != name@ by {
                lemma_in_schema(field);
            }
        }
        None
    }
}

/// Every member is in the schema.
pub proof fn lemma_in_schema(field: Field)
    ensures
        exists|j: int| 0 <= j < schema_fields().len() && schema_fields()[j] == field,
{
    let s = schema_fields();
    match field {
        Field::Type => assert(s[0] == field),
        Field::HasContentId => assert(s[1] == field),
        Field::IsXvc => assert(s[2] == field),
        Field::ContentId => assert(s[3] == field),
        Field::ProductId => assert(s[4] == field),
        Field::PackageFamilyName => assert(s[5] == field),
        Field::OneStoreProductId => assert(s[6] == field),
        Field::Version => assert(s[7] == field),
        Field::Size => assert(s[8] == field),
        Field::AllowedProductId => assert(s[9] == field),
        Field::AllowedPackageFamilyName => assert(s[10] == field),
        Field::Path => assert(s[11] == field),
        Field::Availability => assert(s[12] == field),
        Field::Generation => assert(s[13] == field),
        Field::RelatedMedia => assert(s[14] == field),
        Field::RelatedMediaFamilyNames => assert(s[15] == field),
    }
}

/// The path under which a console serves content, up to the content key.
pub const CONTENT_PREFIX: &'static str = "/col/content/";

/// The drive of the item that a stand-in console offers.
pub const SAMPLE_DRIVE_ID: &'static str = "67601B6E-0294-4007-8682-BEBFBE676320";

/// The file, and package family, of the item that a stand-in console offers.
pub const SAMPLE_FILENAME: &'static str = "11032Reconco.XboxControllerTester_thvmwcgtjwwvy";

/// A character that stands for itself in the path of a URL: a letter, a digit,
/// `-`, `.`, `_` or `~`.
pub open spec fn is_plain(c: char) -> bool {
    ('a' <= c && c <= 'z') || ('A' <= c && c <= 'Z') || ('0' <= c && c <= '9') || c == '-'
        || c == '.' || c == '_' || c == '~'
}

/// Every character of `s` stands for itself in the path of a URL.
pub open spec fn all_plain(s: Seq<char>) -> bool {
    forall|i: int| 0 <= i < s.len() ==> is_plain(#[trigger] s[i])
}

/// The content key of a file on a drive: `{driveId}#filename`.
pub open spec fn content_key_text(drive_id: Seq<char>, filename: Seq<char>) -> Seq<char> {
    "{"@ + drive_id + "}#"@ + filename
}

/// The path of an item: the content prefix and the item's content key with
/// its braces and its `#` URL-encoded, for a drive id and a file name that
/// need no encoding themselves.
pub open spec fn content_path_text(drive_id: Seq<char>, filename: Seq<char>) -> Seq<char> {
    CONTENT_PREFIX@ + "%7B"@ + drive_id + "%7D%23"@ + filename
}

fn is_all_plain(text: &str) -> (b: bool)
    ensures
        b == all_plain(text@),
{
    let chars = to_chars(text);
    let mut i: usize = 0;
    while i < chars.len()
        invariant
            i <= chars.len(),
            chars@ == text@,
            forall|j: int| 0 <= j < i ==> is_plain(#[trigger] chars@[j]),
        decreases chars.len() - i,
    {
        let c: char = chars[i];
        let plain = ('a' <= c && c <= 'z') || ('A' <= c && c <= 'Z') || ('0' <= c && c <= '9')
            || c == '-' || c == '.' || c == '_' || c == '~';
        if !plain {
            return false;
        }
        i = i + 1;
    }
    true
}

/// The path of the item that is the file `filename` on the drive `drive_id`,
/// where neither needs encoding in a URL; nothing where one of them does.
pub fn content_path(drive_id: &str, filename: &str) -> (r: Option<String>)
    ensures
        all_plain(drive_id@) && all_plain(filename@) ==> r is Some && r->0@ == content_path_text(
            drive_id@,
            filename@,
        ),
        !(all_plain(drive_id@) && all_plain(filename@)) ==> r is None,
{
    if !is_all_plain(drive_id) || !is_all_plain(filename) {
        return None;
    }
    let mut path = String::from_str(CONTENT_PREFIX);
    path.append("%7B");
    path.append(drive_id);
    path.append("%7D%23");
    path.append(filename);
    Some(path)
}

/// The drive id and the file name of the sample item need no encoding.
pub proof fn lemma_sample_is_plain()
    ensures
        all_plain(SAMPLE_DRIVE_ID@),
        all_plain(SAMPLE_FILENAME@),
{
    reveal_strlit("67601B6E-0294-4007-8682-BEBFBE676320");
    reveal_strlit("11032Reconco.XboxControllerTester_thvmwcgtjwwvy");
}

/// The one item that a stand-in console offers.
pub open spec fn is_sample_item(item: MetadataItem) -> bool {
    &&& item.typ@ == "app"@
    &&& !item.has_content_id
    &&& item.is_xvc is None
    &&& item.content_id@ == ""@
    &&& item.product_id@ == ""@
    &&& item.package_family_name@ == SAMPLE_FILENAME@
    &&& item.one_store_product_id@ == "9NBLGGH4PNC7"@
    &&& item.version@ == "0"@
    &&& item.size == 0
    &&& item.allowed_product_id@ == ""@
    &&& item.allowed_package_family_name@ == ""@
    &&& item.path@ == content_path_text(SAMPLE_DRIVE_ID@, SAMPLE_FILENAME@)
    &&& item.availability@ == "available"@
    &&& item.generation@ == "uwpgen9"@
    &&& item.related_media@.len() == 0
    &&& item.related_media_family_names@.len() == 0
}

impl Metadata {
    /// The manifest of a stand-in console: one application, available, of no
    /// size, with no related media, whose path holds the content key of the
    /// sample file on the sample drive.
    pub fn sample() -> (m: Metadata)
        ensures
            m.items@.len() == 1,
            is_sample_item(m.items@[0]),
    {
        proof {
            lemma_sample_is_plain();
        }
        let path = match content_path(SAMPLE_DRIVE_ID, SAMPLE_FILENAME) {
            Some(path) => path,
            None => String::new(),
        };
        let item = MetadataItem {
            typ: String::from_str("app"),
            has_content_id: false,
            is_xvc: None,
            content_id: String::from_str(""),
            product_id: String::from_str(""),
            package_family_name: String::from_str(SAMPLE_FILENAME),
            one_store_product_id: String::from_str("9NBLGGH4PNC7"),
            version: String::from_str("0"),
            size: 0,
            allowed_product_id: String::from_str(""),
            allowed_package_family_name: String::from_str(""),
            path,
            availability: String::from_str("available"),
            generation: String::from_str("uwpgen9"),
            related_media: Vec::new(),
            related_media_family_names: Vec::new(),
        };
        let mut items: Vec<MetadataItem> = Vec::new();
        items.push(item);
        Metadata { items }
    }
}

} // verus!

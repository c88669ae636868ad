use vstd::prelude::*;

verus! {

/// One marker inside a field's metadata attribute list, as the schema
/// front end hands it over: either a bare word (`message`, `optional`,
/// `repeated`, `string`, `bytes`, a scalar type name, ...) or a
/// key-value entry (`enumeration = "TypeName"`, `tag = "1"`, ...).
#[derive(Debug)]
pub enum Marker {
    Word(String),
    KeyValue(String, String),
}

/// The mathematical value of a `Marker`: the same shape over `Seq<char>`.
pub ghost enum MarkerView {
    Word(Seq<char>),
    KeyValue(Seq<char>, Seq<char>),
}

impl View for Marker {
    type V = MarkerView;

    open spec fn view(&self) -> MarkerView {
        match self {
            Marker::Word(w) => MarkerView::Word(w@),
            Marker::KeyValue(k, v) => MarkerView::KeyValue(k@, v@),
        }
    }
}

/// One declared field of a message type: its identifier and its metadata
/// attribute list. A field whose metadata is entirely absent is excluded
/// from accessor generation (`markers` is `None`); that is not an error.
#[derive(Debug)]
pub struct FieldDecl {
    pub name: String,
    pub markers: Option<Vec<Marker>>,
}

/// The mathematical value of a `FieldDecl`.
pub ghost struct FieldDeclView {
    pub name: Seq<char>,
    pub markers: Option<Seq<MarkerView>>,
}

impl View for FieldDecl {
    type V = FieldDeclView;

    open spec fn view(&self) -> FieldDeclView {
        FieldDeclView {
            name: self.name@,
            markers: match self.markers {
                Some(ms) => Some(ms@.map_values(|m: Marker| m@)),
                None => None,
            },
        }
    }
}

/// A message declaration: a type name and its fields, in declaration order.
#[derive(Debug)]
pub struct MessageSchema {
    pub name: String,
    pub fields: Vec<FieldDecl>,
}

impl MessageSchema {
    /// The fields' mathematical values, in declaration order.
    pub open spec fn fields_view(&self) -> Seq<FieldDeclView> {
        self.fields@.map_values(|f: FieldDecl| f@)
    }
}

/// One declared value of an enumeration: its name and its integer number.
#[derive(Debug)]
pub struct EnumVariant {
    pub name: String,
    pub number: i32,
}

/// An enumeration declaration: a type name and its values, in declaration
/// order. Numbers need not be contiguous but must be unique within the type.
#[derive(Debug)]
pub struct EnumSchema {
    pub name: String,
    pub variants: Vec<EnumVariant>,
}

impl EnumSchema {
    /// The variants' mathematical values: (name, number), in declaration order.
    pub open spec fn variants_view(&self) -> Seq<(Seq<char>, i32)> {
        self.variants@.map_values(|v: EnumVariant| (v.name@, v.number))
    }

    /// Declared numbers are unique within the type.
    pub open spec fn wf(&self) -> bool {
        forall|i: int, j: int|
            0 <= i < j < self.variants@.len() ==> self.variants@[i].number != self.variants@[j].number
    }
}

/// One declared schema type, as the code emitter walks them.
#[derive(Debug)]
pub enum TypeDecl {
    Message(MessageSchema),
    Enumeration(EnumSchema),
}

} // verus!

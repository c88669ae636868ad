use vstd::prelude::*;

use crate::schema::{Marker, MarkerView};

verus! {

/// Cardinality of a field: how many values it may hold.
#[derive(Clone, Copy, PartialEq, Eq, Structural, Debug)]
pub enum Cardinality {
    /// At most one value; an absent value falls back to a default.
    Optional,
    /// An ordered list of values.
    Repeated,
}

/// Kind of a field's values. Exactly one kind applies to a field.
#[derive(Debug)]
pub enum FieldKind {
    /// A nested message value.
    MessageValue,
    /// A numeric or boolean value, always present with a zero default.
    Scalar,
    /// A text value.
    Text,
    /// A raw byte sequence.
    Bytes,
    /// An enumerated value, stored as an integer; the payload names the
    /// enumeration type.
    Enumeration(String),
}

/// The mathematical value of a `FieldKind`.
pub ghost enum FieldKindView {
    MessageValue,
    Scalar,
    Text,
    Bytes,
    Enumeration(Seq<char>),
}

impl View for FieldKind {
    type V = FieldKindView;

    open spec fn view(&self) -> FieldKindView {
        match self {
            FieldKind::MessageValue => FieldKindView::MessageValue,
            FieldKind::Scalar => FieldKindView::Scalar,
            FieldKind::Text => FieldKindView::Text,
            FieldKind::Bytes => FieldKindView::Bytes,
            FieldKind::Enumeration(t) => FieldKindView::Enumeration(t@),
        }
    }
}

/// The classification of one field: its kind and its cardinality, which
/// together determine the accessor shape.
#[derive(Debug)]
pub struct FieldClass {
    pub kind: FieldKind,
    pub cardinality: Cardinality,
}

/// The mathematical value of a `FieldClass`.
pub ghost struct FieldClassView {
    pub kind: FieldKindView,
    pub cardinality: Cardinality,
}

impl View for FieldClass {
    type V = FieldClassView;

    open spec fn view(&self) -> FieldClassView {
        FieldClassView { kind: self.kind@, cardinality: self.cardinality }
    }
}

/// Failure of classification: the metadata does not map to one accessor
/// shape. An unrecognized marker combination is a build-time failure,
/// never a silent default.
#[derive(Clone, Copy, PartialEq, Eq, Structural, Debug)]
pub enum ClassifyError {
    /// Two markers assign the field different kinds, or different
    /// cardinalities.
    ConflictingMarkers,
}

/// The kind that one marker assigns, if any. A bare `message`, `string`
/// or `bytes` word assigns the corresponding kind; `enumeration = <Type>`
/// assigns the enumeration kind; every other marker assigns none.
pub open spec fn marker_kind(m: MarkerView) -> Option<FieldKindView> {
    match m {
        MarkerView::Word(w) => if w == "message"@ {
            Some(FieldKindView::MessageValue)
        } else if w == "string"@ {
            Some(FieldKindView::Text)
        } else if w == "bytes"@ {
            Some(FieldKindView::Bytes)
        } else {
            None
        },
        MarkerView::KeyValue(k, v) => if k == "enumeration"@ {
            Some(FieldKindView::Enumeration(v))
        } else {
            None
        },
    }
}

/// The cardinality that one marker assigns, if any.
pub open spec fn marker_cardinality(m: MarkerView) -> Option<Cardinality> {
    match m {
        MarkerView::Word(w) => if w == "optional"@ {
            Some(Cardinality::Optional)
        } else if w == "repeated"@ {
            Some(Cardinality::Repeated)
        } else {
            None
        },
        MarkerView::KeyValue(_, _) => None,
    }
}

/// Two markers assign the field two different kinds.
pub open spec fn kind_conflict(ms: Seq<MarkerView>) -> bool {
    exists|i: int, j: int|
        0 <= i < j < ms.len() && marker_kind(ms[i]) is Some && marker_kind(ms[j]) is Some
            && marker_kind(ms[i]) != marker_kind(ms[j])
}

/// Two markers assign the field two different cardinalities.
pub open spec fn cardinality_conflict(ms: Seq<MarkerView>) -> bool {
    exists|i: int, j: int|
        0 <= i < j < ms.len() && marker_cardinality(ms[i]) is Some && marker_cardinality(
            ms[j],
        ) is Some && marker_cardinality(ms[i]) != marker_cardinality(ms[j])
}

/// The metadata is ambiguous: some two markers disagree.
pub open spec fn conflicting(ms: Seq<MarkerView>) -> bool {
    kind_conflict(ms) || cardinality_conflict(ms)
}

/// The kind assigned by the first kind-assigning marker, if any.
pub open spec fn first_kind(ms: Seq<MarkerView>) -> Option<FieldKindView>
    decreases ms.len(),
{
    if ms.len() == 0 {
        None
    } else if marker_kind(ms[0]) is Some {
        marker_kind(ms[0])
    } else {
        first_kind(ms.drop_first())
    }
}

/// The cardinality assigned by the first cardinality-assigning marker, if any.
pub open spec fn first_cardinality(ms: Seq<MarkerView>) -> Option<Cardinality>
    decreases ms.len(),
{
    if ms.len() == 0 {
        None
    } else if marker_cardinality(ms[0]) is Some {
        marker_cardinality(ms[0])
    } else {
        first_cardinality(ms.drop_first())
    }
}

/// The classified kind: the assigned kind, or scalar when no marker
/// assigns one (scalar type names are not themselves recognized markers).
pub open spec fn classified_kind(ms: Seq<MarkerView>) -> FieldKindView {
    match first_kind(ms) {
        Some(k) => k,
        None => FieldKindView::Scalar,
    }
}

/// The classified cardinality: the assigned cardinality, or optional when
/// no marker assigns one.
pub open spec fn classified_cardinality(ms: Seq<MarkerView>) -> Cardinality {
    match first_cardinality(ms) {
        Some(c) => c,
        None => Cardinality::Optional,
    }
}

/// The mathematical values of a marker list.
pub open spec fn marker_views(ms: Seq<Marker>) -> Seq<MarkerView> {
    ms.map_values(|m: Marker| m@)
}

/// When every kind-assigning marker of `s` assigns `ok` (and `ok` is
/// assigned somewhere if it is not `None`), the first assigned kind is `ok`.
proof fn lemma_first_kind_from_agreement(s: Seq<MarkerView>, ok: Option<FieldKindView>)
    requires
        forall|i: int| 0 <= i < s.len() && #[trigger] marker_kind(s[i]) is Some ==> marker_kind(
            s[i],
        ) == ok,
        ok is Some ==> exists|i: int| 0 <= i < s.len() && #[trigger] marker_kind(s[i]) == ok,
    ensures
        first_kind(s) == ok,
    decreases s.len(),
{
    if s.len() == 0 {
    } else if marker_kind(s[0]) is Some {
    } else {
        let t = s.drop_first();
        assert(forall|i: int|
            0 <= i < t.len() && #[trigger] marker_kind(t[i]) is Some ==> marker_kind(t[i]) == ok)
            by {
            assert(forall|i: int| 0 <= i < t.len() ==> t[i] == s[i + 1]);
        }
        if ok is Some {
            let w = choose|i: int| 0 <= i < s.len() && #[trigger] marker_kind(s[i]) == ok;
            assert(w != 0);
            assert(t[w - 1] == s[w]);
            assert(marker_kind(t[w - 1]) == ok);
        }
        lemma_first_kind_from_agreement(t, ok);
    }
}

/// The cardinality counterpart of `lemma_first_kind_from_agreement`.
proof fn lemma_first_cardinality_from_agreement(s: Seq<MarkerView>, oc: Option<Cardinality>)
    requires
        forall|i: int|
            0 <= i < s.len() && #[trigger] marker_cardinality(s[i]) is Some
                ==> marker_cardinality(s[i]) == oc,
        oc is Some ==> exists|i: int|
            0 <= i < s.len() && #[trigger] marker_cardinality(s[i]) == oc,
    ensures
        first_cardinality(s) == oc,
    decreases s.len(),
{
    if s.len() == 0 {
    } else if marker_cardinality(s[0]) is Some {
    } else {
        let t = s.drop_first();
        assert(forall|i: int|
            0 <= i < t.len() && #[trigger] marker_cardinality(t[i]) is Some
                ==> marker_cardinality(t[i]) == oc) by {
            assert(forall|i: int| 0 <= i < t.len() ==> t[i] == s[i + 1]);
        }
        if oc is Some {
            let w = choose|i: int|
                0 <= i < s.len() && #[trigger] marker_cardinality(s[i]) == oc;
            assert(w != 0);
            assert(t[w - 1] == s[w]);
            assert(marker_cardinality(t[w - 1]) == oc);
        }
        lemma_first_cardinality_from_agreement(t, oc);
    }
}

/// Whether a word equals a given literal, compared by contents.
fn word_is(w: &String, lit: &str) -> (r: bool)
    ensures
        r == (w@ == lit@),
{
    let s = lit.to_owned();
    *w == s
}

/// The kind one marker assigns, executably.
fn recognize_kind(m: &Marker) -> (r: Option<FieldKind>)
    ensures
        match r {
            Some(k) => marker_kind(m@) == Some(k@),
            None => marker_kind(m@) is None,
        },
{
    match m {
        Marker::Word(w) => {
            if word_is(w, "message") {
                Some(FieldKind::MessageValue)
            } else if word_is(w, "string") {
                Some(FieldKind::Text)
            } else if word_is(w, "bytes") {
                Some(FieldKind::Bytes)
            } else {
                None
            }
        },
        Marker::KeyValue(k, v) => {
            if word_is(k, "enumeration") {
                Some(FieldKind::Enumeration(v.clone()))
            } else {
                None
            }
        },
    }
}

/// The cardinality one marker assigns, executably.
fn recognize_cardinality(m: &Marker) -> (r: Option<Cardinality>)
    ensures
        r == marker_cardinality(m@),
{
    match m {
        Marker::Word(w) => {
            if word_is(w, "optional") {
                Some(Cardinality::Optional)
            } else if word_is(w, "repeated") {
                Some(Cardinality::Repeated)
            } else {
                None
            }
        },
        Marker::KeyValue(_, _) => None,
    }
}

/// Whether two kinds are the same, compared by contents.
fn kinds_agree(a: &FieldKind, b: &FieldKind) -> (r: bool)
    ensures
        r == (a@ == b@),
{
    match (a, b) {
        (FieldKind::MessageValue, FieldKind::MessageValue) => true,
        (FieldKind::Scalar, FieldKind::Scalar) => true,
        (FieldKind::Text, FieldKind::Text) => true,
        (FieldKind::Bytes, FieldKind::Bytes) => true,
        (FieldKind::Enumeration(x), FieldKind::Enumeration(y)) => *x == *y,
        _ => false,
    }
}

/// Classify one field from its metadata markers.
///
/// The classification succeeds exactly when no two markers disagree; it
/// then yields the assigned kind (scalar when none is assigned) and the
/// assigned cardinality (optional when none is assigned).
pub fn classify(markers: &Vec<Marker>) -> (r: Result<FieldClass, ClassifyError>)
    ensures
        r is Ok <==> !conflicting(marker_views(markers@)),
        r is Ok ==> (r->Ok_0)@ == (FieldClassView {
            kind: classified_kind(marker_views(markers@)),
            cardinality: classified_cardinality(marker_views(markers@)),
        }),
        r is Err ==> r->Err_0 == ClassifyError::ConflictingMarkers,
{
    let ghost ms = marker_views(markers@);
    let mut kind_acc: Option<FieldKind> = None;
    let mut card_acc: Option<Cardinality> = None;
    let n = markers.len();
    let mut idx: usize = 0;
    while idx < n
        invariant
            n == markers@.len(),
            ms == marker_views(markers@),
            idx <= n,
            forall|i: int|
                0 <= i < idx && #[trigger] marker_kind(ms[i]) is Some ==> marker_kind(ms[i])
                    == kind_acc_view(kind_acc),
            kind_acc is Some ==> exists|i: int|
                0 <= i < idx && #[trigger] marker_kind(ms[i]) == kind_acc_view(kind_acc),
            forall|i: int|
                0 <= i < idx && #[trigger] marker_cardinality(ms[i]) is Some
                    ==> marker_cardinality(ms[i]) == card_acc,
            card_acc is Some ==> exists|i: int|
                0 <= i < idx && #[trigger] marker_cardinality(ms[i]) == card_acc,
        decreases n - idx,
    {
        let m = &markers[idx];
        assert(m@ == ms[idx as int]);
        match recognize_kind(m) {
            Some(k) => {
                match &kind_acc {
                    Some(k0) => {
                        if !kinds_agree(k0, &k) {
                            assert(kind_conflict(ms)) by {
                                let w = choose|i: int|
                                    0 <= i < idx && #[trigger] marker_kind(ms[i]) == kind_acc_view(
                                        kind_acc,
                                    );
                                assert(marker_kind(ms[w]) is Some);
                                assert(marker_kind(ms[idx as int]) is Some);
                                assert(marker_kind(ms[w]) != marker_kind(ms[idx as int]));
                            }
                            return Err(ClassifyError::ConflictingMarkers);
                        }
                    },
                    None => {
                        kind_acc = Some(k);
                    },
                }
            },
            None => {},
        }
        match recognize_cardinality(m) {
            Some(c) => {
                match card_acc {
                    Some(c0) => {
                        if c0 != c {
                            assert(cardinality_conflict(ms)) by {
                                let w = choose|i: int|
                                    0 <= i < idx && #[trigger] marker_cardinality(ms[i])
                                        == card_acc;
                                assert(marker_cardinality(ms[w]) is Some);
                                assert(marker_cardinality(ms[idx as int]) is Some);
                                assert(marker_cardinality(ms[w]) != marker_cardinality(
                                    ms[idx as int],
                                ));
                            }
                            return Err(ClassifyError::ConflictingMarkers);
                        }
                    },
                    None => {
                        card_acc = Some(c);
                    },
                }
            },
            None => {},
        }
        idx += 1;
    }
    proof {
        lemma_first_kind_from_agreement(ms, kind_acc_view(kind_acc));
        lemma_first_cardinality_from_agreement(ms, card_acc);
    }
    let kind = match kind_acc {
        Some(k) => k,
        None => FieldKind::Scalar,
    };
    let cardinality = match card_acc {
        Some(c) => c,
        None => Cardinality::Optional,
    };
    Ok(FieldClass { kind, cardinality })
}

/// The mathematical value of an accumulated kind.
spec fn kind_acc_view(o: Option<FieldKind>) -> Option<FieldKindView> {
    match o {
        Some(k) => Some(k@),
        None => None,
    }
}

} // verus!

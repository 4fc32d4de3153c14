//! Point payload metadata and the single-field equality filter.
//!
//! A payload is an open mapping from string keys to scalar values; the
//! program only ever filters on a text-valued field, so the value space is a
//! closed pair of variants. Filter semantics: a payload matches an equality
//! condition when some field carries the condition's key together with the
//! condition's text value.

use vstd::prelude::*;

verus! {

/// A scalar payload value: a piece of text or a signed integer.
#[derive(Clone, Debug)]
pub enum PayloadValue {
    Text(String),
    Int(i64),
}

/// Mathematical image of a [`PayloadValue`].
pub enum PayloadValueView {
    Text(Seq<char>),
    Int(int),
}

impl View for PayloadValue {
    type V = PayloadValueView;

    open spec fn view(&self) -> PayloadValueView {
        match self {
            PayloadValue::Text(s) => PayloadValueView::Text(s@),
            PayloadValue::Int(n) => PayloadValueView::Int(*n as int),
        }
    }
}

/// One key/value pair of a point payload.
#[derive(Clone, Debug)]
pub struct PayloadField {
    pub key: String,
    pub value: PayloadValue,
}

/// Mathematical image of a [`PayloadField`].
pub struct PayloadFieldView {
    pub key: Seq<char>,
    pub value: PayloadValueView,
}

impl View for PayloadField {
    type V = PayloadFieldView;

    open spec fn view(&self) -> PayloadFieldView {
        PayloadFieldView { key: self.key@, value: self.value@ }
    }
}

/// An equality filter on one text-valued payload field.
#[derive(Clone, Debug)]
pub struct MatchCondition {
    pub key: String,
    pub value: String,
}

/// Mathematical image of a [`MatchCondition`].
pub struct MatchConditionView {
    pub key: Seq<char>,
    pub value: Seq<char>,
}

impl View for MatchCondition {
    type V = MatchConditionView;

    open spec fn view(&self) -> MatchConditionView {
        MatchConditionView { key: self.key@, value: self.value@ }
    }
}

/// The image of a sequence of payload fields.
pub open spec fn fields_view(fs: Seq<PayloadField>) -> Seq<PayloadFieldView> {
    fs.map_values(|f: PayloadField| f@)
}

/// Whether one payload field satisfies an equality condition.
pub open spec fn field_matches(f: PayloadFieldView, c: MatchConditionView) -> bool {
    f.key == c.key && f.value == PayloadValueView::Text(c.value)
}

/// Whether a payload satisfies an equality condition: some field carries the
/// condition's key with exactly the condition's text value.
pub open spec fn payload_matches(p: Seq<PayloadFieldView>, c: MatchConditionView) -> bool {
    exists|i: int| 0 <= i < p.len() && field_matches(p[i], c)
}

/// Decides whether a payload satisfies an equality condition.
pub fn matches_condition(fields: &Vec<PayloadField>, c: &MatchCondition) -> (r: bool)
    ensures
        r == payload_matches(fields_view(fields@), c@),
{
    let n = fields.len();
    let mut i: usize = 0;
    while i < n
        invariant
            n == fields@.len(),
            i <= n,
            forall|j: int| 0 <= j < i ==> !field_matches(fields_view(fields@)[j], c@),
        decreases n - i,
    {
        let f = &fields[i];
        let key_eq = f.key.clone() == c.key.clone();
        let val_eq = match &f.value {
            PayloadValue::Text(t) => t.clone() == c.value.clone(),
            PayloadValue::Int(_) => false,
        };
        if key_eq && val_eq {
            assert(field_matches(fields_view(fields@)[i as int], c@));
            return true;
        }
        assert(!field_matches(fields_view(fields@)[i as int], c@));
        i = i + 1;
    }
    false
}

} // verus!

//! Reading the control plane's instance listing, a JSON array of objects.

use vstd::prelude::*;

verus! {

/// One instance as the listing reports it.
#[derive(Debug, Clone)]
pub struct Listed {
    /// The identity the control plane gave the instance.
    pub name: String,
    /// The repository the instance belongs to, as `owner/name`.
    pub repository: String,
    /// The instance's reported state, such as `Available`.
    pub state: String,
    /// The label of the slot the instance was created for.
    pub display_name: String,
}

/// The mathematical content of a [`Listed`].
pub struct ListedView {
    pub name: Seq<char>,
    pub repository: Seq<char>,
    pub state: Seq<char>,
    pub display_name: Seq<char>,
}

impl View for Listed {
    type V = ListedView;

    open spec fn view(&self) -> ListedView {
        ListedView {
            name: self.name@,
            repository: self.repository@,
            state: self.state@,
            display_name: self.display_name@,
        }
    }
}

/// Records seen through their views.
pub open spec fn listing_view(records: Seq<Listed>) -> Seq<ListedView> {
    records.map_values(|l: Listed| l@)
}

/// What `serde_json` reads a listing text as: `None` when the text is not a
/// JSON array; otherwise, for each element in order, its `name`,
/// `repository.nameWithOwner`, `state` and `displayName`, each empty where the
/// field is missing or not a JSON string.
pub uninterp spec fn listing_of(text: Seq<char>) -> Option<Seq<ListedView>>;

/// Relies on `serde_json::from_str` (for a JSON array of values) and on
/// `Value::pointer` and `Value::as_str` to read each element's fields. An
/// empty text is no JSON document.
#[verifier::external_body]
fn read_listing_json(text: &str) -> (r: Option<Vec<Listed>>)
    ensures
        r is Some <==> listing_of(text@) is Some,
        r is Some ==> listing_view(r->Some_0@) == listing_of(text@)->Some_0,
        text@.len() == 0 ==> r is None,
{
    let field = |v: &serde_json::Value, p: &str| v.pointer(p).and_then(|x| x.as_str()).unwrap_or("").to_string();
    let values = serde_json::from_str::<Vec<serde_json::Value>>(text).ok()?;
    Some(values.iter().map(|v| Listed {
        name: field(v, "/name"),
        repository: field(v, "/repository/nameWithOwner"),
        state: field(v, "/state"),
        display_name: field(v, "/displayName"),
    }).collect())
}

/// The instances a listing text reports; a text that is not a JSON array
/// reports none.
pub open spec fn listing_records(text: Seq<char>) -> Seq<ListedView> {
    match listing_of(text) {
        Some(records) => records,
        None => Seq::empty(),
    }
}

/// The instances that a listing reports, in its order. A text that is not a
/// JSON array (an empty one included) lists nothing; a field that is missing
/// or not a string reads as empty.
pub fn parse_listing(text: &str) -> (r: Vec<Listed>)
    ensures
        listing_view(r@) == listing_records(text@),
        text@.len() == 0 ==> r@.len() == 0,
{
    match read_listing_json(text) {
        Some(records) => records,
        None => {
            let none: Vec<Listed> = Vec::new();
            assert(listing_view(none@) =~= Seq::<ListedView>::empty());
            none
        },
    }
}

} // verus!

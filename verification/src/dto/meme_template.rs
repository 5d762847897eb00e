use vstd::prelude::*;

verus! {

/// An allocatable resource: immutable once created, identified by `id`,
/// located by `uri`.
#[derive(Debug)]
pub struct MemeTemplate {
    pub id: i32,
    pub uri: String,
}

/// The two templates agree field by field (string fields compared by view).
pub open spec fn same_template(a: MemeTemplate, b: MemeTemplate) -> bool {
    a.id == b.id && a.uri@ == b.uri@
}

impl MemeTemplate {
    /// A copy that provably keeps both fields.
    pub fn duplicate(&self) -> (r: MemeTemplate)
        ensures
            same_template(r, *self),
    {
        MemeTemplate { id: self.id, uri: self.uri.clone() }
    }
}

} // verus!

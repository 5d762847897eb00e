use vstd::prelude::*;

verus! {

/// Everything the in-game page needs: the assigned template's image, the
/// rerolls still available, and one entry per label slot.
pub struct IngameTemplateContext {
    pub template_image_uri: String,
    pub remaining_rerolls: i32,
    pub labels: Vec<i32>,
}

impl IngameTemplateContext {
    /// Builds the context with labels numbered 1 up to `no_of_labels`.
    pub fn new(template_image_uri: String, remaining_rerolls: i32, no_of_labels: i32) -> (r:
        IngameTemplateContext)
        requires
            0 <= no_of_labels < i32::MAX,
        ensures
            r.template_image_uri@ == template_image_uri@,
            r.remaining_rerolls == remaining_rerolls,
            r.labels@.len() == no_of_labels,
            forall|i: int| 0 <= i < no_of_labels ==> r.labels@[i] == i + 1,
    {
        let mut labels: Vec<i32> = Vec::new();
        let mut next: i32 = 1;
        while next <= no_of_labels
            invariant
                1 <= next <= no_of_labels + 1,
                no_of_labels < i32::MAX,
                labels@.len() == next - 1,
                forall|i: int| 0 <= i < labels@.len() ==> labels@[i] == i + 1,
            decreases no_of_labels + 1 - next,
        {
            labels.push(next);
            next = next + 1;
        }
        IngameTemplateContext { template_image_uri, remaining_rerolls, labels }
    }
}

} // verus!

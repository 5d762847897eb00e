use vstd::prelude::*;
use crate::app_error::AppError;
use crate::labeled_meme::LabeledMeme;

verus! {

/// A meme template together with the label slots that still await text.
pub struct UnlabeledMeme {
    image_uri: String,
    no_label_slots: i32,
    label_positions: Vec<i32>,
}

impl UnlabeledMeme {
    pub closed spec fn spec_image_uri(self) -> Seq<char> {
        self.image_uri@
    }

    pub closed spec fn spec_no_label_slots(self) -> i32 {
        self.no_label_slots
    }

    pub closed spec fn spec_label_positions(self) -> Seq<i32> {
        self.label_positions@
    }

    pub fn new(image_uri: String, no_label_slots: i32, label_positions: Vec<i32>) -> (r:
        UnlabeledMeme)
        requires
            0 <= no_label_slots,
        ensures
            r.spec_image_uri() == image_uri@,
            r.spec_no_label_slots() == no_label_slots,
            r.spec_label_positions() == label_positions@,
    {
        UnlabeledMeme { image_uri, no_label_slots, label_positions }
    }

    /// Fills the slots with the given texts: succeeds if and only if exactly
    /// one label is supplied per slot.
    pub fn label(&self, labels: &Vec<String>) -> (r: Result<LabeledMeme, AppError>)
        ensures
            r is Ok <==> labels@.len() == self.spec_no_label_slots(),
            r matches Ok(m) ==> {
                &&& m.image_uri@ == self.spec_image_uri()
                &&& m.labels@.len() == labels@.len()
                &&& forall|i: int| 0 <= i < labels@.len() ==> (#[trigger] m.labels@[i])@
                    == labels@[i]@
            },
            r matches Err(e) ==> e == AppError::BadRequest,
    {
        if self.no_label_slots < 0 || labels.len() != self.no_label_slots as usize {
            return Err(AppError::BadRequest);
        }
        let mut filled: Vec<String> = Vec::new();
        let mut k: usize = 0;
        while k < labels.len()
            invariant
                k <= labels@.len(),
                filled@.len() == k,
                forall|i: int| 0 <= i < k ==> (#[trigger] filled@[i])@ == labels@[i]@,
            decreases labels@.len() - k,
        {
            filled.push(labels[k].clone());
            k = k + 1;
        }
        Ok(LabeledMeme { image_uri: self.image_uri.clone(), labels: filled })
    }
}

} // verus!

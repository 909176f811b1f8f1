use vstd::prelude::*;
use vstd::string::*;

use crate::text::{signed_decimal, spec_signed_decimal};

verus! {

/// Outcome of removing the records of images whose files are gone.
#[derive(Debug, Clone, PartialEq)]
pub struct CleanupResult {
    pub checked: usize,
    pub removed: usize,
    pub thumbnails_removed: usize,
    pub errors: Vec<String>,
}

impl CleanupResult {
    /// Nothing removed yet among `checked` records.
    pub fn new(checked: usize) -> (r: Self)
        ensures
            r.checked == checked,
            r.removed == 0,
            r.thumbnails_removed == 0,
            r.errors@.len() == 0,
    {
        CleanupResult { checked, removed: 0, thumbnails_removed: 0, errors: Vec::new() }
    }

    /// Counts a removed record.
    pub fn record_removed(&mut self)
        requires
            old(self).removed < usize::MAX,
        ensures
            final(self).removed == old(self).removed + 1,
            final(self).checked == old(self).checked,
            final(self).thumbnails_removed == old(self).thumbnails_removed,
            final(self).errors@ == old(self).errors@,
    {
        self.removed = self.removed + 1;
    }

    /// Counts a removed thumbnail.
    pub fn record_thumbnail_removed(&mut self)
        requires
            old(self).thumbnails_removed < usize::MAX,
        ensures
            final(self).thumbnails_removed == old(self).thumbnails_removed + 1,
            final(self).checked == old(self).checked,
            final(self).removed == old(self).removed,
            final(self).errors@ == old(self).errors@,
    {
        self.thumbnails_removed = self.thumbnails_removed + 1;
    }

    /// Records that the thumbnail of image `id` could not be removed.
    pub fn record_thumbnail_error(&mut self, id: i64, error: &str)
        ensures
            final(self).errors@ == old(self).errors@.push(final(self).errors@.last()),
            final(self).errors@.last()@ == "thumbnail "@ + spec_signed_decimal(id as int) + ": "@ + error@,
            final(self).checked == old(self).checked,
            final(self).removed == old(self).removed,
            final(self).thumbnails_removed == old(self).thumbnails_removed,
    {
        let mut msg = String::from_str("thumbnail ");
        msg.append(signed_decimal(id).as_str());
        msg.append(": ");
        msg.append(error);
        self.errors.push(msg);
    }

    /// Records that the record of image `id` at `path` could not be removed.
    pub fn record_image_error(&mut self, id: i64, path: &str, error: &str)
        ensures
            final(self).errors@ == old(self).errors@.push(final(self).errors@.last()),
            final(self).errors@.last()@ == "image "@ + spec_signed_decimal(id as int) + " ("@ + path@ + "): "@
                + error@,
            final(self).checked == old(self).checked,
            final(self).removed == old(self).removed,
            final(self).thumbnails_removed == old(self).thumbnails_removed,
    {
        let mut msg = String::from_str("image ");
        msg.append(signed_decimal(id).as_str());
        msg.append(" (");
        msg.append(path);
        msg.append("): ");
        msg.append(error);
        self.errors.push(msg);
    }
}

} // verus!

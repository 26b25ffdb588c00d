//! Where a NAR file is fetched from, and what is remembered once it was.
use vstd::prelude::*;

use crate::availability_index::{candidate_views, SubstituterCandidate};
use crate::nar::NarFileEvent;
use crate::nar_file_name::{is_nar_file_char, valid_nar_file_name, NarFileName};
use crate::text::is_ws;
use crate::url::{
    dir_form, directory, lemma_dir_form_valid, lemma_directory_of_file, no_slash, valid_url, Url,
};

verus! {

/// The URLs a NAR file is looked for at when its location is not known:
/// under the storage URL of every available substituter, in the order of
/// the index.
pub fn build_fallback_urls(candidates: &Vec<SubstituterCandidate>, nar_file: &NarFileName) -> (r:
    Vec<Url>)
    ensures
        r@.len() == candidates@.len(),
        forall|i: int|
            0 <= i < r@.len() ==> #[trigger] r@[i]@ == dir_form(candidate_views(candidates@)[i].meta.storage_url)
                + nar_file@,
{
    let mut out: Vec<Url> = Vec::new();
    let mut i: usize = 0;
    while i < candidates.len()
        invariant
            i <= candidates.len(),
            out@.len() == i,
            forall|k: int|
                0 <= k < i ==> #[trigger] out@[k]@ == dir_form(
                    candidate_views(candidates@)[k].meta.storage_url,
                ) + nar_file@,
        decreases candidates.len() - i,
    {
        let prefix = candidates[i].meta().storage_url();
        out.push(nar_file.with_storage_prefix(prefix));
        i = i + 1;
    }
    out
}

/// Once a NAR file was streamed from `source_url`, its storage prefix is
/// the directory of that URL.
pub fn registration_after_stream(nar_file: &NarFileName, source_url: &Url) -> (r: NarFileEvent)
    ensures
        r matches NarFileEvent::Registered { nar_file: n, storage_prefix } && n@ == nar_file@
            && storage_prefix@ == directory(source_url@),
{
    NarFileEvent::Registered { nar_file: nar_file.duplicate(), storage_prefix: source_url.get_dir() }
}

/// The storage prefix remembered after streaming a NAR file from a
/// fallback URL leads back to that same URL: looking the file up under the
/// remembered prefix asks the substituter that served it.
pub proof fn lemma_registered_prefix_reproduces_url(prefix: Url, nar_file: NarFileName)
    requires
        valid_url(prefix@),
        valid_nar_file_name(nar_file@),
    ensures
        dir_form(directory(dir_form(prefix@) + nar_file@)) + nar_file@ == dir_form(prefix@)
            + nar_file@,
{
    lemma_dir_form_valid(prefix@);
    let d = dir_form(prefix@);
    let f = nar_file@;
    assert(no_slash(f)) by {
        assert forall|i: int| 0 <= i < f.len() implies #[trigger] f[i] != '/' by {
        }
    }
    assert forall|i: int| 0 <= i < f.len() implies !is_ws(#[trigger] f[i]) by {
    }
    lemma_directory_of_file(d, f);
}

} // verus!

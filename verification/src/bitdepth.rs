//! Finding the pointer width of a store file.
use crate::error::{Fault, MigrateError};
use crate::header::{authoritative, select_meta};
use crate::layout::PointerWidth;
use crate::page::{PageReader, SourceModel};
use vstd::prelude::*;

verus! {

/// Whether the meta pages of a file are consistent when they are decoded with
/// the given page size and pointer width.
pub open spec fn width_fits(bytes: Seq<u8>, page_size: int, width: PointerWidth) -> bool {
    let source = SourceModel { bytes, page_size, width };
    source.wf() && authoritative(source) is Some
}

/// The width that a file has among the candidates: the one candidate that
/// fits. There is none if no candidate fits, or if both widths are candidates
/// and both fit.
pub open spec fn resolved(bytes: Seq<u8>, page_size: int, candidates: Seq<PointerWidth>) -> Option<
    PointerWidth,
> {
    let narrow = candidates.contains(PointerWidth::W32) && width_fits(
        bytes,
        page_size,
        PointerWidth::W32,
    );
    let wide = candidates.contains(PointerWidth::W64) && width_fits(
        bytes,
        page_size,
        PointerWidth::W64,
    );
    if narrow && !wide {
        Some(PointerWidth::W32)
    } else if wide && !narrow {
        Some(PointerWidth::W64)
    } else {
        None
    }
}

/// Decodes the meta pages with one width and checks them for consistency.
pub fn check_width(bytes: &[u8], page_size: usize, width: PointerWidth) -> (ok: bool)
    ensures
        ok == width_fits(bytes@, page_size as int, width),
{
    match PageReader::new(bytes, page_size, width) {
        None => false,
        Some(reader) => select_meta(&reader).is_some(),
    }
}

/// Whether a width is among the candidates.
pub fn is_candidate(candidates: &[PointerWidth], width: PointerWidth) -> (found: bool)
    ensures
        found == candidates@.contains(width),
{
    let mut i: usize = 0;
    while i < candidates.len()
        invariant
            i <= candidates@.len(),
            forall|j: int| 0 <= j < i ==> candidates@[j] != width,
        decreases candidates@.len() - i,
    {
        if candidates[i] == width {
            return true;
        }
        i = i + 1;
    }
    false
}

/// Resolves the pointer width of a file: exactly one of the candidates must
/// fit its meta pages. A caller that knows the width gives it as the only
/// candidate; it is then the only width that is tried.
pub fn resolve_width(bytes: &[u8], page_size: usize, candidates: &[PointerWidth]) -> (r: Result<
    PointerWidth,
    MigrateError,
>)
    ensures
        match r {
            Ok(width) => resolved(bytes@, page_size as int, candidates@) == Some(width),
            Err(e) => resolved(bytes@, page_size as int, candidates@) is None && e.signals(
                Fault::IndeterminateBitDepth,
            ),
        },
{
    let narrow = is_candidate(candidates, PointerWidth::W32) && check_width(
        bytes,
        page_size,
        PointerWidth::W32,
    );
    let wide = is_candidate(candidates, PointerWidth::W64) && check_width(
        bytes,
        page_size,
        PointerWidth::W64,
    );
    if narrow && !wide {
        Ok(PointerWidth::W32)
    } else if wide && !narrow {
        Ok(PointerWidth::W64)
    } else {
        Err(MigrateError::IndeterminateBitDepth)
    }
}

} // verus!

//! The atlas cache: each theme's atlas is decoded on its first request and
//! kept for every later one.
//!
//! Decoding a compressed atlas is left to the caller, which asks
//! `needs_decode` first and hands the decoder's outcome to `get_or_insert`.
use crate::error::RenderError;
use crate::geometry::ATLAS_WIDTH;
use crate::theme::{Theme, THEME_COUNT};
use vstd::prelude::*;

verus! {

/// An image decoded to interleaved 8-bit samples, rows top to bottom.
pub struct DecodedImage {
    pub pixels: Vec<u8>,
    pub width: u32,
    pub height: u32,
    /// Bytes per pixel: 3 for RGB, 4 for RGBA.
    pub channels: u8,
}

/// The atlas pixels of a decoder's outcome: an RGBA image 2048 pixels (64
/// cells) wide whose buffer holds every pixel. `None` for anything else,
/// a failed decode included.
pub open spec fn atlas_from(decoded: Option<DecodedImage>) -> Option<Seq<u8>> {
    match decoded {
        Some(d) => if d.channels == 4 && d.width == ATLAS_WIDTH && d.pixels@.len() == d.width
            * d.height * 4 {
            Some(d.pixels@)
        } else {
            None
        },
        None => None,
    }
}

/// One slot per theme, each empty until that theme's atlas is first requested.
pub struct AtlasCache {
    slots: Vec<Option<Vec<u8>>>,
    decode_counts: Vec<u64>,
}

impl AtlasCache {
    /// One slot and one decode count per theme.
    pub closed spec fn wf(&self) -> bool {
        &&& self.slots@.len() == THEME_COUNT
        &&& self.decode_counts@.len() == THEME_COUNT
    }

    /// The decoded atlas held for theme `t`, if any.
    pub closed spec fn atlas(&self, t: Theme) -> Option<Seq<u8>> {
        match self.slots@[t.spec_index() as int] {
            Some(v) => Some(v@),
            None => None,
        }
    }

    /// How many decoder outcomes have been taken in for theme `t`.
    pub closed spec fn decodes(&self, t: Theme) -> nat {
        self.decode_counts@[t.spec_index() as int] as nat
    }

    /// `new` is `old` after a request for theme `t` that came with the decoder's
    /// outcome `decoded`: a held atlas stays as it is and `decoded` is ignored;
    /// otherwise `decoded` counts as one decode and is kept when it is a usable atlas.
    pub open spec fn fetched(old: AtlasCache, new: AtlasCache, t: Theme, decoded: Option<DecodedImage>) -> bool {
        &&& new.wf()
        &&& old.atlas(t) is Some ==> new == old
        &&& old.atlas(t) is None ==> {
            &&& new.atlas(t) == atlas_from(decoded)
            &&& new.decodes(t) == if old.decodes(t) < u64::MAX {
                old.decodes(t) + 1
            } else {
                old.decodes(t)
            }
            &&& forall|u: Theme|
                u != t ==> new.atlas(u) == old.atlas(u) && new.decodes(u) == old.decodes(u)
        }
    }

    /// A cache that holds no atlas and has decoded nothing.
    pub fn new() -> (c: AtlasCache)
        ensures
            c.wf(),
            forall|t: Theme| #[trigger] c.atlas(t) is None,
            forall|t: Theme| #[trigger] c.decodes(t) == 0,
    {
        let mut slots: Vec<Option<Vec<u8>>> = Vec::new();
        let mut decode_counts: Vec<u64> = Vec::new();
        let mut k: usize = 0;
        while k < THEME_COUNT
            invariant
                k <= THEME_COUNT,
                slots@.len() == k,
                decode_counts@.len() == k,
                forall|m: int| 0 <= m < k ==> #[trigger] slots@[m] is None,
                forall|m: int| 0 <= m < k ==> #[trigger] decode_counts@[m] == 0,
            decreases THEME_COUNT - k,
        {
            slots.push(None);
            decode_counts.push(0);
            k += 1;
        }
        let c = AtlasCache { slots, decode_counts };
        assert forall|t: Theme| #[trigger] c.atlas(t) is None by {
            assert(c.slots@[t.spec_index() as int] is None);
        }
        assert forall|t: Theme| #[trigger] c.decodes(t) == 0 by {
            assert(c.decode_counts@[t.spec_index() as int] == 0);
        }
        c
    }

    /// Whether a request for `theme` needs the decoder's outcome: no atlas is held.
    pub fn needs_decode(&self, theme: Theme) -> (r: bool)
        requires
            self.wf(),
        ensures
            r == self.atlas(theme) is None,
    {
        self.slots[theme.index()].is_none()
    }

    /// Makes sure that theme `theme`'s atlas is held, taking it from `decoded`
    /// if it is not.
    pub fn get_or_insert(&mut self, theme: Theme, decoded: Option<DecodedImage>) -> (r: Result<
        (),
        RenderError,
    >)
        requires
            old(self).wf(),
        ensures
            Self::fetched(*old(self), *final(self), theme, decoded),
            r is Ok <==> final(self).atlas(theme) is Some,
            r is Err ==> r == Err::<(), RenderError>(RenderError::AtlasDecodeFailure),
    {
        let k = theme.index();
        if self.slots[k].is_some() {
            return Ok(());
        }
        let c = self.decode_counts[k];
        let next = if c < u64::MAX {
            c + 1
        } else {
            c
        };
        self.decode_counts.set(k, next);
        let ghost after_count = *self;
        match decoded {
            Some(d) => {
                if d.channels == 4 && d.width as usize == ATLAS_WIDTH && d.pixels.len() as u64 == d.height as u64
                    * 8192 {
                    self.slots.set(k, Some(d.pixels));
                    assert forall|u: Theme| u != theme implies self.atlas(u) == after_count.atlas(u)
                        && self.decodes(u) == after_count.decodes(u) by {
                        assert(u.spec_index() != theme.spec_index());
                    }
                    Ok(())
                } else {
                    Err(RenderError::AtlasDecodeFailure)
                }
            },
            None => Err(RenderError::AtlasDecodeFailure),
        }
    }

    /// The atlas held for `theme`, if it has been decoded.
    pub fn cached_atlas(&self, theme: Theme) -> (r: Option<&Vec<u8>>)
        requires
            self.wf(),
        ensures
            r is Some <==> self.atlas(theme) is Some,
            r matches Some(v) ==> self.atlas(theme) == Some(v@),
    {
        self.slots[theme.index()].as_ref()
    }

    /// How many decoder outcomes have been taken in for `theme`.
    pub fn decode_count(&self, theme: Theme) -> (r: u64)
        requires
            self.wf(),
        ensures
            r == self.decodes(theme),
    {
        self.decode_counts[theme.index()]
    }
}

} // verus!

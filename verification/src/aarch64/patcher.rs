//! The inline patcher.
//!
//! A patcher owns the byte image of a target's patch area together with
//! the two prologs it toggles between: the bytes captured at construction
//! and the hook sequence that diverts the target to the detour.  Toggling
//! replaces the whole area with one image or the other; writing the image
//! back to the live code bytes, and the instruction-cache flush that must
//! follow, belong to the embedding program.
use crate::aarch64::encode::w_add;
use crate::error::Error;
use crate::pic::{spec_emit, CodeEmitter, Thunk};
use vstd::prelude::*;

verus! {

/// The byte length of the inline hook sequence: `ADRP X17 / LDR X17 / BR X17`.
pub const HOOK_SIZE: usize = 12;

/// A reversible patch of one target's prolog.
pub struct Patcher {
    /// The current byte image of the patch area.
    pub patch_area: Vec<u8>,
    /// The target's bytes as captured at construction.
    pub original_prolog: Vec<u8>,
    /// The hook sequence that diverts the target.
    pub detour_prolog: Vec<u8>,
}

/// The three images always share one length.
pub open spec fn patcher_wf(p: Patcher) -> bool {
    &&& p.patch_area@.len() == p.original_prolog@.len()
    &&& p.detour_prolog@.len() == p.original_prolog@.len()
}

/// The patch area bytes after toggling to `enable`.
pub open spec fn toggled_area(p: Patcher, enable: bool) -> Seq<u8> {
    if enable {
        p.detour_prolog@
    } else {
        p.original_prolog@
    }
}

impl Patcher {
    /// Creates a patcher for the target at `target` whose current prolog
    /// bytes are `original`.  `detour` is the address of the 8-byte slot
    /// holding the detour address — the relay — which the hook sequence
    /// dereferences; it must be within `ADRP` reach of the target.
    ///
    /// The caller reads the prolog bytes from the target; they must cover
    /// exactly the hook sequence.
    pub fn new(target: u64, detour: u64, original: Vec<u8>) -> (r: Result<Patcher, Error>)
        requires
            original@.len() == HOOK_SIZE,
        ensures
            r matches Ok(p) ==> {
                &&& patcher_wf(p)
                &&& p.original_prolog@ == original@
                &&& p.patch_area@ == original@
                &&& p.detour_prolog@ == spec_emit(
                    seq![Thunk::JmpIndirect { value_addr: detour }],
                    target,
                )
                &&& p.detour_prolog@.len() == HOOK_SIZE
            },
            r is Ok,
    {
        let hook = Self::hook_template(detour);
        let detour_prolog = hook.emit(target);
        proof {
            assert(seq![Thunk::JmpIndirect { value_addr: detour }].drop_last()
                =~= Seq::<Thunk>::empty());
            Thunk::JmpIndirect { value_addr: detour }.lemma_finalize_len(
                w_add(target, 0),
            );
        }
        let mut patch_area: Vec<u8> = Vec::new();
        let mut i: usize = 0;
        while i < original.len()
            invariant
                i <= original@.len(),
                patch_area@ == original@.take(i as int),
            decreases original@.len() - i,
        {
            patch_area.push(original[i]);
            assert(patch_area@ =~= original@.take(i as int + 1));
            i = i + 1;
        }
        assert(patch_area@ =~= original@);
        Ok(Patcher { patch_area, original_prolog: original, detour_prolog })
    }

    /// The current byte image of the target's patch area.
    pub fn area(&self) -> (r: &Vec<u8>)
        ensures
            r@ == self.patch_area@,
    {
        &self.patch_area
    }

    /// The hook sequence for a detour slot at `detour`: one indirect jump
    /// through `X17`.
    pub fn hook_template(detour: u64) -> (r: CodeEmitter)
        ensures
            r.thunks@ =~= seq![Thunk::JmpIndirect { value_addr: detour }],
            crate::pic::total_len(r.thunks@) == HOOK_SIZE,
    {
        let mut emitter = CodeEmitter::new();
        emitter.add_thunk(crate::aarch64::thunk::gen_jmp_indirect(detour));
        proof {
            assert(emitter.thunks@.drop_last() =~= Seq::<Thunk>::empty());
        }
        emitter
    }

    /// Replaces the patch area with the detour prolog (`enable`) or the
    /// original prolog (`!enable`).  Toggling is idempotent: the result
    /// depends only on `enable` and the two stored prologs.
    pub fn toggle(&mut self, enable: bool)
        requires
            patcher_wf(*old(self)),
        ensures
            patcher_wf(*final(self)),
            final(self).patch_area@ == toggled_area(*old(self), enable),
            final(self).original_prolog@ == old(self).original_prolog@,
            final(self).detour_prolog@ == old(self).detour_prolog@,
    {
        let src_len: usize = if enable {
            self.detour_prolog.len()
        } else {
            self.original_prolog.len()
        };
        let mut fresh: Vec<u8> = Vec::new();
        let mut i: usize = 0;
        while i < src_len
            invariant
                i <= src_len,
                src_len == toggled_area(*self, enable).len(),
                patcher_wf(*self),
                fresh@ == toggled_area(*self, enable).take(i as int),
                *self == *old(self),
                src_len == (if enable {
                    self.detour_prolog@.len()
                } else {
                    self.original_prolog@.len()
                }),
            decreases src_len - i,
        {
            let b: u8 = if enable {
                self.detour_prolog[i]
            } else {
                self.original_prolog[i]
            };
            fresh.push(b);
            assert(fresh@ =~= toggled_area(*self, enable).take(i as int + 1));
            i = i + 1;
        }
        assert(fresh@ =~= toggled_area(*self, enable));
        self.patch_area = fresh;
    }
}

/// Law: after enabling and then disabling, the patch area holds the
/// original prolog again, byte for byte.
pub proof fn lemma_enable_disable_restores(p0: Patcher, p1: Patcher, p2: Patcher)
    requires
        patcher_wf(p0),
        p1.patch_area@ == toggled_area(p0, true),
        p1.original_prolog@ == p0.original_prolog@,
        p1.detour_prolog@ == p0.detour_prolog@,
        p2.patch_area@ == toggled_area(p1, false),
        p2.original_prolog@ == p1.original_prolog@,
        p2.detour_prolog@ == p1.detour_prolog@,
    ensures
        p2.patch_area@ == p0.original_prolog@,
{
}

/// Law: toggling twice with the same flag leaves the same image as
/// toggling once; repeated enables and repeated disables are no-ops.
pub proof fn lemma_toggle_idempotent(p0: Patcher, p1: Patcher, p2: Patcher, enable: bool)
    requires
        patcher_wf(p0),
        p1.patch_area@ == toggled_area(p0, enable),
        p1.original_prolog@ == p0.original_prolog@,
        p1.detour_prolog@ == p0.detour_prolog@,
        p2.patch_area@ == toggled_area(p1, enable),
        p2.original_prolog@ == p1.original_prolog@,
        p2.detour_prolog@ == p1.detour_prolog@,
    ensures
        p2.patch_area@ == p1.patch_area@,
{
}

} // verus!

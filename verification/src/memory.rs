//! Placement of position-independent code into proximity memory.
use crate::allocator::{
    allocator_wf, dist, lemma_round8_idempotent, pool_fits, round8, ExecutableMemory,
    ThreadAllocator,
};
use crate::error::Error;
use crate::pic::{spec_emit, total_len, CodeEmitter};
use vstd::prelude::*;

verus! {

/// Allocates executable memory close to `origin` and places the emitter's
/// code in it, emitted for the obtained address.  The allocation is
/// rounded up to the emitter alignment; the bytes past the code keep the
/// allocation's previous content.
pub fn allocate_pic(
    pool: &mut ThreadAllocator,
    emitter: &CodeEmitter,
    origin: u64,
) -> (r: Result<ExecutableMemory, Error>)
    requires
        allocator_wf(*old(pool)),
        1 <= total_len(emitter.thunks@),
        total_len(emitter.thunks@) + 16 <= usize::MAX,
    ensures
        allocator_wf(*final(pool)),
        final(pool).max_distance == old(pool).max_distance,
        r matches Ok(m) ==> {
            &&& dist(m.base, origin) <= old(pool).max_distance
            &&& m.base % 8 == 0
            &&& m.bytes@.len() == round8(total_len(emitter.thunks@) as int)
            &&& m.bytes@.take(total_len(emitter.thunks@) as int) == spec_emit(
                emitter.thunks@,
                m.base,
            )
        },
        r matches Err(e) ==> e == Error::OutOfMemory,
        r is Err ==> final(pool).pools@ == old(pool).pools@,
        (exists|k: int|
            0 <= k < old(pool).pools@.len() && pool_fits(
                #[trigger] old(pool).pools@[k],
                origin,
                round8(total_len(emitter.thunks@) as int),
                old(pool).max_distance as int,
            )) ==> r is Ok,
{
    proof {
        lemma_round8_idempotent(total_len(emitter.thunks@) as int);
    }
    let len: usize = emitter.len();
    let size: usize = (len + 7) / 8 * 8;
    let mut memory = match pool.allocate(origin, size) {
        Ok(m) => m,
        Err(e) => {
            return Err(e);
        },
    };
    let code = emitter.emit(memory.base());
    let r = memory.modify(code.as_slice());
    proof {
        assert(memory.bytes@.take(code@.len() as int) =~= code@);
    }
    match r {
        Ok(()) => Ok(memory),
        Err(_) => Err(Error::OutOfMemory),
    }
}

} // verus!

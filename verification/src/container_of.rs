//! Offset recovery (the container-of idiom): given the address of a member
//! field and the enclosing type's layout, recover the enclosing object's
//! address. Addresses and layouts are modeled as plain byte values, so the
//! arithmetic is stated and checked exactly.

use vstd::prelude::*;

verus! {

/// A type that contains a member of type `M` at a fixed, type-determined byte
/// offset within its layout. Implementors declare the layout as specification
/// values and must prove, in `layout_wf`, that the member's address range lies
/// fully within the container's address range.
pub trait ContainerOf<M>: Sized {
    /// Byte offset of the member within the container's layout.
    spec fn member_offset_spec() -> usize;

    /// Size in bytes of the container type.
    spec fn container_size_spec() -> usize;

    /// Size in bytes of the member type.
    spec fn member_size_spec() -> usize;

    /// Alignment in bytes of the container type.
    spec fn container_align_spec() -> usize;

    /// The declared layout is consistent: the member lies fully inside the
    /// container, and the alignment is nonzero. A layout that violates this
    /// is incompatible with offset recovery, so implementors must prove it.
    proof fn layout_wf()
        ensures
            Self::member_offset_spec() + Self::member_size_spec()
                <= Self::container_size_spec(),
            Self::container_align_spec() >= 1,
    ;

    /// The member value held by this container.
    spec fn member_spec(&self) -> M;

    /// Borrow the embedded member.
    fn member(&self) -> (r: &M)
        ensures
            *r == self.member_spec(),
    ;

    /// The byte offset of the member within the container's layout.
    fn member_offset() -> (r: usize)
        ensures
            r == Self::member_offset_spec(),
    ;
}

/// The container's address, recovered from the address of its embedded member.
pub open spec fn container_address_of<C: ContainerOf<M>, M>(member_addr: int) -> int {
    member_addr - C::member_offset_spec()
}

/// Subtract the member's offset from a member address to recover the address
/// of the enclosing container. The address must not underflow and the
/// recovered address must be validly aligned for the container type; an
/// address violating either did not originate from a real container of the
/// expected type, which is a fatal contract violation, so both are demanded
/// of the caller.
pub fn recover_from_field_address<C: ContainerOf<M>, M>(member_addr: usize) -> (r: usize)
    requires
        member_addr > C::member_offset_spec(),
        (member_addr - C::member_offset_spec()) % (C::container_align_spec() as int) == 0,
    ensures
        r == container_address_of::<C, M>(member_addr as int),
        r + C::member_offset_spec() == member_addr,
        (r as int) % (C::container_align_spec() as int) == 0,
{
    let offset: usize = C::member_offset();
    member_addr - offset
}

/// The member offset of a container type is a single value determined by the
/// declared layout: any two computations of it agree, and the offset is
/// consistent with that layout (the member fits inside the container).
pub proof fn lemma_member_offset_stable<C: ContainerOf<M>, M>(first: usize, second: usize)
    requires
        first == C::member_offset_spec(),
        second == C::member_offset_spec(),
    ensures
        first == second,
        first + C::member_size_spec() <= C::container_size_spec(),
{
    C::layout_wf();
}

/// Recovering a container address from the address of its member undoes
/// taking the member's address: offset recovery never loses the container.
pub proof fn lemma_recover_round_trip<C: ContainerOf<M>, M>(container_addr: int)
    ensures
        container_address_of::<C, M>(container_addr + C::member_offset_spec())
            == container_addr,
{
}

} // verus!

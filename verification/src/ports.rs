//! The contract between a process's bundle of endpoints and the handle
//! through which the bundle is wired from outside.

use crate::channels::fabric::{Fabric, FabricState};
use vstd::prelude::*;

verus! {

/// A bundle of endpoints that a process owns, together with the handle type
/// that mirrors it.
///
/// The specification functions say what `create` builds and what `handle`
/// returns. Every bundle with endpoints defines them; as they stand here
/// they describe a bundle without endpoints.
pub trait Ports: Sized {
    /// The outward mirror of the bundle: one endpoint handle per endpoint.
    type Handle;

    /// Every endpoint of the bundle refers to a channel or inbox that
    /// `fabric` has. A bundle without endpoints has nothing to refer to.
    open spec fn wired_in(&self, fabric: FabricState) -> bool {
        true
    }

    /// The handle that `handle` returns.
    open spec fn handle_spec(&self) -> Self::Handle {
        arbitrary()
    }

    /// The fabric after `create` has built a bundle in `before`. A bundle
    /// without endpoints leaves the fabric as it is.
    open spec fn after_create(before: FabricState) -> FabricState {
        before
    }

    /// The handle of the bundle that `create` builds in `before`.
    open spec fn handle_after_create(before: FabricState) -> Self::Handle {
        arbitrary()
    }

    /// Composes the handle from the handles of the endpoints.
    fn handle(&self) -> (handle: Self::Handle)
        ensures
            handle == self.handle_spec(),
    ;

    /// Builds every endpoint of the bundle in `fabric`.
    fn create(fabric: &mut Fabric) -> (ports: Self)
        requires
            old(fabric)@.wf(),
        ensures
            final(fabric)@ == Self::after_create(old(fabric)@),
            ports.handle_spec() == Self::handle_after_create(old(fabric)@),
            final(fabric)@.wf(),
            final(fabric)@.extends(old(fabric)@),
            ports.wired_in(final(fabric)@),
    ;
}

/// The empty bundle: no endpoints, and the unit handle.
impl Ports for () {
    type Handle = ();

    open spec fn wired_in(&self, fabric: FabricState) -> bool {
        true
    }

    open spec fn handle_spec(&self) -> () {
        ()
    }

    open spec fn after_create(before: FabricState) -> FabricState {
        before
    }

    open spec fn handle_after_create(before: FabricState) -> () {
        ()
    }

    fn handle(&self) -> (handle: ()) {
        ()
    }

    fn create(fabric: &mut Fabric) -> (ports: ()) {
        assert(fabric@.channels.take(fabric@.channels.len() as int) =~= fabric@.channels);
        assert(fabric@.inboxes.take(fabric@.inboxes.len() as int) =~= fabric@.inboxes);
        ()
    }
}

} // verus!

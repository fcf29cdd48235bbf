//! The router's persistent state and the two operations of its owner.

use crate::address::Address;
use crate::error::MyErrorCode;
use vstd::prelude::*;

verus! {

/// The single state of a deployed router.
#[derive(Clone, Copy, Debug, PartialEq, Eq)]
pub struct RouterState {
    /// Who may pause and resume the router.
    pub owner: Address,
    /// While set, no batch is executed.
    pub is_paused: bool,
    /// The bump seed of the state's own derived address.
    pub bump: u8,
}

/// What initialization is given: the state to fill, the initializing identity
/// and the bump seed found for the state's address.
#[derive(Clone, Copy, Debug, PartialEq, Eq)]
pub struct Initialize {
    pub router_state: RouterState,
    pub owner: Address,
    pub bump: u8,
}

/// What a pause toggle is given: the state and the identity that asks.
#[derive(Clone, Copy, Debug, PartialEq, Eq)]
pub struct TogglePause {
    pub router_state: RouterState,
    pub owner: Address,
}

/// Fills the state: owned by the initializing identity, not paused. That the
/// state is created only once is up to whoever allocates its account.
pub fn initialize(ctx: &mut Initialize) -> (r: Result<(), MyErrorCode>)
    ensures
        r is Ok,
        final(ctx).router_state == (RouterState {
            owner: old(ctx).owner,
            is_paused: false,
            bump: old(ctx).bump,
        }),
        final(ctx).owner == old(ctx).owner,
        final(ctx).bump == old(ctx).bump,
{
    ctx.router_state.owner = ctx.owner;
    ctx.router_state.is_paused = false;
    ctx.router_state.bump = ctx.bump;
    Ok(())
}

/// Flips the pause flag for the owner; anyone else is refused and the state
/// stays as it was.
pub fn toggle_pause(ctx: &mut TogglePause) -> (r: Result<(), MyErrorCode>)
    ensures
        old(ctx).owner == old(ctx).router_state.owner ==> r is Ok && final(ctx).router_state == (
        RouterState { is_paused: !old(ctx).router_state.is_paused, ..old(ctx).router_state }),
        old(ctx).owner != old(ctx).router_state.owner ==> r == Err::<(), MyErrorCode>(
            MyErrorCode::UnauthorizedAccess,
        ) && final(ctx).router_state == old(ctx).router_state,
        final(ctx).owner == old(ctx).owner,
{
    if ctx.owner == ctx.router_state.owner {
        ctx.router_state.is_paused = !ctx.router_state.is_paused;
        Ok(())
    } else {
        Err(MyErrorCode::UnauthorizedAccess)
    }
}

} // verus!

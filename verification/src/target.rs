use std::sync::Arc;

use vstd::prelude::*;

verus! {

/// The refresh rate, in draws per second, of a target that writes to the
/// terminal's standard error.
pub const DEFAULT_REFRESH_RATE: u64 = 15;

/// The identity of a multi progress: the address of an allocation that the
/// multi progress and every remote target of its bars keep alive, so that no
/// other multi progress can hold the same address meanwhile.
#[derive(Debug)]
pub struct MultiOwner {
    token: Arc<()>,
    addr: usize,
}

/// `Arc::as_ptr`, taken as a number: where the allocation lies. It rests on
/// the allocator, so no clause states it.
#[verifier::external_body]
fn allocation_address(token: &Arc<()>) -> usize {
    Arc::as_ptr(token) as usize
}

/// `Arc::clone`: another handle to the same allocation. Nothing is stated of
/// it: the contracts tell owners apart by their address alone.
#[verifier::external_body]
fn arc_clone(token: &Arc<()>) -> Arc<()> {
    Arc::clone(token)
}

impl MultiOwner {
    /// A fresh identity, shared with nothing else.
    pub(crate) fn new() -> Self {
        let token = Arc::new(());
        let addr = allocation_address(&token);
        MultiOwner { token, addr }
    }

    /// The address that identifies the multi progress.
    pub closed spec fn id(&self) -> usize {
        self.addr
    }

    /// Whether both name the same multi progress.
    pub fn same(&self, other: &MultiOwner) -> (r: bool)
        ensures
            r == (self.id() == other.id()),
    {
        self.addr == other.addr
    }
}

impl Clone for MultiOwner {
    fn clone(&self) -> (r: Self)
        ensures
            r.id() == self.id(),
    {
        MultiOwner { token: arc_clone(&self.token), addr: self.addr }
    }
}

/// Where a progress bar, or a multi progress, sends what it draws.
///
/// `Term` writes to standard error at most `refresh_rate` times a second,
/// `Hidden` draws nothing, and `Remote` hands the bar's lines to the multi
/// progress `owner`, into slot `idx` of its draw states.
#[derive(Debug, Clone)]
pub enum ProgressDrawTarget {
    Term { refresh_rate: u64 },
    Hidden,
    Remote { owner: MultiOwner, idx: usize },
}

impl ProgressDrawTarget {
    /// A target that draws to standard error, refreshing at most 15 times a second.
    pub fn stderr() -> (t: Self)
        ensures
            t == (ProgressDrawTarget::Term { refresh_rate: DEFAULT_REFRESH_RATE }),
    {
        ProgressDrawTarget::Term { refresh_rate: DEFAULT_REFRESH_RATE }
    }

    /// A target that never draws anything.
    pub fn hidden() -> (t: Self)
        ensures
            t == ProgressDrawTarget::Hidden,
    {
        ProgressDrawTarget::Hidden
    }

    /// A target that forwards to slot `idx` of the multi progress `owner`.
    pub(crate) fn new_remote(owner: MultiOwner, idx: usize) -> (t: Self)
        ensures
            t == (ProgressDrawTarget::Remote { owner, idx }),
            spec_remote_to(t) == Some((owner.id(), idx)),
    {
        ProgressDrawTarget::Remote { owner, idx }
    }

    /// The slot index of a remote target, `None` for any other target.
    pub fn remote(&self) -> (r: Option<usize>)
        ensures
            r == spec_remote(*self),
    {
        match self {
            ProgressDrawTarget::Remote { idx, .. } => Some(*idx),
            _ => None,
        }
    }

    /// Whether the target draws nothing at all.
    pub fn is_hidden(&self) -> (r: bool)
        ensures
            r == (*self is Hidden),
    {
        match self {
            ProgressDrawTarget::Hidden => true,
            _ => false,
        }
    }

    /// The refresh rate of a terminal target, `None` for any other target.
    pub fn refresh_rate(&self) -> (r: Option<u64>)
        ensures
            r == (match *self {
                ProgressDrawTarget::Term { refresh_rate } => Some(refresh_rate),
                _ => None,
            }),
    {
        match self {
            ProgressDrawTarget::Term { refresh_rate } => Some(*refresh_rate),
            _ => None,
        }
    }
}

/// The owner identity and slot index of a remote target.
pub open spec fn spec_remote_to(t: ProgressDrawTarget) -> Option<(usize, usize)> {
    match t {
        ProgressDrawTarget::Remote { owner, idx } => Some((owner.id(), idx)),
        _ => None,
    }
}

/// The slot index of a remote target.
pub open spec fn spec_remote(t: ProgressDrawTarget) -> Option<usize> {
    match t {
        ProgressDrawTarget::Remote { idx, .. } => Some(idx),
        _ => None,
    }
}

} // verus!

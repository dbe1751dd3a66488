//! Provisioning of the local-socket endpoint.
//!
//! The endpoint identity is computed from a logical name.  On Unix-like
//! systems a leftover artifact at that path is removed before binding — a
//! stale file from an unclean shutdown must never make the next startup fail
//! with "address in use" — and after binding the artifact's group and mode
//! are narrowed in a second pass.  On Windows a serialized security
//! descriptor is attached instead.  Every step of this is decided here; the
//! operating-system calls that carry the steps out live outside the library,
//! and any failure among them is fatal at startup.

use vstd::prelude::*;

verus! {

/// Unix permission bits for the endpoint artifact: owner and group may read
/// and write.
pub const SOCKET_MODE: u32 = 0o664;

/// The serialized security descriptor attached on Windows, granting access
/// to everyone: a broad placeholder to be tightened before production use.
pub open spec fn windows_descriptor() -> Seq<u8> {
    seq![
        'D' as u8, ':' as u8, '(' as u8, 'A' as u8, ';' as u8, ';' as u8, 'G' as u8, 'A' as u8,
        ';' as u8, ';' as u8, ';' as u8, 'W' as u8, 'D' as u8, ')' as u8,
    ]
}

/// Builds the Windows security descriptor string as bytes.
pub fn windows_descriptor_bytes() -> (r: Vec<u8>)
    ensures
        r@ == windows_descriptor(),
{
    let mut r: Vec<u8> = Vec::new();
    r.push('D' as u8);
    r.push(':' as u8);
    r.push('(' as u8);
    r.push('A' as u8);
    r.push(';' as u8);
    r.push(';' as u8);
    r.push('G' as u8);
    r.push('A' as u8);
    r.push(';' as u8);
    r.push(';' as u8);
    r.push(';' as u8);
    r.push('W' as u8);
    r.push('D' as u8);
    r.push(')' as u8);
    proof {
        assert(r@ =~= windows_descriptor());
    }
    r
}

/// The file-name suffix of the Unix endpoint artifact.
pub open spec fn socket_suffix() -> Seq<u8> {
    seq!['.' as u8, 's' as u8, 'o' as u8, 'c' as u8, 'k' as u8]
}

/// Resolves the endpoint identity: the artifact lives under the given
/// runtime directory, named after the logical name with the socket suffix.
pub fn endpoint_path(dir: &[u8], name: &[u8]) -> (r: Vec<u8>)
    ensures
        r@ == dir@ + seq!['/' as u8] + name@ + socket_suffix(),
{
    let mut r: Vec<u8> = Vec::new();
    crate::envelope::extend_from(&mut r, dir);
    r.push('/' as u8);
    crate::envelope::extend_from(&mut r, name);
    r.push('.' as u8);
    r.push('s' as u8);
    r.push('o' as u8);
    r.push('c' as u8);
    r.push('k' as u8);
    proof {
        assert(r@ =~= dir@ + seq!['/' as u8] + name@ + socket_suffix());
    }
    r
}

/// One step of provisioning the endpoint.
#[derive(PartialEq, Eq, Structural, Clone, Copy, Debug)]
pub enum ProvisionStep {
    /// Remove a stale artifact left by an unclean prior shutdown.
    RemoveStale,
    /// Bind the endpoint, non-blocking for both read and accept.
    Bind,
    /// Narrow the artifact's owning group.
    SetGroup,
    /// Narrow the artifact's mode bits to [`SOCKET_MODE`].
    SetMode,
}

/// Whether an artifact stands at the endpoint path after one step.
pub open spec fn step_present(present: bool, s: ProvisionStep) -> bool {
    match s {
        ProvisionStep::RemoveStale => false,
        ProvisionStep::Bind => true,
        ProvisionStep::SetGroup => present,
        ProvisionStep::SetMode => present,
    }
}

/// Whether an artifact stands at the endpoint path after a whole plan.
pub open spec fn present_after(present: bool, plan: Seq<ProvisionStep>) -> bool
    decreases plan.len(),
{
    if plan.len() == 0 {
        present
    } else {
        present_after(step_present(present, plan[0]), plan.drop_first())
    }
}

/// Every bind in the plan happens while nothing stands at the path — the
/// condition under which binding cannot fail with "address in use".
pub open spec fn binds_cleanly(present: bool, plan: Seq<ProvisionStep>) -> bool
    decreases plan.len(),
{
    if plan.len() == 0 {
        true
    } else {
        (plan[0] is Bind ==> !present) && binds_cleanly(
            step_present(present, plan[0]),
            plan.drop_first(),
        )
    }
}

/// Decides the provisioning steps for the endpoint, given whether an
/// artifact already stands at its path.  A leftover artifact is removed
/// before binding, so a stale endpoint never blocks the next startup; after
/// binding, group and mode are narrowed in a second pass.  The plan never
/// binds over an existing artifact, whatever was left behind.
pub fn provision_plan(artifact_exists: bool) -> (r: Vec<ProvisionStep>)
    ensures
        artifact_exists ==> r@ == seq![
            ProvisionStep::RemoveStale, ProvisionStep::Bind, ProvisionStep::SetGroup,
            ProvisionStep::SetMode,
        ],
        !artifact_exists ==> r@ == seq![
            ProvisionStep::Bind, ProvisionStep::SetGroup, ProvisionStep::SetMode,
        ],
        binds_cleanly(artifact_exists, r@),
        present_after(artifact_exists, r@),
{
    let mut r: Vec<ProvisionStep> = Vec::new();
    if artifact_exists {
        r.push(ProvisionStep::RemoveStale);
    }
    r.push(ProvisionStep::Bind);
    r.push(ProvisionStep::SetGroup);
    r.push(ProvisionStep::SetMode);
    proof {
        lemma_tail_binds_cleanly();
        if artifact_exists {
            let p = seq![
                ProvisionStep::RemoveStale, ProvisionStep::Bind, ProvisionStep::SetGroup,
                ProvisionStep::SetMode,
            ];
            assert(r@ =~= p);
            assert(p.drop_first() =~= seq![
                ProvisionStep::Bind, ProvisionStep::SetGroup, ProvisionStep::SetMode,
            ]);
            assert(binds_cleanly(true, p));
        } else {
            let p = seq![ProvisionStep::Bind, ProvisionStep::SetGroup, ProvisionStep::SetMode];
            assert(r@ =~= p);
        }
    }
    r
}

/// Once nothing stands at the path, binding and then narrowing group and
/// mode never bind over an artifact, and leave the endpoint standing.
proof fn lemma_tail_binds_cleanly()
    ensures
        binds_cleanly(false, seq![
            ProvisionStep::Bind, ProvisionStep::SetGroup, ProvisionStep::SetMode,
        ]),
        present_after(false, seq![
            ProvisionStep::Bind, ProvisionStep::SetGroup, ProvisionStep::SetMode,
        ]),
{
    let p = seq![ProvisionStep::Bind, ProvisionStep::SetGroup, ProvisionStep::SetMode];
    let p1 = seq![ProvisionStep::SetGroup, ProvisionStep::SetMode];
    let p2 = seq![ProvisionStep::SetMode];
    assert(p.drop_first() =~= p1);
    assert(p1.drop_first() =~= p2);
    assert(p2.drop_first() =~= Seq::<ProvisionStep>::empty());
    assert(binds_cleanly(true, Seq::<ProvisionStep>::empty()));
    assert(binds_cleanly(true, p2));
    assert(binds_cleanly(true, p1));
    assert(binds_cleanly(false, p));
    assert(present_after(true, Seq::<ProvisionStep>::empty()));
    assert(present_after(true, p2));
    assert(present_after(true, p1));
    assert(present_after(false, p));
}

/// Decides the clean-shutdown steps on Unix: the listener owns the artifact
/// and removes it, so nothing stale is left for the next startup.
pub fn shutdown_plan() -> (r: Vec<ProvisionStep>)
    ensures
        r@ == seq![ProvisionStep::RemoveStale],
        !present_after(true, r@),
{
    let mut r: Vec<ProvisionStep> = Vec::new();
    r.push(ProvisionStep::RemoveStale);
    proof {
        let p = seq![ProvisionStep::RemoveStale];
        assert(r@ =~= p);
        assert(p.drop_first() =~= Seq::<ProvisionStep>::empty());
        assert(!present_after(false, Seq::<ProvisionStep>::empty()));
        assert(!present_after(true, p));
    }
    r
}

} // verus!
